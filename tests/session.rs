use screenoff::config::{Config, PowerState};
use screenoff::mode::DisplayMode;
use screenoff::monitors::{
    get_monitors, get_primary_monitor, select_monitor, start_session, update_secondary_monitors,
    DeviceRecord, MonitorInfo, SelectOutcome,
};
use screenoff::power::{
    disable_monitor, enable_all_monitors, toggle_monitors, DisableRun, MonitorError, ToggleAction,
};

fn device(name: &str, primary: bool, active: bool) -> DeviceRecord {
    DeviceRecord {
        device_name: name.to_string(),
        is_primary: primary,
        has_current_mode: active,
        monitor: None,
    }
}

fn names(list: &[&str]) -> Vec<String> {
    list.iter().map(|s| s.to_string()).collect()
}

fn listed(list: &[&str]) -> Vec<(String, String)> {
    list.iter().map(|s| (s.to_string(), format!("{} name", s))).collect()
}

const WIDE: DisplayMode = DisplayMode { width: 1920, height: 1080, x: 1920, y: 0 };

#[test]
fn two_outputs_full_cycle() {
    let devices = vec![device("DISPLAY1", true, true), device("DISPLAY2", false, true)];
    let monitors = get_monitors(&devices, &Vec::new());
    assert_eq!(monitors.len(), 2);
    let primary = get_primary_monitor(&devices);
    assert_eq!(primary, Some("DISPLAY1".to_string()));

    let mut config = Config::new();
    assert_eq!(start_session(&mut config, &monitors, &primary), PowerState::Enabled);
    assert_eq!(config.secondary_monitors, names(&["DISPLAY2"]));

    assert_eq!(toggle_monitors(&config), ToggleAction::DisableSecondaries);
    let mut run = DisableRun::begin(&config);
    assert_eq!(run.next_output(&config), Some(0));
    let applied = run.step(&mut config, Some(WIDE));
    assert_eq!(applied, Ok(DisplayMode { width: 0, height: 0, x: 1920, y: 0 }));
    assert_eq!(run.next_output(&config), None);
    assert_eq!(run.finish(&config), PowerState::Disabled);
    assert_eq!(config.saved_modes.entries(), &vec![("DISPLAY2".to_string(), WIDE)]);
    assert_eq!(config.state(), PowerState::Disabled);

    assert_eq!(toggle_monitors(&config), ToggleAction::EnableAll);
    assert_eq!(enable_all_monitors(&mut config, true), Ok(()));
    assert!(config.saved_modes.is_empty());
    assert_eq!(config.state(), PowerState::Enabled);
    assert_eq!(config.secondary_monitors, names(&["DISPLAY2"]));
}

#[test]
fn empty_config_is_enabled() {
    let config = Config::default();
    assert!(config.secondary_monitors.is_empty());
    assert!(config.saved_modes.is_empty());
    assert_eq!(config.state(), PowerState::Enabled);
}

#[test]
fn state_follows_saved_modes() {
    let mut config = Config::new();
    assert_eq!(config.state(), PowerState::Enabled);
    config.saved_modes.insert("B".to_string(), WIDE);
    assert_eq!(config.state(), PowerState::Disabled);
    config.saved_modes.clear();
    assert_eq!(config.state(), PowerState::Enabled);
}

#[test]
fn enable_all_when_enabled_changes_nothing() {
    let mut config = Config::new();
    config.secondary_monitors = names(&["B"]);
    assert_eq!(enable_all_monitors(&mut config, true), Ok(()));
    assert!(config.saved_modes.is_empty());
    assert_eq!(config.secondary_monitors, names(&["B"]));
    assert_eq!(
        enable_all_monitors(&mut config, false),
        Err(MonitorError::ReconfigurationFailure)
    );
    assert!(config.saved_modes.is_empty());
}

#[test]
fn failed_reset_keeps_saved_modes() {
    let mut config = Config::new();
    config.saved_modes.insert("B".to_string(), WIDE);
    assert_eq!(
        enable_all_monitors(&mut config, false),
        Err(MonitorError::ReconfigurationFailure)
    );
    assert_eq!(config.saved_modes.get(&"B".to_string()), Some(WIDE));
    assert_eq!(config.state(), PowerState::Disabled);
}

#[test]
fn disable_then_enable_round_trip() {
    let mut config = Config::new();
    config.secondary_monitors = names(&["A", "B"]);
    let other = DisplayMode { width: 1280, height: 1024, x: -1280, y: 0 };
    let ids = config.secondary_monitors.clone();
    assert!(disable_monitor(&ids[0], Some(WIDE), &mut config.saved_modes).is_ok());
    assert!(disable_monitor(&ids[1], Some(other), &mut config.saved_modes).is_ok());
    assert_eq!(config.state(), PowerState::Disabled);
    assert_eq!(enable_all_monitors(&mut config, true), Ok(()));
    assert!(config.saved_modes.is_empty());
    assert_eq!(config.state(), PowerState::Enabled);
}

#[test]
fn failed_read_skips_only_that_output() {
    let mut config = Config::new();
    let a = "A".to_string();
    let b = "B".to_string();
    assert_eq!(
        disable_monitor(&a, Some(WIDE), &mut config.saved_modes),
        Ok(DisplayMode { width: 0, height: 0, x: 1920, y: 0 })
    );
    assert_eq!(
        disable_monitor(&b, None, &mut config.saved_modes),
        Err(MonitorError::ModeReadFailure)
    );
    assert_eq!(config.saved_modes.get(&a), Some(WIDE));
    assert_eq!(config.saved_modes.get(&b), None);
    assert_eq!(config.saved_modes.entries().len(), 1);
}

#[test]
fn disable_over_no_secondaries_stays_enabled() {
    let config = Config::new();
    assert_eq!(toggle_monitors(&config), ToggleAction::DisableSecondaries);
    assert_eq!(config.state(), PowerState::Enabled);
}

#[test]
fn startup_resumes_disabled_session() {
    let mut config = Config::new();
    config.secondary_monitors = names(&["OLD"]);
    config.saved_modes.insert("OLD".to_string(), WIDE);
    let monitors = listed(&["DISPLAY1", "DISPLAY2"]);
    let primary = Some("DISPLAY1".to_string());
    assert_eq!(start_session(&mut config, &monitors, &primary), PowerState::Disabled);
    assert_eq!(config.secondary_monitors, names(&["OLD"]));
    assert_eq!(config.saved_modes.get(&"OLD".to_string()), Some(WIDE));
}

#[test]
fn secondaries_skip_primary_in_order() {
    let mut config = Config::new();
    let monitors = listed(&["D1", "D2", "D3"]);
    update_secondary_monitors(&mut config, &monitors, &Some("D2".to_string()));
    assert_eq!(config.secondary_monitors, names(&["D1", "D3"]));
    update_secondary_monitors(&mut config, &monitors, &None);
    assert_eq!(config.secondary_monitors, names(&["D2", "D3"]));
}

#[test]
fn unlisted_primary_keeps_first_output() {
    let mut config = Config::new();
    let monitors = listed(&["D1", "D2", "D3"]);
    update_secondary_monitors(&mut config, &monitors, &Some("GONE".to_string()));
    assert_eq!(config.secondary_monitors, names(&["D2", "D3"]));
    let single = listed(&["ONLY"]);
    update_secondary_monitors(&mut config, &single, &None);
    assert!(config.secondary_monitors.is_empty());
    update_secondary_monitors(&mut config, &Vec::new(), &None);
    assert!(config.secondary_monitors.is_empty());
}

#[test]
fn recompute_leaves_disabled_session_alone() {
    let mut config = Config::new();
    config.secondary_monitors = names(&["OLD"]);
    config.saved_modes.insert("OLD".to_string(), WIDE);
    update_secondary_monitors(&mut config, &listed(&["D1", "D2"]), &Some("D1".to_string()));
    assert_eq!(config.secondary_monitors, names(&["OLD"]));
    assert_eq!(config.saved_modes.get(&"OLD".to_string()), Some(WIDE));
}

#[test]
fn startup_without_primary_keeps_one_output() {
    let devices = vec![device("DISPLAY1", false, true), device("DISPLAY2", false, true)];
    let monitors = get_monitors(&devices, &Vec::new());
    let primary = get_primary_monitor(&devices);
    assert_eq!(primary, None);
    let mut config = Config::new();
    assert_eq!(start_session(&mut config, &monitors, &primary), PowerState::Enabled);
    assert_eq!(config.secondary_monitors, names(&["DISPLAY2"]));
}

#[test]
fn disable_run_attempts_each_output_in_order() {
    let mut config = Config::new();
    config.secondary_monitors = names(&["A", "B", "C"]);
    let mut run = DisableRun::begin(&config);
    let reads = [Some(WIDE), None, Some(DisplayMode { width: 800, height: 600, x: -800, y: 0 })];
    let mut seen = Vec::new();
    let mut results = Vec::new();
    while let Some(i) = run.next_output(&config) {
        seen.push(i);
        results.push(run.step(&mut config, reads[i]));
    }
    assert_eq!(seen, vec![0, 1, 2]);
    assert_eq!(
        results,
        vec![
            Ok(DisplayMode { width: 0, height: 0, x: 1920, y: 0 }),
            Err(MonitorError::ModeReadFailure),
            Ok(DisplayMode { width: 0, height: 0, x: -800, y: 0 }),
        ]
    );
    assert_eq!(run.finish(&config), PowerState::Disabled);
    assert_eq!(config.saved_modes.get(&"A".to_string()), Some(WIDE));
    assert_eq!(config.saved_modes.get(&"B".to_string()), None);
    assert_eq!(config.saved_modes.entries().len(), 2);
}

#[test]
fn disable_run_with_no_reads_stays_enabled() {
    let mut config = Config::new();
    config.secondary_monitors = names(&["A", "B"]);
    let mut run = DisableRun::begin(&config);
    while run.next_output(&config).is_some() {
        assert_eq!(run.step(&mut config, None), Err(MonitorError::ModeReadFailure));
    }
    assert_eq!(run.finish(&config), PowerState::Enabled);
    let empty = Config::new();
    let run = DisableRun::begin(&empty);
    assert_eq!(run.next_output(&empty), None);
    assert_eq!(run.finish(&empty), PowerState::Enabled);
}

#[test]
fn marking_last_output_is_rejected() {
    let mut config = Config::new();
    let monitors = listed(&["D1", "D2"]);
    config.secondary_monitors = names(&["D2"]);
    assert_eq!(select_monitor(&mut config, &monitors, 0), SelectOutcome::Rejected);
    assert_eq!(config.secondary_monitors, names(&["D2"]));
}

#[test]
fn selecting_adds_and_removes() {
    let mut config = Config::new();
    let monitors = listed(&["D1", "D2", "D3"]);
    assert_eq!(select_monitor(&mut config, &monitors, 1), SelectOutcome::Added);
    assert_eq!(select_monitor(&mut config, &monitors, 2), SelectOutcome::Added);
    assert_eq!(config.secondary_monitors, names(&["D2", "D3"]));
    assert_eq!(select_monitor(&mut config, &monitors, 0), SelectOutcome::Rejected);
    assert_eq!(select_monitor(&mut config, &monitors, 1), SelectOutcome::Removed);
    assert_eq!(config.secondary_monitors, names(&["D3"]));
}

#[test]
fn removing_drops_every_copy() {
    let mut config = Config::new();
    let monitors = listed(&["D1", "D2"]);
    config.secondary_monitors = names(&["D2", "X", "D2"]);
    assert_eq!(select_monitor(&mut config, &monitors, 1), SelectOutcome::Removed);
    assert_eq!(config.secondary_monitors, names(&["X"]));
}

#[test]
fn stale_secondaries_do_not_block_marking() {
    let mut config = Config::new();
    let monitors = listed(&["D1", "D2", "D3"]);
    config.secondary_monitors = names(&["GONE", "D3"]);
    assert_eq!(select_monitor(&mut config, &monitors, 1), SelectOutcome::Added);
    assert_eq!(config.secondary_monitors, names(&["GONE", "D3", "D2"]));
}

#[test]
fn single_output_cannot_be_marked() {
    let mut config = Config::new();
    let monitors = listed(&["ONLY"]);
    assert_eq!(select_monitor(&mut config, &monitors, 0), SelectOutcome::Rejected);
    assert!(config.secondary_monitors.is_empty());
}

#[test]
fn primary_is_first_flagged() {
    let devices = vec![
        device("A", false, true),
        device("B", true, true),
        device("C", true, true),
    ];
    assert_eq!(get_primary_monitor(&devices), Some("B".to_string()));
    let none = vec![device("A", false, true)];
    assert_eq!(get_primary_monitor(&none), None);
    assert_eq!(get_primary_monitor(&Vec::new()), None);
}

#[test]
fn enumeration_skips_unnamed_and_inactive() {
    let devices = vec![
        device("\\\\.\\DISPLAY1", true, true),
        device("", false, true),
        device("\\\\.\\DISPLAY3", false, false),
        device("\\\\.\\DISPLAY4", false, true),
        device("ODD", false, true),
    ];
    let monitors = get_monitors(&devices, &Vec::new());
    assert_eq!(
        monitors,
        vec![
            ("\\\\.\\DISPLAY1".to_string(), "Display 1".to_string()),
            ("\\\\.\\DISPLAY4".to_string(), "Display 4".to_string()),
            ("ODD".to_string(), "Display 5".to_string()),
        ]
    );
}

#[test]
fn enumeration_names_from_table_and_description() {
    let with = |name: &str, id: &str, desc: &str| DeviceRecord {
        device_name: name.to_string(),
        is_primary: false,
        has_current_mode: true,
        monitor: Some(MonitorInfo { device_id: id.to_string(), device_string: desc.to_string() }),
    };
    let devices = vec![
        with("\\\\.\\DISPLAY1", "MONITOR\\DEL40B6\\{4d36e96e}\\0001", "Generic PnP Monitor"),
        with("\\\\.\\DISPLAY2", "MONITOR\\SAM0F99\\{4d36e96e}\\0002", "Samsung Panel"),
        with("\\\\.\\DISPLAY3", "MONITOR\\ACI27A1\\{4d36e96e}\\0003", "Generic PnP Monitor"),
        with("\\\\.\\DISPLAY4", "NOPATH", ""),
    ];
    let table = vec![("DEL40B6".to_string(), "DELL U2720Q".to_string())];
    let monitors = get_monitors(&devices, &table);
    let shown: Vec<&str> = monitors.iter().map(|m| m.1.as_str()).collect();
    assert_eq!(shown, vec!["DELL U2720Q", "Samsung Panel", "Display 3", "Display 4"]);
}
