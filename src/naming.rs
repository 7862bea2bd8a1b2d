use vstd::prelude::*;
use vstd::string::*;

verus! {

/// The first position at or after `from` that holds `c`.
pub open spec fn find_from(s: Seq<char>, c: char, from: int) -> Option<int>
    decreases s.len() - from,
{
    if from < 0 || from >= s.len() {
        None
    } else if s[from] == c {
        Some(from)
    } else {
        find_from(s, c, from + 1)
    }
}

/// The second segment of a backslash-delimited hardware path
/// (`MONITOR\MODEL\...` gives `MODEL`), if the path has two backslashes.
pub open spec fn model_fragment(s: Seq<char>) -> Option<Seq<char>> {
    match find_from(s, '\\', 0) {
        Some(a) => match find_from(s, '\\', a + 1) {
            Some(b) => Some(s.subrange(a + 1, b)),
            None => None,
        },
        None => None,
    }
}

pub open spec fn trim_start_nul(s: Seq<char>) -> Seq<char>
    decreases s.len(),
{
    if s.len() > 0 && s[0] == '\0' {
        trim_start_nul(s.drop_first())
    } else {
        s
    }
}

pub open spec fn trim_end_nul(s: Seq<char>) -> Seq<char>
    decreases s.len(),
{
    if s.len() > 0 && s.last() == '\0' {
        trim_end_nul(s.drop_last())
    } else {
        s
    }
}

/// `s` without the NUL characters at either end.
pub open spec fn trim_nul(s: Seq<char>) -> Seq<char> {
    trim_end_nul(trim_start_nul(s))
}

pub open spec fn is_digit(c: char) -> bool {
    '0' <= c && c <= '9'
}

pub open spec fn all_digits(s: Seq<char>) -> bool {
    forall|i: int| 0 <= i < s.len() ==> is_digit(#[trigger] s[i])
}

pub open spec fn digit_value(c: char) -> nat {
    (c as u32 - '0' as u32) as nat
}

/// The number that a string of decimal digits writes.
pub open spec fn digits_value(s: Seq<char>) -> nat
    decreases s.len(),
{
    if s.len() == 0 {
        0
    } else {
        digits_value(s.drop_last()) * 10 + digit_value(s.last())
    }
}

/// The text after an optional leading `+`.
pub open spec fn unsigned_digits(s: Seq<char>) -> Seq<char> {
    if s.len() > 0 && s[0] == '+' {
        s.drop_first()
    } else {
        s
    }
}

/// Decimal text read as a `u32`: an optional `+`, then at least one digit,
/// with a value that fits.
pub open spec fn parse_u32_spec(s: Seq<char>) -> Option<u32> {
    let d = unsigned_digits(s);
    if d.len() > 0 && all_digits(d) && digits_value(d) <= u32::MAX {
        Some(digits_value(d) as u32)
    } else {
        None
    }
}

pub open spec fn digit_text(d: nat) -> Seq<char> {
    if d == 0 {
        "0"@
    } else if d == 1 {
        "1"@
    } else if d == 2 {
        "2"@
    } else if d == 3 {
        "3"@
    } else if d == 4 {
        "4"@
    } else if d == 5 {
        "5"@
    } else if d == 6 {
        "6"@
    } else if d == 7 {
        "7"@
    } else if d == 8 {
        "8"@
    } else {
        "9"@
    }
}

/// `n` written in decimal, without leading zeros.
pub open spec fn decimal(n: nat) -> Seq<char>
    decreases n,
{
    if n < 10 {
        digit_text(n)
    } else {
        decimal(n / 10) + digit_text(n % 10)
    }
}

/// The label of an output that has no better name.
pub open spec fn ordinal_label(n: nat) -> Seq<char> {
    "Display "@ + decimal(n)
}

/// The description that drivers give a monitor they know nothing about.
pub open spec fn generic_name() -> Seq<char> {
    "Generic PnP Monitor"@
}

/// The prefix of an output's device name before its number.
pub open spec fn display_prefix() -> Seq<char> {
    "\\\\.\\DISPLAY"@
}

/// The number of an output: the one its device name ends in, or else its
/// position in the enumeration counted from one.
pub open spec fn display_number(name: Seq<char>, index: nat) -> nat {
    let p = display_prefix();
    if name.len() >= p.len() && name.subrange(0, p.len() as int) == p {
        match parse_u32_spec(name.subrange(p.len() as int, name.len() as int)) {
            Some(v) => v as nat,
            None => index + 1,
        }
    } else {
        index + 1
    }
}

/// A table entry from a monitor identity record: its instance path's model
/// fragment and its trimmed name, when both are there.
pub open spec fn friendly_entry(instance: Seq<char>, text: Seq<char>) -> Option<(Seq<char>, Seq<char>)> {
    match model_fragment(instance) {
        Some(m) => if trim_nul(text).len() > 0 {
            Some((m, trim_nul(text)))
        } else {
            None
        },
        None => None,
    }
}

pub open spec fn friendly_table(recs: Seq<(Seq<char>, Seq<char>)>) -> Seq<(Seq<char>, Seq<char>)>
    decreases recs.len(),
{
    if recs.len() == 0 {
        Seq::empty()
    } else {
        let p = friendly_table(recs.drop_last());
        match friendly_entry(recs.last().0, recs.last().1) {
            Some(e) => p.push(e),
            None => p,
        }
    }
}

/// The name that a table gives a model; a later entry overrides an earlier one.
pub open spec fn lookup_name(table: Seq<(Seq<char>, Seq<char>)>, model: Seq<char>) -> Option<Seq<char>>
    decreases table.len(),
{
    if table.len() == 0 {
        None
    } else if table.last().0 == model {
        Some(table.last().1)
    } else {
        lookup_name(table.drop_last(), model)
    }
}

pub open spec fn pairs_view(v: Seq<(String, String)>) -> Seq<(Seq<char>, Seq<char>)> {
    v.map_values(|p: (String, String)| (p.0@, p.1@))
}

/// The name shown for an output numbered `num`, whose attached monitor, if
/// one was found, has hardware identifier and description `monitor`.
pub open spec fn resolve_name(
    table: Seq<(Seq<char>, Seq<char>)>,
    monitor: Option<(Seq<char>, Seq<char>)>,
    num: nat,
) -> Seq<char> {
    match monitor {
        None => ordinal_label(num),
        Some(m) => {
            let model = match model_fragment(m.0) {
                Some(f) => f,
                None => Seq::empty(),
            };
            match lookup_name(table, model) {
                Some(f) => f,
                None => if m.1.len() > 0 && m.1 != generic_name() {
                    m.1
                } else {
                    ordinal_label(num)
                },
            }
        },
    }
}

fn find_char_from(s: &str, c: char, from: usize) -> (r: Option<usize>)
    requires
        from <= s@.len(),
    ensures
        match r {
            Some(i) => find_from(s@, c, from as int) == Some(i as int) && from <= i < s@.len(),
            None => find_from(s@, c, from as int) is None,
        },
        s@.len() <= usize::MAX,
{
    let n = s.unicode_len();
    let mut i: usize = from;
    while i < n
        invariant
            from <= i <= n,
            n == s@.len(),
            find_from(s@, c, from as int) == find_from(s@, c, i as int),
        decreases n - i,
    {
        if s.get_char(i) == c {
            return Some(i);
        }
        i += 1;
    }
    None
}

/// The model fragment of a hardware path.
pub fn model_fragment_of(s: &str) -> (r: Option<String>)
    ensures
        match r {
            Some(m) => model_fragment(s@) == Some(m@),
            None => model_fragment(s@) is None,
        },
{
    match find_char_from(s, '\\', 0) {
        Some(a) => match find_char_from(s, '\\', a + 1) {
            Some(b) => Some(String::from_str(s.substring_char(a + 1, b))),
            None => None,
        },
        None => None,
    }
}

/// `s` without the NUL characters at either end.
pub fn trim_nul_of(s: &str) -> (r: String)
    ensures
        r@ == trim_nul(s@),
{
    let n = s.unicode_len();
    let mut lo: usize = 0;
    assert(s@.subrange(0, n as int) =~= s@);
    while lo < n && s.get_char(lo) == '\0'
        invariant
            lo <= n,
            n == s@.len(),
            trim_start_nul(s@) == trim_start_nul(s@.subrange(lo as int, n as int)),
        decreases n - lo,
    {
        assert(s@.subrange(lo as int, n as int).drop_first() =~= s@.subrange(lo + 1, n as int));
        lo += 1;
    }
    assert(trim_start_nul(s@) == s@.subrange(lo as int, n as int));
    let mut hi: usize = n;
    while hi > lo && s.get_char(hi - 1) == '\0'
        invariant
            lo <= hi <= n,
            n == s@.len(),
            trim_end_nul(s@.subrange(lo as int, n as int)) == trim_end_nul(
                s@.subrange(lo as int, hi as int),
            ),
        decreases hi - lo,
    {
        assert(s@.subrange(lo as int, hi as int).drop_last() =~= s@.subrange(lo as int, hi - 1));
        hi -= 1;
    }
    String::from_str(s.substring_char(lo, hi))
}

proof fn lemma_digits_prefix(t: Seq<char>, k: int)
    requires
        0 <= k <= t.len(),
    ensures
        digits_value(t.subrange(0, k)) <= digits_value(t),
    decreases t.len() - k,
{
    if k < t.len() {
        lemma_digits_prefix(t, k + 1);
        assert(t.subrange(0, k + 1).drop_last() =~= t.subrange(0, k));
    } else {
        assert(t.subrange(0, k) =~= t);
    }
}

/// Decimal text read as a `u32`, as `str::parse` reads it.
pub fn parse_u32(s: &str) -> (r: Option<u32>)
    ensures
        r == parse_u32_spec(s@),
{
    let n = s.unicode_len();
    let mut start: usize = 0;
    if n > 0 && s.get_char(0) == '+' {
        start = 1;
    }
    let ghost d = s@.subrange(start as int, n as int);
    assert(d =~= unsigned_digits(s@));
    if start == n {
        return None;
    }
    let mut acc: u64 = 0;
    let mut i: usize = start;
    while i < n
        invariant
            start <= i <= n,
            n == s@.len(),
            d == s@.subrange(start as int, n as int),
            d == unsigned_digits(s@),
            acc == digits_value(d.subrange(0, i - start)),
            acc <= u32::MAX,
            all_digits(d.subrange(0, i - start)),
        decreases n - i,
    {
        let c = s.get_char(i);
        if !('0' <= c && c <= '9') {
            assert(d[i - start] == c);
            assert(!is_digit(d[i - start]));
            assert(!all_digits(d));
            return None;
        }
        let v: u64 = acc * 10 + (c as u32 - '0' as u32) as u64;
        assert(d.subrange(0, i - start + 1).drop_last() =~= d.subrange(0, i - start));
        assert(d.subrange(0, i - start + 1).last() == c);
        assert(digits_value(d.subrange(0, i - start + 1)) == v);
        if v > u32::MAX as u64 {
            proof {
                if all_digits(d) {
                    lemma_digits_prefix(d, i - start + 1);
                }
            }
            return None;
        }
        acc = v;
        i += 1;
        assert forall|j: int| 0 <= j < i - start implies is_digit(#[trigger] d.subrange(0, i - start)[j]) by {
            if j < i - start - 1 {
                assert(d.subrange(0, i - start)[j] == d.subrange(0, i - start - 1)[j]);
            }
        }
    }
    assert(d.subrange(0, n - start) =~= d);
    Some(acc as u32)
}

fn digit_str(d: usize) -> (r: &'static str)
    requires
        d < 10,
    ensures
        r@ == digit_text(d as nat),
{
    if d == 0 {
        "0"
    } else if d == 1 {
        "1"
    } else if d == 2 {
        "2"
    } else if d == 3 {
        "3"
    } else if d == 4 {
        "4"
    } else if d == 5 {
        "5"
    } else if d == 6 {
        "6"
    } else if d == 7 {
        "7"
    } else if d == 8 {
        "8"
    } else {
        "9"
    }
}

fn append_decimal(s: &mut String, n: usize)
    ensures
        final(s)@ == old(s)@ + decimal(n as nat),
    decreases n,
{
    if n >= 10 {
        append_decimal(s, n / 10);
    }
    s.append(digit_str(n % 10));
    assert(final(s)@ =~= old(s)@ + decimal(n as nat));
}

/// `Display ` followed by `n` in decimal.
pub fn ordinal_name(n: usize) -> (r: String)
    ensures
        r@ == ordinal_label(n as nat),
{
    let mut s = String::from_str("Display ");
    append_decimal(&mut s, n);
    s
}

/// The number of an output, from its device name or else its position.
pub fn display_number_of(name: &String, index: usize) -> (r: usize)
    requires
        index < usize::MAX,
    ensures
        r as nat == display_number(name@, index as nat),
{
    let p = "\\\\.\\DISPLAY";
    let pl = p.unicode_len();
    let n = name.as_str().unicode_len();
    if n >= pl {
        let head = String::from_str(name.as_str().substring_char(0, pl));
        if head == String::from_str(p) {
            match parse_u32(name.as_str().substring_char(pl, n)) {
                Some(v) => {
                    return v as usize;
                },
                None => {},
            }
        }
    }
    index + 1
}

/// The table of monitor names from identity records, each an instance path
/// and the name text as decoded, in record order.
pub fn get_monitor_friendly_names(records: &Vec<(String, String)>) -> (r: Vec<(String, String)>)
    ensures
        pairs_view(r@) == friendly_table(pairs_view(records@)),
{
    let mut r: Vec<(String, String)> = Vec::new();
    let mut i: usize = 0;
    while i < records.len()
        invariant
            i <= records@.len(),
            pairs_view(r@) == friendly_table(pairs_view(records@).subrange(0, i as int)),
        decreases records@.len() - i,
    {
        let ghost pre = pairs_view(records@).subrange(0, i as int + 1);
        let ghost before = r@;
        assert(pre.drop_last() =~= pairs_view(records@).subrange(0, i as int));
        assert(pre.last() == (records@[i as int].0@, records@[i as int].1@));
        match model_fragment_of(records[i].0.as_str()) {
            Some(model) => {
                let friendly = trim_nul_of(records[i].1.as_str());
                if friendly.as_str().unicode_len() > 0 {
                    r.push((model, friendly));
                    assert(pairs_view(r@) =~= pairs_view(before).push((r@.last().0@, r@.last().1@)));
                }
            },
            None => {},
        }
        assert(pairs_view(r@) =~= friendly_table(pre));
        i += 1;
    }
    assert(pairs_view(records@).subrange(0, records@.len() as int) =~= pairs_view(records@));
    r
}

/// The name that `table` gives `model`; a later entry overrides an earlier one.
pub fn find_friendly_name(table: &Vec<(String, String)>, model: &String) -> (r: Option<String>)
    ensures
        match r {
            Some(f) => lookup_name(pairs_view(table@), model@) == Some(f@),
            None => lookup_name(pairs_view(table@), model@) is None,
        },
{
    let mut i: usize = table.len();
    assert(pairs_view(table@).subrange(0, i as int) =~= pairs_view(table@));
    while i > 0
        invariant
            i <= table@.len(),
            lookup_name(pairs_view(table@), model@) == lookup_name(
                pairs_view(table@).subrange(0, i as int),
                model@,
            ),
        decreases i,
    {
        let ghost pre = pairs_view(table@).subrange(0, i as int);
        assert(pre.drop_last() =~= pairs_view(table@).subrange(0, i - 1));
        assert(pre.last() == (table@[i - 1].0@, table@[i - 1].1@));
        if table[i - 1].0 == *model {
            return Some(table[i - 1].1.clone());
        }
        i -= 1;
    }
    None
}

/// The name shown for output number `num` whose attached monitor has
/// hardware identifier `device_id` and driver description `device_string`.
pub fn monitor_name(
    table: &Vec<(String, String)>,
    device_id: &String,
    device_string: &String,
    num: usize,
) -> (r: String)
    ensures
        r@ == resolve_name(pairs_view(table@), Some((device_id@, device_string@)), num as nat),
{
    let model = match model_fragment_of(device_id.as_str()) {
        Some(f) => f,
        None => String::new(),
    };
    match find_friendly_name(table, &model) {
        Some(f) => f,
        None => {
            let generic = String::from_str("Generic PnP Monitor");
            if device_string.as_str().unicode_len() > 0 && !(*device_string == generic) {
                device_string.clone()
            } else {
                ordinal_name(num)
            }
        },
    }
}

} // verus!
