//! Persisted window geometry and global hotkey settings: the text forms they
//! are stored in, and the rules a hotkey configuration must satisfy.

use vstd::prelude::*;
use crate::connection::{decimal, decimal_text, signed_decimal, signed_decimal_text};

verus! {

pub open spec fn is_digit(c: char) -> bool {
    '0' <= c && c <= '9'
}

pub open spec fn all_digits(s: Seq<char>) -> bool {
    forall|i: int| 0 <= i < s.len() ==> is_digit(#[trigger] s[i])
}

/// The value of a string of decimal digits.
pub open spec fn digits_value(s: Seq<char>) -> int
    decreases s.len(),
{
    if s.len() == 0 {
        0
    } else {
        digits_value(s.drop_last()) * 10 + (s.last() as int - 48)
    }
}

/// What `str::parse::<u32>` accepts: an optional `+`, then one or more ASCII
/// digits whose value fits.
pub open spec fn parse_u32(s: Seq<char>) -> Option<u32> {
    let d = if s.len() > 0 && s[0] == '+' {
        s.drop_first()
    } else {
        s
    };
    if d.len() > 0 && all_digits(d) && digits_value(d) <= u32::MAX {
        Some(digits_value(d) as u32)
    } else {
        None
    }
}

/// What `str::parse::<i32>` accepts: an optional `+` or `-`, then one or more
/// ASCII digits whose signed value fits.
pub open spec fn parse_i32(s: Seq<char>) -> Option<i32> {
    if s.len() > 0 && s[0] == '-' {
        let d = s.drop_first();
        if d.len() > 0 && all_digits(d) && digits_value(d) <= 0x8000_0000 {
            Some((-digits_value(d)) as i32)
        } else {
            None
        }
    } else {
        let d = if s.len() > 0 && s[0] == '+' {
            s.drop_first()
        } else {
            s
        };
        if d.len() > 0 && all_digits(d) && digits_value(d) <= 0x7fff_ffff {
            Some(digits_value(d) as i32)
        } else {
            None
        }
    }
}

/// The first position in `[from, end)` that holds `sep`, or `end`.
pub open spec fn next_sep(s: Seq<char>, from: int, end: int, sep: char) -> int
    decreases end - from,
{
    if from >= end {
        end
    } else if s[from] == sep {
        from
    } else {
        next_sep(s, from + 1, end, sep)
    }
}

/// The geometry stored as `WIDTHxHEIGHT+X+Y`, read as `split` reads it: the
/// text before the first `+` split on `x` gives width and height, and the
/// next two `+`-separated fields give x and y; anything after is ignored.
pub open spec fn geometry_of(s: Seq<char>) -> Option<(u32, u32, i32, i32)> {
    let n = s.len() as int;
    let p1 = next_sep(s, 0, n, '+');
    let x1 = next_sep(s, 0, p1, 'x');
    let x2 = next_sep(s, x1 + 1, p1, 'x');
    let p2 = next_sep(s, p1 + 1, n, '+');
    let p3 = next_sep(s, p2 + 1, n, '+');
    if p1 < n && x1 < p1 && p2 < n {
        match (
            parse_u32(s.subrange(0, x1)),
            parse_u32(s.subrange(x1 + 1, x2)),
            parse_i32(s.subrange(p1 + 1, p2)),
            parse_i32(s.subrange(p2 + 1, p3)),
        ) {
            (Some(w), Some(h), Some(x), Some(y)) => Some((w, h, x, y)),
            _ => None,
        }
    } else {
        None
    }
}

/// The stored form of a window geometry: `WIDTHxHEIGHT+X+Y`, in decimal.
pub open spec fn geometry_text(width: u32, height: u32, x: i32, y: i32) -> Seq<char> {
    decimal(width as nat) + seq!['x'] + decimal(height as nat) + seq!['+'] + signed_decimal(x as int)
        + seq!['+'] + signed_decimal(y as int)
}

/// Writes a window geometry in its stored form, `WIDTHxHEIGHT+X+Y`.
pub fn format_geometry(width: u32, height: u32, x: i32, y: i32) -> (r: String)
    ensures
        r@ == geometry_text(width, height, x, y),
{
    proof {
        reveal_strlit("x");
        reveal_strlit("+");
    }
    let w = decimal_text(width as u64);
    let h = decimal_text(height as u64);
    let xs = signed_decimal_text(x as i64);
    let ys = signed_decimal_text(y as i64);
    w.concat("x").concat(h.as_str()).concat("+").concat(xs.as_str()).concat("+").concat(ys.as_str())
}

proof fn lemma_next_sep_bounds(s: Seq<char>, from: int, end: int, sep: char)
    requires
        from <= end,
    ensures
        from <= next_sep(s, from, end, sep) <= end,
    decreases end - from,
{
    if from < end && s[from] != sep {
        lemma_next_sep_bounds(s, from + 1, end, sep);
    }
}

fn find_sep(s: &str, from: usize, end: usize, sep: char) -> (r: usize)
    requires
        from <= end <= s@.len(),
    ensures
        r == next_sep(s@, from as int, end as int, sep),
        from <= r <= end,
{
    proof {
        lemma_next_sep_bounds(s@, from as int, end as int, sep);
    }
    let mut i = from;
    while i < end
        invariant
            from <= i <= end <= s@.len(),
            next_sep(s@, from as int, end as int, sep) == next_sep(s@, i as int, end as int, sep),
        decreases end - i,
    {
        if s.get_char(i) == sep {
            return i;
        }
        i = i + 1;
    }
    i
}

proof fn lemma_digits_value_grows(s: Seq<char>, i: int)
    requires
        0 <= i <= s.len(),
        all_digits(s),
    ensures
        digits_value(s.subrange(0, i)) <= digits_value(s),
        digits_value(s.subrange(0, i)) >= 0,
    decreases s.len() - i,
{
    if i < s.len() {
        lemma_digits_value_grows(s, i + 1);
        let t = s.subrange(0, i + 1);
        assert(t.drop_last() =~= s.subrange(0, i));
        assert(is_digit(t.last()));
    } else {
        assert(s.subrange(0, i) =~= s);
        lemma_digits_value_nonneg(s);
    }
}

proof fn lemma_digits_value_nonneg(s: Seq<char>)
    requires
        all_digits(s),
    ensures
        digits_value(s) >= 0,
    decreases s.len(),
{
    if s.len() > 0 {
        assert(is_digit(s.last()));
        lemma_digits_value_nonneg(s.drop_last());
    }
}

/// The value of the digits `s[a..b]` when they are all digits and the value
/// is at most `bound`.
fn parse_digits(s: &str, a: usize, b: usize, bound: u64) -> (r: Option<u64>)
    requires
        a <= b <= s@.len(),
        bound <= 0x1_0000_0000,
    ensures
        ({
            let d = s@.subrange(a as int, b as int);
            match r {
                Some(v) => all_digits(d) && v == digits_value(d) && v <= bound,
                None => !(all_digits(d) && digits_value(d) <= bound),
            }
        }),
{
    let ghost d = s@.subrange(a as int, b as int);
    let mut v: u64 = 0;
    let mut i = a;
    while i < b
        invariant
            a <= i <= b <= s@.len(),
            bound <= 0x1_0000_0000,
            d == s@.subrange(a as int, b as int),
            all_digits(s@.subrange(a as int, i as int)),
            v == digits_value(s@.subrange(a as int, i as int)),
            v <= bound,
        decreases b - i,
    {
        let c = s.get_char(i);
        proof {
            let t = s@.subrange(a as int, i + 1);
            assert(t.drop_last() =~= s@.subrange(a as int, i as int));
            assert(t.last() == c);
        }
        if !('0' <= c && c <= '9') {
            assert(!is_digit(d[i - a]));
            return None;
        }
        let next: u64 = v * 10 + (c as u64 - 48);
        if next > bound {
            proof {
                if all_digits(d) {
                    assert(d.subrange(0, i + 1 - a) =~= s@.subrange(a as int, i + 1));
                    lemma_digits_value_grows(d, i + 1 - a);
                }
            }
            return None;
        }
        v = next;
        i = i + 1;
    }
    assert(s@.subrange(a as int, b as int) =~= d);
    Some(v)
}

fn parse_u32_field(s: &str, a: usize, b: usize) -> (r: Option<u32>)
    requires
        a <= b <= s@.len(),
    ensures
        r == parse_u32(s@.subrange(a as int, b as int)),
{
    let ghost f = s@.subrange(a as int, b as int);
    let mut start = a;
    if a < b && s.get_char(a) == '+' {
        start = a + 1;
        assert(f.drop_first() =~= s@.subrange(start as int, b as int));
    } else {
        assert(f =~= s@.subrange(start as int, b as int));
    }
    if start == b {
        return None;
    }
    match parse_digits(s, start, b, 0xffff_ffff) {
        Some(v) => Some(v as u32),
        None => None,
    }
}

fn parse_i32_field(s: &str, a: usize, b: usize) -> (r: Option<i32>)
    requires
        a <= b <= s@.len(),
    ensures
        r == parse_i32(s@.subrange(a as int, b as int)),
{
    let ghost f = s@.subrange(a as int, b as int);
    if a < b && s.get_char(a) == '-' {
        assert(f.drop_first() =~= s@.subrange(a + 1, b as int));
        if a + 1 == b {
            return None;
        }
        return match parse_digits(s, a + 1, b, 0x8000_0000) {
            Some(v) => Some((0 - v as i64) as i32),
            None => None,
        };
    }
    let mut start = a;
    if a < b && s.get_char(a) == '+' {
        start = a + 1;
        assert(f.drop_first() =~= s@.subrange(start as int, b as int));
    } else {
        assert(f =~= s@.subrange(start as int, b as int));
    }
    if start == b {
        return None;
    }
    match parse_digits(s, start, b, 0x7fff_ffff) {
        Some(v) => Some(v as i32),
        None => None,
    }
}

/// Reads a window geometry stored as `WIDTHxHEIGHT+X+Y`.
pub fn parse_geometry(value: &str) -> (r: Option<(u32, u32, i32, i32)>)
    ensures
        r == geometry_of(value@),
{
    let n = value.unicode_len();
    let p1 = find_sep(value, 0, n, '+');
    let x1 = find_sep(value, 0, p1, 'x');
    if !(p1 < n && x1 < p1) {
        return None;
    }
    let x2 = find_sep(value, x1 + 1, p1, 'x');
    let p2 = find_sep(value, p1 + 1, n, '+');
    if p2 == n {
        return None;
    }
    let p3 = find_sep(value, p2 + 1, n, '+');
    let width = parse_u32_field(value, 0, x1);
    let height = parse_u32_field(value, x1 + 1, x2);
    let x = parse_i32_field(value, p1 + 1, p2);
    let y = parse_i32_field(value, p2 + 1, p3);
    match (width, height, x, y) {
        (Some(w), Some(h), Some(x), Some(y)) => Some((w, h, x, y)),
        _ => None,
    }
}

/// The global hotkeys: toggle recording, push-to-talk, and open the main
/// window. `None` means the hotkey is not bound.
#[derive(Debug, Clone, PartialEq, Eq, Default)]
pub struct HotkeyConfig {
    pub record: Option<String>,
    pub ptt: Option<String>,
    pub open_window: Option<String>,
}

/// Hotkeys used where the stored settings bind none.
pub const DEFAULT_RECORD_HOTKEY: &'static str = "Ctrl+F11";

pub const DEFAULT_PTT_HOTKEY: &'static str = "Ctrl+F12";

pub const DEFAULT_OPEN_WINDOW_HOTKEY: &'static str = "Ctrl+Alt+O";

/// `value` when it is set, else `default`.
pub open spec fn or_default(value: Option<String>, default: Seq<char>) -> Seq<char> {
    match value {
        Some(v) => v@,
        None => default,
    }
}

fn value_or(value: Option<String>, default: &str) -> (r: String)
    ensures
        r@ == or_default(value, default@),
{
    match value {
        Some(v) => v,
        None => String::from_str(default),
    }
}

/// The hotkey after an update: an update that names a value replaces the
/// binding with the normalized value (blank unbinds); one that names none
/// keeps it.
pub open spec fn updated_hotkey(current: Option<String>, update: Option<String>) -> Option<Seq<char>> {
    match update {
        None => match current {
            Some(c) => Some(c@),
            None => None,
        },
        Some(u) => if trimmed(u@).len() == 0 {
            None
        } else {
            Some(trimmed(u@))
        },
    }
}

/// The view of a hotkey binding.
pub open spec fn binding(h: Option<String>) -> Option<Seq<char>> {
    match h {
        Some(s) => Some(s@),
        None => None,
    }
}

fn update_one(current: &Option<String>, update: Option<String>) -> (r: Option<String>)
    ensures
        binding(r) == updated_hotkey(*current, update),
{
    match update {
        Some(value) => normalize_hotkey_value(Some(value)),
        None => current.clone(),
    }
}

impl HotkeyConfig {
    /// Every unbound hotkey gets its default.
    pub fn with_defaults(self) -> (r: Self)
        ensures
            binding(r.record) == Some(or_default(self.record, DEFAULT_RECORD_HOTKEY@)),
            binding(r.ptt) == Some(or_default(self.ptt, DEFAULT_PTT_HOTKEY@)),
            binding(r.open_window) == Some(or_default(self.open_window, DEFAULT_OPEN_WINDOW_HOTKEY@)),
    {
        HotkeyConfig {
            record: Some(value_or(self.record, DEFAULT_RECORD_HOTKEY)),
            ptt: Some(value_or(self.ptt, DEFAULT_PTT_HOTKEY)),
            open_window: Some(value_or(self.open_window, DEFAULT_OPEN_WINDOW_HOTKEY)),
        }
    }

    /// The configuration after an update from the settings screen.
    pub fn updated(&self, record: Option<String>, ptt: Option<String>, open_window: Option<String>) -> (r:
        Self)
        ensures
            binding(r.record) == updated_hotkey(self.record, record),
            binding(r.ptt) == updated_hotkey(self.ptt, ptt),
            binding(r.open_window) == updated_hotkey(self.open_window, open_window),
    {
        HotkeyConfig {
            record: update_one(&self.record, record),
            ptt: update_one(&self.ptt, ptt),
            open_window: update_one(&self.open_window, open_window),
        }
    }
}

/// Message when toggle and push-to-talk hotkeys coincide.
pub const RECORD_PTT_CONFLICT: &'static str =
    "Les raccourcis Toggle et Push-to-talk doivent être différents.";

/// Message when the open-window hotkey coincides with a recording hotkey.
pub const OPEN_WINDOW_CONFLICT: &'static str =
    "Le raccourci d'ouverture de fenêtre doit être distinct des raccourcis d'enregistrement.";

pub open spec fn ascii_lower(c: char) -> char {
    if 'A' <= c && c <= 'Z' {
        ((c as int) + 32) as char
    } else {
        c
    }
}

/// `a` and `b` are equal up to ASCII case.
pub open spec fn eq_ignore_ascii_case(a: Seq<char>, b: Seq<char>) -> bool {
    a.len() == b.len() && forall|i: int| 0 <= i < a.len() ==> ascii_lower(#[trigger] a[i]) == ascii_lower(b[i])
}

/// Both hotkeys are bound, to the same keys up to ASCII case.
pub open spec fn same_hotkey(a: Option<String>, b: Option<String>) -> bool {
    a is Some && b is Some && eq_ignore_ascii_case(a->0@, b->0@)
}

fn lower_ascii_char(c: char) -> (r: char)
    ensures
        r == ascii_lower(c),
{
    if 'A' <= c && c <= 'Z' {
        ((c as u8) + 32) as char
    } else {
        c
    }
}

fn strings_eq_ignore_ascii_case(a: &str, b: &str) -> (r: bool)
    ensures
        r == eq_ignore_ascii_case(a@, b@),
{
    let n = a.unicode_len();
    if n != b.unicode_len() {
        return false;
    }
    let mut i: usize = 0;
    while i < n
        invariant
            n == a@.len() == b@.len(),
            i <= n,
            forall|k: int| 0 <= k < i ==> ascii_lower(#[trigger] a@[k]) == ascii_lower(b@[k]),
        decreases n - i,
    {
        if lower_ascii_char(a.get_char(i)) != lower_ascii_char(b.get_char(i)) {
            return false;
        }
        i = i + 1;
    }
    true
}

fn same_hotkey_exec(a: &Option<String>, b: &Option<String>) -> (r: bool)
    ensures
        r == same_hotkey(*a, *b),
{
    match (a, b) {
        (Some(x), Some(y)) => strings_eq_ignore_ascii_case(x.as_str(), y.as_str()),
        _ => false,
    }
}

/// Why a hotkey configuration cannot be applied, if it cannot: toggle and
/// push-to-talk must differ, and the open-window hotkey must differ from both
/// (up to ASCII case; unbound hotkeys never clash).
pub fn hotkeys_conflict(config: &HotkeyConfig) -> (r: Option<String>)
    ensures
        same_hotkey(config.record, config.ptt) ==> (r matches Some(m) && m@ == RECORD_PTT_CONFLICT@),
        !same_hotkey(config.record, config.ptt) && (same_hotkey(config.record, config.open_window)
            || same_hotkey(config.ptt, config.open_window)) ==> (r matches Some(m) && m@
            == OPEN_WINDOW_CONFLICT@),
        !same_hotkey(config.record, config.ptt) && !same_hotkey(config.record, config.open_window)
            && !same_hotkey(config.ptt, config.open_window) ==> r is None,
{
    if same_hotkey_exec(&config.record, &config.ptt) {
        return Some(String::from_str(RECORD_PTT_CONFLICT));
    }
    if same_hotkey_exec(&config.record, &config.open_window) || same_hotkey_exec(
        &config.ptt,
        &config.open_window,
    ) {
        return Some(String::from_str(OPEN_WINDOW_CONFLICT));
    }
    None
}

/// The Unicode White_Space property, which `char::is_whitespace` and
/// `str::trim` go by.
pub open spec fn is_white_space(c: char) -> bool {
    let u = c as u32;
    (0x09 <= u && u <= 0x0d) || u == 0x20 || u == 0x85 || u == 0xa0 || u == 0x1680 || (0x2000 <= u
        && u <= 0x200a) || u == 0x2028 || u == 0x2029 || u == 0x202f || u == 0x205f || u == 0x3000
}

/// The first position from `i` on that is not white space, or the length.
pub open spec fn trim_start(s: Seq<char>, i: int) -> int
    decreases s.len() - i,
{
    if i >= s.len() {
        s.len() as int
    } else if is_white_space(s[i]) {
        trim_start(s, i + 1)
    } else {
        i
    }
}

/// One past the last position before `j` that is not white space, or 0.
pub open spec fn trim_end(s: Seq<char>, j: int) -> int
    decreases j,
{
    if j <= 0 {
        0
    } else if is_white_space(s[j - 1]) {
        trim_end(s, j - 1)
    } else {
        j
    }
}

/// `s` without leading and trailing white space, as `str::trim` gives it.
pub open spec fn trimmed(s: Seq<char>) -> Seq<char> {
    let a = trim_start(s, 0);
    let b = trim_end(s, s.len() as int);
    if a < b {
        s.subrange(a, b)
    } else {
        Seq::empty()
    }
}

proof fn lemma_trim_start_bounds(s: Seq<char>, i: int)
    requires
        0 <= i <= s.len(),
    ensures
        i <= trim_start(s, i) <= s.len(),
    decreases s.len() - i,
{
    if i < s.len() && is_white_space(s[i]) {
        lemma_trim_start_bounds(s, i + 1);
    }
}

proof fn lemma_trim_end_bounds(s: Seq<char>, j: int)
    requires
        0 <= j <= s.len(),
    ensures
        0 <= trim_end(s, j) <= j,
    decreases j,
{
    if j > 0 && is_white_space(s[j - 1]) {
        lemma_trim_end_bounds(s, j - 1);
    }
}

fn is_white_space_exec(c: char) -> (r: bool)
    ensures
        r == is_white_space(c),
{
    let u = c as u32;
    (0x09 <= u && u <= 0x0d) || u == 0x20 || u == 0x85 || u == 0xa0 || u == 0x1680 || (0x2000 <= u
        && u <= 0x200a) || u == 0x2028 || u == 0x2029 || u == 0x202f || u == 0x205f || u == 0x3000
}

fn trim_text(s: &str) -> (r: String)
    ensures
        r@ == trimmed(s@),
{
    let n = s.unicode_len();
    let mut a: usize = 0;
    while a < n
        invariant
            n == s@.len(),
            a <= n,
            trim_start(s@, 0) == trim_start(s@, a as int),
        ensures
            a == n || !is_white_space(s@[a as int]),
        decreases n - a,
    {
        if !is_white_space_exec(s.get_char(a)) {
            break;
        }
        a = a + 1;
    }
    let mut b: usize = n;
    while b > 0
        invariant
            n == s@.len(),
            b <= n,
            trim_end(s@, n as int) == trim_end(s@, b as int),
        ensures
            b == 0 || !is_white_space(s@[b - 1]),
        decreases b,
    {
        if !is_white_space_exec(s.get_char(b - 1)) {
            break;
        }
        b = b - 1;
    }
    proof {
        lemma_trim_start_bounds(s@, a as int);
        lemma_trim_end_bounds(s@, b as int);
    }
    if a < b {
        String::from_str(s.substring_char(a, b))
    } else {
        String::new()
    }
}

/// A hotkey as stored: surrounding white space removed, and blank means
/// unbound.
pub fn normalize_hotkey_value(value: Option<String>) -> (r: Option<String>)
    ensures
        match value {
            None => r is None,
            Some(raw) => if trimmed(raw@).len() == 0 {
                r is None
            } else {
                (r matches Some(t) && t@ == trimmed(raw@))
            },
        },
{
    match value {
        None => None,
        Some(raw) => {
            let t = trim_text(raw.as_str());
            if t.as_str().is_empty() {
                None
            } else {
                Some(t)
            }
        },
    }
}

} // verus!
