//! Text printed by the `ddcutil` helper, the alternate transport: the
//! display list of `detect --terse` and the value line of `getvcp`.

use vstd::prelude::*;
use crate::text::{all_digits, decimal_u8, parse_decimal_u8, find_byte, digits_value, find_byte_from, find_from, find_pattern, is_digit, is_space, is_space_byte, line_end, lossy_text, text_of, trim_bounds, trim_spaces};

verus! {

/// A display as the helper lists it.
#[derive(Debug, Clone)]
pub struct DisplayInfo {
    /// The helper's display number, from 1.
    pub index: u8,
    pub model: Option<String>,
    pub mfg: Option<String>,
}

/// Number of leading bytes of `s` from `i` on that satisfy whitespace.
pub open spec fn spaces_from(s: Seq<u8>, i: nat) -> nat
    decreases s.len() - i,
{
    if i < s.len() && is_space(s[i as int]) {
        1 + spaces_from(s, i + 1)
    } else {
        0
    }
}

/// Number of leading bytes of `s` from `i` on that are not whitespace.
pub open spec fn nonspaces_from(s: Seq<u8>, i: nat) -> nat
    decreases s.len() - i,
{
    if i < s.len() && !is_space(s[i as int]) {
        1 + nonspaces_from(s, i + 1)
    } else {
        0
    }
}

/// Number of decimal digits of `s` from `i` on.
pub open spec fn digits_from(s: Seq<u8>, i: nat) -> nat
    decreases s.len() - i,
{
    if i < s.len() && is_digit(s[i as int]) {
        1 + digits_from(s, i + 1)
    } else {
        0
    }
}

/// A decimal number, or 0 when it does not fit a byte.
pub open spec fn byte_or_zero(d: Seq<u8>) -> u8 {
    if digits_value(d) <= 255 { digits_value(d) as u8 } else { 0 }
}

/// `Display`
pub open spec fn display_word() -> Seq<u8> {
    seq!['D' as u8, 'i' as u8, 's' as u8, 'p' as u8, 'l' as u8, 'a' as u8, 'y' as u8]
}

/// The display number of a `Display <n>` header line.
pub open spec fn header_index(line: Seq<u8>) -> Option<u8> {
    let sp = spaces_from(line, 7);
    let nd = digits_from(line, 7 + sp);
    if line.len() >= 7 && line.subrange(0, 7) == display_word() && sp > 0 && nd > 0 {
        Some(byte_or_zero(line.subrange((7 + sp) as int, (7 + sp + nd) as int)))
    } else {
        None
    }
}

/// `Mfg:`
pub open spec fn mfg_word() -> Seq<u8> {
    seq!['M' as u8, 'f' as u8, 'g' as u8, ':' as u8]
}

/// `Model:`
pub open spec fn model_word() -> Seq<u8> {
    seq!['M' as u8, 'o' as u8, 'd' as u8, 'e' as u8, 'l' as u8, ':' as u8]
}

/// Vendor and model when a `Mfg:` at `j` is followed by `<vendor> Model: <model>`:
/// the vendor is the run of non-whitespace after the spaces, and at least
/// one byte follows `Model:`.
pub open spec fn mfg_model_at(line: Seq<u8>, j: nat) -> Option<(Seq<u8>, Seq<u8>)> {
    let a = j + 4 + spaces_from(line, j + 4);
    let t = nonspaces_from(line, a);
    let b = a + t;
    let g = spaces_from(line, b);
    let m = b + g;
    if t > 0 && g > 0 && m + 6 < line.len() && line.subrange(m as int, (m + 6) as int) == model_word() {
        Some((line.subrange(a as int, b as int), trim_spaces(line.subrange((m + 6) as int, line.len() as int))))
    } else {
        None
    }
}

/// Vendor and model of the first `Mfg:` from `i` on that is followed by
/// `<vendor> Model: <model>`; a `Mfg:` that is not is passed over.
pub open spec fn mfg_model_from(line: Seq<u8>, i: nat) -> Option<(Seq<u8>, Seq<u8>)>
    decreases line.len() + 1 - i,
{
    match find_from(line, mfg_word(), i) {
        Some(j) => if j >= i && j + 4 <= line.len() {
            match mfg_model_at(line, j) {
                Some(r) => Some(r),
                None => mfg_model_from(line, j + 1),
            }
        } else {
            None
        },
        None => None,
    }
}

/// Vendor and model of a line holding `Mfg: <vendor> Model: <model>`.
pub open spec fn mfg_model(line: Seq<u8>) -> Option<(Seq<u8>, Seq<u8>)> {
    mfg_model_from(line, 0)
}

/// The listing after one more line, with `cur` the display being read.
pub open spec fn detect_line(found: Seq<DisplayView>, cur: Option<DisplayView>, line: Seq<u8>) -> (Seq<DisplayView>, Option<DisplayView>) {
    match header_index(line) {
        Some(n) => (
            match cur {
                Some(d) => found.push(d),
                None => found,
            },
            Some(DisplayView { index: n, model: None, mfg: None }),
        ),
        None => match (mfg_model(line), cur) {
            (Some((v, m)), Some(d)) => (found, Some(DisplayView { index: d.index, model: Some(lossy_text(m)), mfg: Some(lossy_text(v)) })),
            _ => (found, cur),
        },
    }
}

/// Content of a `DisplayInfo`.
pub struct DisplayView {
    pub index: u8,
    pub model: Option<Seq<char>>,
    pub mfg: Option<Seq<char>>,
}

impl View for DisplayInfo {
    type V = DisplayView;

    open spec fn view(&self) -> DisplayView {
        DisplayView { index: self.index, model: crate::text::opt_text(self.model), mfg: crate::text::opt_text(self.mfg) }
    }
}

/// Displays listed in `s`, reading from the line that starts at `i`.
pub open spec fn detect_from(s: Seq<u8>, i: nat, found: Seq<DisplayView>, cur: Option<DisplayView>) -> Seq<DisplayView>
    decreases s.len() - i,
{
    let close = |f: Seq<DisplayView>, c: Option<DisplayView>| match c {
        Some(d) => f.push(d),
        None => f,
    };
    if i >= s.len() {
        close(found, cur)
    } else {
        let e = line_end(s, i);
        let (f2, c2) = detect_line(found, cur, s.subrange(i as int, if e < i || e >= s.len() { s.len() as int } else { e as int }));
        if e < i || e >= s.len() {
            close(f2, c2)
        } else {
            detect_from(s, e + 1, f2, c2)
        }
    }
}

/// Displays of a `detect --terse` listing.
pub open spec fn detect_displays(s: Seq<u8>) -> Seq<DisplayView> {
    detect_from(s, 0, Seq::empty(), None)
}


fn count_spaces(s: &[u8], i: usize) -> (r: usize)
    requires
        i <= s@.len(),
    ensures
        r as nat == spaces_from(s@, i as nat),
        i + r <= s@.len(),
{
    let mut k: usize = i;
    while k < s.len() && is_space_byte(s[k])
        invariant
            i <= k <= s@.len(),
            spaces_from(s@, i as nat) == (k - i) + spaces_from(s@, k as nat),
        decreases s@.len() - k,
    {
        k = k + 1;
    }
    k - i
}

fn count_nonspaces(s: &[u8], i: usize) -> (r: usize)
    requires
        i <= s@.len(),
    ensures
        r as nat == nonspaces_from(s@, i as nat),
        i + r <= s@.len(),
{
    let mut k: usize = i;
    while k < s.len() && !is_space_byte(s[k])
        invariant
            i <= k <= s@.len(),
            nonspaces_from(s@, i as nat) == (k - i) + nonspaces_from(s@, k as nat),
        decreases s@.len() - k,
    {
        k = k + 1;
    }
    k - i
}

fn count_digits(s: &[u8], i: usize) -> (r: usize)
    requires
        i <= s@.len(),
    ensures
        r as nat == digits_from(s@, i as nat),
        i + r <= s@.len(),
        forall|j: int| i <= j < i + r ==> is_digit(#[trigger] s@[j]),
{
    let mut k: usize = i;
    while k < s.len() && 0x30 <= s[k] && s[k] <= 0x39
        invariant
            i <= k <= s@.len(),
            digits_from(s@, i as nat) == (k - i) + digits_from(s@, k as nat),
            forall|j: int| i <= j < k ==> is_digit(#[trigger] s@[j]),
        decreases s@.len() - k,
    {
        k = k + 1;
    }
    k - i
}

/// A run of digits as a byte, or 0 when it does not fit.
fn digits_byte(d: &[u8]) -> (r: u8)
    requires
        d@.len() > 0,
        all_digits(d@),
    ensures
        r == byte_or_zero(d@),
{
    assert(crate::text::unsigned_part(d@) == d@);
    match crate::text::parse_decimal_u8(d) {
        Some(n) => n,
        None => 0,
    }
}

/// The display number of a `Display <n>` header line.
pub fn parse_header_index(line: &[u8]) -> (r: Option<u8>)
    ensures
        r == header_index(line@),
{
    let w: [u8; 7] = ['D' as u8, 'i' as u8, 's' as u8, 'p' as u8, 'l' as u8, 'a' as u8, 'y' as u8];
    assert(w@ =~= display_word());
    if line.len() < 7 || !crate::text::same_bytes(&line[0..7], &w) {
        return None;
    }
    let sp = count_spaces(line, 7);
    let nd = count_digits(line, 7 + sp);
    if sp == 0 || nd == 0 {
        return None;
    }
    let d = &line[7 + sp..7 + sp + nd];
    assert forall|j: int| 0 <= j < d@.len() implies is_digit(#[trigger] d@[j]) by {
        assert(d@[j] == line@[7 + sp + j]);
    }
    Some(digits_byte(d))
}

/// Vendor and model of a `Mfg: <vendor> Model: <model>` line.
pub fn parse_mfg_model(line: &[u8]) -> (r: Option<(Vec<u8>, Vec<u8>)>)
    ensures
        match r {
            Some((v, m)) => mfg_model(line@) == Some((v@, m@)),
            None => mfg_model(line@) is None,
        },
{
    let mw: [u8; 4] = ['M' as u8, 'f' as u8, 'g' as u8, ':' as u8];
    let dw: [u8; 6] = ['M' as u8, 'o' as u8, 'd' as u8, 'e' as u8, 'l' as u8, ':' as u8];
    assert(mw@ =~= mfg_word());
    assert(dw@ =~= model_word());
    let len: usize = line.len();
    let mut i: usize = 0;
    while i <= len
        invariant
            len == line@.len(),
            i <= len + 1,
            mw@ == mfg_word(),
            dw@ == model_word(),
            mfg_model(line@) == mfg_model_from(line@, i as nat),
        decreases len + 1 - i,
    {
        let j = match find_pattern(line, &mw, i) {
            Some(j) => j,
            None => {
                return None;
            },
        };
        assert(j + 4 <= len);
        let a = j + 4 + count_spaces(line, j + 4);
        let t = count_nonspaces(line, a);
        let b = a + t;
        let g = count_spaces(line, b);
        let m = b + g;
        if t > 0 && g > 0 && m < len && len - m > 6 && crate::text::same_bytes(&line[m..m + 6], &dw) {
            let rest = &line[m + 6..len];
            let (lo, hi) = trim_bounds(rest);
            assert(mfg_model_at(line@, j as nat) is Some);
            return Some((vstd::slice::slice_to_vec(&line[a..b]), vstd::slice::slice_to_vec(&rest[lo..hi])));
        }
        assert(mfg_model_at(line@, j as nat) is None);
        i = j + 1;
    }
    None
}

fn close_listing(found: &mut Vec<DisplayInfo>, cur: Option<DisplayInfo>, Ghost(prior): Ghost<Seq<DisplayView>>)
    requires
        views_match(old(found)@, prior),
    ensures
        views_match(final(found)@, match view_of(cur) {
            Some(d) => prior.push(d),
            None => prior,
        }),
{
    match cur {
        Some(d) => {
            let ghost before = found@;
            found.push(d);
            assert forall|i: int| 0 <= i < before.len() implies #[trigger] found@[i] == before[i] by {}
        },
        None => {},
    }
}

/// Each entry of `r` has the content of the same entry of `spec`.
pub open spec fn views_match(r: Seq<DisplayInfo>, spec: Seq<DisplayView>) -> bool {
    r.len() == spec.len() && forall|i: int| 0 <= i < r.len() ==> #[trigger] r[i]@ == spec[i]
}

pub open spec fn view_of(o: Option<DisplayInfo>) -> Option<DisplayView> {
    match o {
        Some(d) => Some(d@),
        None => None,
    }
}

/// Displays of a `detect --terse` listing: each `Display <n>` line opens a
/// display, and a following `Mfg: <vendor> Model: <model>` line names it.
pub fn parse_detect_output(text: &[u8]) -> (r: Vec<DisplayInfo>)
    ensures
        views_match(r@, detect_displays(text@)),
{
    let mut found: Vec<DisplayInfo> = Vec::new();
    let mut cur: Option<DisplayInfo> = None;
    let ghost mut gf: Seq<DisplayView> = Seq::empty();
    let mut i: usize = 0;
    while i < text.len()
        invariant
            i <= text@.len(),
            views_match(found@, gf),
            detect_displays(text@) == detect_from(text@, i as nat, gf, view_of(cur)),
        decreases text@.len() - i,
    {
        let e: usize = match find_byte_from(text, '\n' as u8, i) {
            Some(e) => e,
            None => text.len(),
        };
        let line = &text[i..e];
        let ghost step = detect_line(gf, view_of(cur), line@);
        match parse_header_index(line) {
            Some(n) => {
                close_listing(&mut found, cur, Ghost(gf));
                cur = Some(DisplayInfo { index: n, model: None, mfg: None });
            },
            None => {
                match parse_mfg_model(line) {
                    Some((v, m)) => {
                        match cur {
                            Some(d) => {
                                cur = Some(DisplayInfo { index: d.index, model: Some(text_of(m.as_slice())), mfg: Some(text_of(v.as_slice())) });
                            },
                            None => {},
                        }
                    },
                    None => {},
                }
            },
        }
        proof {
            gf = step.0;
        }
        assert(view_of(cur) == step.1);
        if e >= text.len() {
            i = text.len();
        } else {
            i = e + 1;
        }
    }
    close_listing(&mut found, cur, Ghost(gf));
    found
}

/// `current value = `
pub open spec fn value_word() -> Seq<u8> {
    seq![
        'c' as u8, 'u' as u8, 'r' as u8, 'r' as u8, 'e' as u8, 'n' as u8, 't' as u8, ' ' as u8,
        'v' as u8, 'a' as u8, 'l' as u8, 'u' as u8, 'e' as u8, ' ' as u8, '=' as u8, ' ' as u8,
    ]
}

/// The number after the first `current value = ` that is followed by a
/// digit, searching from `i`; 0 when it does not fit a byte.
pub open spec fn current_value_from(s: Seq<u8>, i: nat) -> Option<u8>
    decreases s.len() + 1 - i,
{
    match find_from(s, value_word(), i) {
        Some(j) => if j >= i && j + 16 <= s.len() && digits_from(s, j + 16) > 0 {
            Some(byte_or_zero(s.subrange((j + 16) as int, (j + 16 + digits_from(s, j + 16)) as int)))
        } else if j >= i && j + 16 <= s.len() {
            current_value_from(s, j + 1)
        } else {
            None
        },
        None => None,
    }
}

/// The value a `getvcp` reply reports in `current value = <n>`.
pub fn parse_current_value(text: &[u8]) -> (r: Option<u8>)
    ensures
        r == current_value_from(text@, 0),
{
    let w: [u8; 16] = [
        'c' as u8, 'u' as u8, 'r' as u8, 'r' as u8, 'e' as u8, 'n' as u8, 't' as u8, ' ' as u8,
        'v' as u8, 'a' as u8, 'l' as u8, 'u' as u8, 'e' as u8, ' ' as u8, '=' as u8, ' ' as u8,
    ];
    assert(w@ =~= value_word());
    let mut i: usize = 0;
    while i <= text.len()
        invariant
            i <= text@.len() + 1,
            w@ == value_word(),
            current_value_from(text@, 0) == current_value_from(text@, i as nat),
        decreases text@.len() + 1 - i,
    {
        match find_pattern(text, &w, i) {
            Some(j) => {
                let len: usize = text.len();
                assert(j + 16 <= len);
                let nd = count_digits(text, j + 16);
                if nd > 0 {
                    let d = &text[j + 16..j + 16 + nd];
                    assert forall|k: int| 0 <= k < d@.len() implies is_digit(#[trigger] d@[k]) by {
                        assert(d@[k] == text@[j + 16 + k]);
                    }
                    return Some(digits_byte(d));
                }
                i = j + 1;
            },
            None => {
                return None;
            },
        }
    }
    None
}


/// A display as the helper lists it, with whether it answers DDC/CI.
#[derive(Debug, Clone)]
pub struct DetectedDisplay {
    /// The helper's display number; invalid displays are numbered from 201.
    pub index: u8,
    pub mfg: Option<String>,
    pub model: Option<String>,
    pub supports_ddc: bool,
}

/// Content of a `DetectedDisplay`.
pub struct DetectedView {
    pub index: u8,
    pub mfg: Option<Seq<char>>,
    pub model: Option<Seq<char>>,
    pub supports_ddc: bool,
}

impl View for DetectedDisplay {
    type V = DetectedView;

    open spec fn view(&self) -> DetectedView {
        DetectedView {
            index: self.index,
            mfg: crate::text::opt_text(self.mfg),
            model: crate::text::opt_text(self.model),
            supports_ddc: self.supports_ddc,
        }
    }
}

/// `Invalid display`
pub open spec fn invalid_word() -> Seq<u8> {
    seq!['I' as u8, 'n' as u8, 'v' as u8, 'a' as u8, 'l' as u8, 'i' as u8, 'd' as u8, ' ' as u8, 'd' as u8, 'i' as u8, 's' as u8, 'p' as u8, 'l' as u8, 'a' as u8, 'y' as u8]
}

/// `Monitor:`
pub open spec fn monitor_word() -> Seq<u8> {
    seq!['M' as u8, 'o' as u8, 'n' as u8, 'i' as u8, 't' as u8, 'o' as u8, 'r' as u8, ':' as u8]
}

/// A line that starts with `Invalid display`.
pub open spec fn is_invalid_line(line: Seq<u8>) -> bool {
    line.len() >= 15 && line.subrange(0, 15) == invalid_word()
}

/// Vendor and model of a `Monitor: <vendor>:<model>:` line.
pub open spec fn monitor_fields(line: Seq<u8>) -> Option<(Seq<u8>, Seq<u8>)> {
    let a = spaces_from(line, 0);
    let b = a + 8;
    if b <= line.len() && line.subrange(a as int, b as int) == monitor_word() {
        match find_byte(line, ':' as u8, b) {
            Some(c1) => match find_byte(line, ':' as u8, c1 + 1) {
                Some(c2) => if c1 > b && c2 > c1 + 1 {
                    Some((trim_spaces(line.subrange(b as int, c1 as int)), trim_spaces(line.subrange((c1 + 1) as int, c2 as int))))
                } else {
                    None
                },
                None => None,
            },
            None => None,
        }
    } else {
        None
    }
}

/// State of a walk over a listing: displays found, the display being read,
/// and the number of invalid displays so far.
pub struct ListingScan {
    pub found: Seq<DetectedView>,
    pub cur: Option<DetectedView>,
    pub invalid: u8,
}

pub open spec fn close_detected(st: ListingScan) -> Seq<DetectedView> {
    match st.cur {
        Some(d) => st.found.push(d),
        None => st.found,
    }
}

/// The walk after one more line.
pub open spec fn monitors_line(st: ListingScan, line: Seq<u8>) -> ListingScan {
    match header_index(line) {
        Some(n) => ListingScan {
            found: close_detected(st),
            cur: Some(DetectedView { index: n, mfg: None, model: None, supports_ddc: true }),
            invalid: st.invalid,
        },
        None => if is_invalid_line(line) {
            let k = ((st.invalid + 1) % 256) as u8;
            ListingScan {
                found: close_detected(st),
                cur: Some(DetectedView { index: ((200 + k) % 256) as u8, mfg: None, model: None, supports_ddc: false }),
                invalid: k,
            }
        } else {
            match (monitor_fields(line), st.cur) {
                (Some((v, m)), Some(d)) => ListingScan {
                    found: st.found,
                    cur: Some(DetectedView { mfg: Some(lossy_text(v)), model: Some(lossy_text(m)), ..d }),
                    invalid: st.invalid,
                },
                _ => st,
            }
        },
    }
}

/// Displays of the listing `s`, reading from the line that starts at `i`.
pub open spec fn monitors_from(s: Seq<u8>, i: nat, st: ListingScan) -> Seq<DetectedView>
    decreases s.len() - i,
{
    if i >= s.len() {
        close_detected(st)
    } else {
        let e = line_end(s, i);
        if e < i || e >= s.len() {
            close_detected(monitors_line(st, s.subrange(i as int, s.len() as int)))
        } else {
            monitors_from(s, e + 1, monitors_line(st, s.subrange(i as int, e as int)))
        }
    }
}

/// Vendor and model of a `Monitor: <vendor>:<model>:` line.
pub fn parse_monitor_fields(line: &[u8]) -> (r: Option<(Vec<u8>, Vec<u8>)>)
    ensures
        match r {
            Some((v, m)) => monitor_fields(line@) == Some((v@, m@)),
            None => monitor_fields(line@) is None,
        },
{
    let w: [u8; 8] = ['M' as u8, 'o' as u8, 'n' as u8, 'i' as u8, 't' as u8, 'o' as u8, 'r' as u8, ':' as u8];
    assert(w@ =~= monitor_word());
    let a = count_spaces(line, 0);
    if line.len() - a < 8 || !crate::text::same_bytes(&line[a..a + 8], &w) {
        return None;
    }
    let b = a + 8;
    let c1 = match find_byte_from(line, ':' as u8, b) {
        Some(c) => c,
        None => {
            return None;
        },
    };
    let c2 = match find_byte_from(line, ':' as u8, c1 + 1) {
        Some(c) => c,
        None => {
            return None;
        },
    };
    if c1 <= b || c2 <= c1 + 1 {
        return None;
    }
    let first = &line[b..c1];
    let second = &line[c1 + 1..c2];
    let (lo1, hi1) = trim_bounds(first);
    let (lo2, hi2) = trim_bounds(second);
    Some((vstd::slice::slice_to_vec(&first[lo1..hi1]), vstd::slice::slice_to_vec(&second[lo2..hi2])))
}

pub open spec fn detected_match(r: Seq<DetectedDisplay>, spec: Seq<DetectedView>) -> bool {
    r.len() == spec.len() && forall|i: int| 0 <= i < r.len() ==> #[trigger] r[i]@ == spec[i]
}

pub open spec fn detected_view_of(o: Option<DetectedDisplay>) -> Option<DetectedView> {
    match o {
        Some(d) => Some(d@),
        None => None,
    }
}

fn close_monitor(found: &mut Vec<DetectedDisplay>, cur: Option<DetectedDisplay>, Ghost(st): Ghost<ListingScan>)
    requires
        detected_match(old(found)@, st.found),
        detected_view_of(cur) == st.cur,
    ensures
        detected_match(final(found)@, close_detected(st)),
{
    match cur {
        Some(d) => {
            let ghost before = found@;
            found.push(d);
            assert forall|i: int| 0 <= i < before.len() implies #[trigger] found@[i] == before[i] by {}
        },
        None => {},
    }
}

/// Displays of a `detect --terse` listing read the way the panel reads it:
/// `Display <n>` opens a display that answers DDC/CI, `Invalid display`
/// opens one that does not, and `Monitor: <vendor>:<model>:` names the
/// display being read.
pub fn parse_detect_monitors(text: &[u8]) -> (r: Vec<DetectedDisplay>)
    ensures
        detected_match(r@, monitors_from(text@, 0, ListingScan { found: Seq::empty(), cur: None, invalid: 0 })),
{
    let iw: [u8; 15] = ['I' as u8, 'n' as u8, 'v' as u8, 'a' as u8, 'l' as u8, 'i' as u8, 'd' as u8, ' ' as u8, 'd' as u8, 'i' as u8, 's' as u8, 'p' as u8, 'l' as u8, 'a' as u8, 'y' as u8];
    assert(iw@ =~= invalid_word());
    let mut found: Vec<DetectedDisplay> = Vec::new();
    let mut cur: Option<DetectedDisplay> = None;
    let mut invalid: u8 = 0;
    let ghost mut st = ListingScan { found: Seq::empty(), cur: None, invalid: 0 };
    let mut i: usize = 0;
    while i < text.len()
        invariant
            i <= text@.len(),
            iw@ == invalid_word(),
            detected_match(found@, st.found),
            detected_view_of(cur) == st.cur,
            invalid == st.invalid,
            monitors_from(text@, 0, ListingScan { found: Seq::empty(), cur: None, invalid: 0 })
                == monitors_from(text@, i as nat, st),
        decreases text@.len() - i,
    {
        let e: usize = match find_byte_from(text, '\n' as u8, i) {
            Some(e) => e,
            None => text.len(),
        };
        let line = &text[i..e];
        let ghost next = monitors_line(st, line@);
        match parse_header_index(line) {
            Some(n) => {
                close_monitor(&mut found, cur, Ghost(st));
                cur = Some(DetectedDisplay { index: n, mfg: None, model: None, supports_ddc: true });
            },
            None => {
                if line.len() >= 15 && crate::text::same_bytes(&line[0..15], &iw) {
                    close_monitor(&mut found, cur, Ghost(st));
                    invalid = invalid.wrapping_add(1);
                    cur = Some(DetectedDisplay { index: 200u8.wrapping_add(invalid), mfg: None, model: None, supports_ddc: false });
                } else {
                    match parse_monitor_fields(line) {
                        Some((v, m)) => {
                            match cur {
                                Some(d) => {
                                    cur = Some(DetectedDisplay { index: d.index, mfg: Some(text_of(v.as_slice())), model: Some(text_of(m.as_slice())), supports_ddc: d.supports_ddc });
                                },
                                None => {},
                            }
                        },
                        None => {},
                    }
                }
            },
        }
        proof {
            st = next;
        }
        if e >= text.len() {
            i = text.len();
        } else {
            i = e + 1;
        }
    }
    close_monitor(&mut found, cur, Ghost(st));
    found
}

/// `current value =`
pub open spec fn spaced_value_word() -> Seq<u8> {
    seq!['c' as u8, 'u' as u8, 'r' as u8, 'r' as u8, 'e' as u8, 'n' as u8, 't' as u8, ' ' as u8, 'v' as u8, 'a' as u8, 'l' as u8, 'u' as u8, 'e' as u8, ' ' as u8, '=' as u8]
}

/// The number after the first `current value =` that is followed by
/// whitespace and a digit, searching from `i`; 0 when it does not fit a byte.
pub open spec fn spaced_value_from(s: Seq<u8>, i: nat) -> Option<u8>
    decreases s.len() + 1 - i,
{
    match find_from(s, spaced_value_word(), i) {
        Some(j) => if j >= i && j + 15 <= s.len() {
            let sp = spaces_from(s, j + 15);
            let nd = digits_from(s, j + 15 + sp);
            if sp > 0 && nd > 0 {
                Some(byte_or_zero(s.subrange((j + 15 + sp) as int, (j + 15 + sp + nd) as int)))
            } else {
                spaced_value_from(s, j + 1)
            }
        } else {
            None
        },
        None => None,
    }
}

/// The value a `getvcp` reply reports in `current value =  <n>`, with any
/// run of whitespace before the number.
pub fn parse_spaced_current_value(text: &[u8]) -> (r: Option<u8>)
    ensures
        r == spaced_value_from(text@, 0),
{
    let w: [u8; 15] = ['c' as u8, 'u' as u8, 'r' as u8, 'r' as u8, 'e' as u8, 'n' as u8, 't' as u8, ' ' as u8, 'v' as u8, 'a' as u8, 'l' as u8, 'u' as u8, 'e' as u8, ' ' as u8, '=' as u8];
    assert(w@ =~= spaced_value_word());
    let mut i: usize = 0;
    while i <= text.len()
        invariant
            i <= text@.len() + 1,
            w@ == spaced_value_word(),
            spaced_value_from(text@, 0) == spaced_value_from(text@, i as nat),
        decreases text@.len() + 1 - i,
    {
        match find_pattern(text, &w, i) {
            Some(j) => {
                let len: usize = text.len();
                assert(j + 15 <= len);
                let sp = count_spaces(text, j + 15);
                let nd = count_digits(text, j + 15 + sp);
                if sp > 0 && nd > 0 {
                    let d = &text[j + 15 + sp..j + 15 + sp + nd];
                    assert forall|k: int| 0 <= k < d@.len() implies is_digit(#[trigger] d@[k]) by {
                        assert(d@[k] == text@[j + 15 + sp + k]);
                    }
                    return Some(digits_byte(d));
                }
                i = j + 1;
            },
            None => {
                return None;
            },
        }
    }
    None
}


/// `current value`
pub open spec fn value_marker() -> Seq<u8> {
    seq!['c' as u8, 'u' as u8, 'r' as u8, 'r' as u8, 'e' as u8, 'n' as u8, 't' as u8, ' ' as u8, 'v' as u8, 'a' as u8, 'l' as u8, 'u' as u8, 'e' as u8]
}

/// Index of the first `c` in `s` from `i` on, or the length.
pub open spec fn byte_or_end(s: Seq<u8>, c: u8, i: nat) -> nat {
    match find_byte(s, c, i) {
        Some(e) => e,
        None => s.len(),
    }
}

/// The text value of a `getvcp` line that mentions its current value: the
/// text after the first `:`, up to the next `:` and before any `(`.
pub open spec fn line_text_value(line: Seq<u8>) -> Option<Seq<u8>> {
    if find_from(line, value_marker(), 0) is Some {
        match find_byte(line, ':' as u8, 0) {
            Some(c1) => {
                let seg = line.subrange((c1 + 1) as int, byte_or_end(line, ':' as u8, c1 + 1) as int);
                Some(trim_spaces(seg.subrange(0, byte_or_end(seg, '(' as u8, 0) as int)))
            },
            None => None,
        }
    } else {
        None
    }
}

/// The numeric value of a `getvcp` line: the number after the first
/// `current value =`, up to a `,` or a further `current value =`.
pub open spec fn line_number_value(line: Seq<u8>) -> Option<u8> {
    match find_from(line, spaced_value_word(), 0) {
        Some(j) => {
            let st = j + 15;
            let e1 = byte_or_end(line, ',' as u8, st);
            let e2 = match find_from(line, spaced_value_word(), st) {
                Some(k) => k,
                None => line.len(),
            };
            let e = if e1 < e2 { e1 } else { e2 };
            if st <= e && e <= line.len() {
                decimal_u8(trim_spaces(line.subrange(st as int, e as int)))
            } else {
                None
            }
        },
        None => None,
    }
}

/// The last value `f` finds in the lines of `s` from the one at `i` on, or
/// `acc` when none has one.
pub open spec fn last_text_value(s: Seq<u8>, i: nat, acc: Option<Seq<u8>>) -> Option<Seq<u8>>
    decreases s.len() - i,
{
    if i >= s.len() {
        acc
    } else {
        let e = line_end(s, i);
        let last = e < i || e >= s.len();
        let l = s.subrange(i as int, if last { s.len() as int } else { e as int });
        let acc2 = match line_text_value(l) {
            Some(v) => Some(v),
            None => acc,
        };
        if last {
            acc2
        } else {
            last_text_value(s, e + 1, acc2)
        }
    }
}

/// The last numeric value in the lines of `s` from the one at `i` on, or
/// `acc` when none has one.
pub open spec fn last_number_value(s: Seq<u8>, i: nat, acc: Option<u8>) -> Option<u8>
    decreases s.len() - i,
{
    if i >= s.len() {
        acc
    } else {
        let e = line_end(s, i);
        let last = e < i || e >= s.len();
        let l = s.subrange(i as int, if last { s.len() as int } else { e as int });
        let acc2 = match line_number_value(l) {
            Some(v) => Some(v),
            None => acc,
        };
        if last {
            acc2
        } else {
            last_number_value(s, e + 1, acc2)
        }
    }
}

fn byte_or_end_index(s: &[u8], c: u8, i: usize) -> (r: usize)
    ensures
        r as nat == byte_or_end(s@, c, i as nat),
        r <= s@.len(),
        i <= s@.len() ==> i <= r,
{
    match find_byte_from(s, c, i) {
        Some(e) => e,
        None => s.len(),
    }
}

/// The text value of one `getvcp` line, if it mentions a current value.
pub fn parse_line_text_value(line: &[u8]) -> (r: Option<Vec<u8>>)
    ensures
        crate::text::opt_bytes(r) == line_text_value(line@),
{
    let m: [u8; 13] = ['c' as u8, 'u' as u8, 'r' as u8, 'r' as u8, 'e' as u8, 'n' as u8, 't' as u8, ' ' as u8, 'v' as u8, 'a' as u8, 'l' as u8, 'u' as u8, 'e' as u8];
    assert(m@ =~= value_marker());
    if find_pattern(line, &m, 0).is_none() {
        return None;
    }
    let c1 = match find_byte_from(line, ':' as u8, 0) {
        Some(c) => c,
        None => {
            return None;
        },
    };
    let len: usize = line.len();
    assert(c1 < len);
    let e = byte_or_end_index(line, ':' as u8, c1 + 1);
    let seg = &line[c1 + 1..e];
    let p = byte_or_end_index(seg, '(' as u8, 0);
    let (lo, hi) = trim_bounds(&seg[0..p]);
    Some(vstd::slice::slice_to_vec(&seg[0..p][lo..hi]))
}

/// The numeric value of one `getvcp` line, if it has one that fits a byte.
pub fn parse_line_number_value(line: &[u8]) -> (r: Option<u8>)
    ensures
        r == line_number_value(line@),
{
    let w: [u8; 15] = ['c' as u8, 'u' as u8, 'r' as u8, 'r' as u8, 'e' as u8, 'n' as u8, 't' as u8, ' ' as u8, 'v' as u8, 'a' as u8, 'l' as u8, 'u' as u8, 'e' as u8, ' ' as u8, '=' as u8];
    assert(w@ =~= spaced_value_word());
    let j = match find_pattern(line, &w, 0) {
        Some(j) => j,
        None => {
            return None;
        },
    };
    let len: usize = line.len();
    assert(j + 15 <= len);
    let st: usize = j + 15;
    let e1 = byte_or_end_index(line, ',' as u8, st);
    let e2: usize = match find_pattern(line, &w, st) {
        Some(k) => k,
        None => line.len(),
    };
    let e: usize = if e1 < e2 {
        e1
    } else {
        e2
    };
    if st > e || e > line.len() {
        return None;
    }
    let (lo, hi) = trim_bounds(&line[st..e]);
    parse_decimal_u8(&line[st..e][lo..hi])
}

/// The text value a `getvcp` reply reports, such as `6500 K` for a colour
/// temperature; the last line that has one counts.
pub fn parse_vcp_text_value(output: &[u8]) -> (r: Option<String>)
    ensures
        crate::text::opt_text(r) == match last_text_value(output@, 0, None) {
            Some(t) => Some(lossy_text(t)),
            None => None,
        },
{
    let mut acc: Option<Vec<u8>> = None;
    let mut i: usize = 0;
    while i < output.len()
        invariant
            i <= output@.len(),
            last_text_value(output@, 0, None) == last_text_value(output@, i as nat, crate::text::opt_bytes(acc)),
        decreases output@.len() - i,
    {
        let e: usize = match find_byte_from(output, '\n' as u8, i) {
            Some(e) => e,
            None => output.len(),
        };
        match parse_line_text_value(&output[i..e]) {
            Some(v) => {
                acc = Some(v);
            },
            None => {},
        }
        if e >= output.len() {
            i = output.len();
        } else {
            i = e + 1;
        }
    }
    match acc {
        Some(v) => Some(text_of(v.as_slice())),
        None => None,
    }
}

/// The numeric value a `getvcp` reply reports in `current value = <n>,`;
/// the last line that has one counts.
pub fn parse_vcp_number_value(output: &[u8]) -> (r: Option<u8>)
    ensures
        r == last_number_value(output@, 0, None),
{
    let mut acc: Option<u8> = None;
    let mut i: usize = 0;
    while i < output.len()
        invariant
            i <= output@.len(),
            last_number_value(output@, 0, None) == last_number_value(output@, i as nat, acc),
        decreases output@.len() - i,
    {
        let e: usize = match find_byte_from(output, '\n' as u8, i) {
            Some(e) => e,
            None => output.len(),
        };
        match parse_line_number_value(&output[i..e]) {
            Some(v) => {
                acc = Some(v);
            },
            None => {},
        }
        if e >= output.len() {
            i = output.len();
        } else {
            i = e + 1;
        }
    }
    acc
}

} // verus!
