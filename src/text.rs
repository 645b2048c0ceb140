//! Byte-level text helpers shared by the decoders: searching, trimming,
//! digits, and the one conversion from bytes to `String`.

use vstd::prelude::*;

verus! {

/// What `String::from_utf8_lossy` makes of a byte sequence.
pub uninterp spec fn lossy_text(b: Seq<u8>) -> Seq<char>;

/// Relies on `String::from_utf8_lossy`: the characters depend on the bytes
/// alone, and valid UTF-8 is decoded as it stands.
#[verifier::external_body]
pub(crate) fn text_of(b: &[u8]) -> (r: String)
    ensures
        r@ == lossy_text(b@),
        vstd::utf8::valid_utf8(b@) ==> r@ == vstd::utf8::decode_utf8(b@),
{
    String::from_utf8_lossy(b).into_owned()
}

/// ASCII whitespace as `char::is_whitespace` sees it below 0x80.
pub open spec fn is_space(c: u8) -> bool {
    c == 0x20 || (0x09 <= c && c <= 0x0D)
}

/// Number of leading whitespace bytes.
pub open spec fn lead_spaces(s: Seq<u8>) -> nat
    decreases s.len(),
{
    if s.len() > 0 && is_space(s[0]) {
        1 + lead_spaces(s.drop_first())
    } else {
        0
    }
}

/// Number of trailing whitespace bytes.
pub open spec fn trail_spaces(s: Seq<u8>) -> nat
    decreases s.len(),
{
    if s.len() > 0 && is_space(s.last()) {
        1 + trail_spaces(s.drop_last())
    } else {
        0
    }
}

/// `s` without whitespace at either end.
pub open spec fn trim_spaces(s: Seq<u8>) -> Seq<u8> {
    let t = s.subrange(0, s.len() - trail_spaces(s));
    t.subrange(lead_spaces(t) as int, t.len() as int)
}

pub(crate) proof fn lemma_trail_exact(s: Seq<u8>, n: int)
    requires
        0 <= n <= s.len(),
        forall|i: int| s.len() - n <= i < s.len() ==> is_space(#[trigger] s[i]),
        n < s.len() ==> !is_space(s[s.len() - n - 1]),
    ensures
        trail_spaces(s) == n,
    decreases s.len(),
{
    if n > 0 {
        lemma_trail_exact(s.drop_last(), n - 1);
    }
}

pub(crate) proof fn lemma_lead_exact(s: Seq<u8>, n: int)
    requires
        0 <= n <= s.len(),
        forall|i: int| 0 <= i < n ==> is_space(#[trigger] s[i]),
        n < s.len() ==> !is_space(s[n]),
    ensures
        lead_spaces(s) == n,
    decreases s.len(),
{
    if n > 0 {
        let t = s.drop_first();
        assert forall|i: int| 0 <= i < n - 1 implies is_space(#[trigger] t[i]) by {
            assert(t[i] == s[i + 1]);
        }
        if n - 1 < t.len() {
            assert(t[n - 1] == s[n]);
        }
        lemma_lead_exact(t, n - 1);
    }
}

proof fn lemma_trail_bound(s: Seq<u8>)
    ensures
        trail_spaces(s) <= s.len(),
        trail_spaces(s) < s.len() ==> !is_space(s[s.len() - trail_spaces(s) - 1]),
    decreases s.len(),
{
    if s.len() > 0 && is_space(s.last()) {
        lemma_trail_bound(s.drop_last());
    }
}

proof fn lemma_lead_bound(s: Seq<u8>)
    ensures
        lead_spaces(s) <= s.len(),
        lead_spaces(s) < s.len() ==> !is_space(s[lead_spaces(s) as int]),
    decreases s.len(),
{
    if s.len() > 0 && is_space(s[0]) {
        lemma_lead_bound(s.drop_first());
    }
}

/// What trimming leaves: a run of `s` that neither starts nor ends with
/// whitespace.
pub(crate) proof fn lemma_trim_shape(s: Seq<u8>)
    ensures
        ({
            let r = trim_spaces(s);
            let t = s.subrange(0, s.len() - trail_spaces(s));
            &&& r.len() > 0 ==> !is_space(r[0]) && !is_space(r.last())
            &&& r.len() + lead_spaces(t) <= s.len()
            &&& forall|j: int| 0 <= j < r.len() ==> #[trigger] r[j] == s[j + lead_spaces(t)]
        }),
{
    lemma_trail_bound(s);
    let t = s.subrange(0, s.len() - trail_spaces(s));
    lemma_lead_bound(t);
}

/// Trimming leaves a sequence without surrounding whitespace unchanged.
pub(crate) proof fn lemma_trim_trimmed(s: Seq<u8>)
    requires
        s.len() > 0 ==> !is_space(s[0]) && !is_space(s.last()),
    ensures
        trim_spaces(s) == s,
{
    lemma_trail_exact(s, 0);
    assert(s.subrange(0, s.len() as int) =~= s);
    lemma_lead_exact(s, 0);
    assert(s.subrange(0, s.len() as int) =~= s);
}

/// Bounds of `b` without whitespace at either end: `b[start..end]` is
/// `trim_spaces(b)`.
pub fn trim_bounds(b: &[u8]) -> (r: (usize, usize))
    ensures
        r.0 <= r.1 <= b@.len(),
        b@.subrange(r.0 as int, r.1 as int) == trim_spaces(b@),
{
    let mut end: usize = b.len();
    while end > 0 && (b[end - 1] == 0x20 || (0x09 <= b[end - 1] && b[end - 1] <= 0x0D))
        invariant
            end <= b@.len(),
            forall|i: int| end <= i < b@.len() ==> is_space(#[trigger] b@[i]),
        decreases end,
    {
        end = end - 1;
    }
    let mut start: usize = 0;
    while start < end && (b[start] == 0x20 || (0x09 <= b[start] && b[start] <= 0x0D))
        invariant
            start <= end <= b@.len(),
            forall|i: int| 0 <= i < start ==> is_space(#[trigger] b@[i]),
        decreases end - start,
    {
        start = start + 1;
    }
    proof {
        let s = b@;
        lemma_trail_exact(s, s.len() - end);
        let t = s.subrange(0, end as int);
        assert forall|i: int| 0 <= i < start implies is_space(#[trigger] t[i]) by {
            assert(t[i] == s[i]);
        }
        lemma_lead_exact(t, start as int);
        assert(t.subrange(start as int, t.len() as int) =~= s.subrange(start as int, end as int));
    }
    (start, end)
}

/// Whether `c` is ASCII whitespace.
pub fn is_space_byte(c: u8) -> (r: bool)
    ensures
        r == is_space(c),
{
    c == 0x20 || (0x09 <= c && c <= 0x0D)
}

/// Whether two byte runs are equal.
pub fn same_bytes(a: &[u8], b: &[u8]) -> (r: bool)
    ensures
        r == (a@ == b@),
{
    if a.len() != b.len() {
        return false;
    }
    let mut i: usize = 0;
    while i < a.len()
        invariant
            i <= a@.len(),
            a@.len() == b@.len(),
            forall|j: int| 0 <= j < i ==> a@[j] == b@[j],
        decreases a@.len() - i,
    {
        if a[i] != b[i] {
            return false;
        }
        i = i + 1;
    }
    assert(a@ =~= b@);
    true
}

/// Digit character for a value below 16, upper case.
pub open spec fn hex_digit(d: nat) -> u8 {
    if d < 10 {
        (0x30 + d) as u8
    } else {
        (0x41 + d - 10) as u8
    }
}

/// `n` written with exactly `width` upper-case hexadecimal digits (the
/// high digits beyond `width` are dropped).
pub open spec fn hex_fixed(n: nat, width: nat) -> Seq<u8>
    decreases width,
{
    if width == 0 {
        Seq::empty()
    } else {
        hex_fixed(n / 16, (width - 1) as nat).push(hex_digit(n % 16))
    }
}

/// `n` in decimal, without leading zeros.
pub open spec fn decimal(n: nat) -> Seq<u8>
    decreases n,
{
    if n < 10 {
        seq![(0x30 + n) as u8]
    } else {
        decimal(n / 10).push((0x30 + n % 10) as u8)
    }
}

/// Upper-case hexadecimal digits of `n`, `width` of them.
pub fn hex_fixed_bytes(n: u32, width: usize) -> (r: Vec<u8>)
    ensures
        r@ == hex_fixed(n as nat, width as nat),
    decreases width,
{
    if width == 0 {
        Vec::new()
    } else {
        let mut v = hex_fixed_bytes(n / 16, width - 1);
        let d: u32 = n % 16;
        let c: u8 = if d < 10 {
            (0x30 + d) as u8
        } else {
            (0x41 + d - 10) as u8
        };
        v.push(c);
        v
    }
}

/// Decimal digits of `n`.
pub fn decimal_bytes(n: u64) -> (r: Vec<u8>)
    ensures
        r@ == decimal(n as nat),
    decreases n,
{
    if n < 10 {
        let mut v: Vec<u8> = Vec::new();
        v.push((0x30 + n) as u8);
        v
    } else {
        let mut v = decimal_bytes(n / 10);
        v.push((0x30 + n % 10) as u8);
        v
    }
}

/// `pat` occurs in `s` at `j`.
pub open spec fn occurs_at(s: Seq<u8>, pat: Seq<u8>, j: int) -> bool {
    0 <= j && j + pat.len() <= s.len() && s.subrange(j, j + pat.len()) == pat
}

/// First index from `i` on where `pat` occurs in `s`.
pub open spec fn find_from(s: Seq<u8>, pat: Seq<u8>, i: nat) -> Option<nat>
    decreases s.len() + 1 - i,
{
    if i + pat.len() > s.len() {
        None
    } else if occurs_at(s, pat, i as int) {
        Some(i)
    } else {
        find_from(s, pat, i + 1)
    }
}

/// First index from `i` on that holds byte `c`.
pub open spec fn find_byte(s: Seq<u8>, c: u8, i: nat) -> Option<nat>
    decreases s.len() - i,
{
    if i >= s.len() {
        None
    } else if s[i as int] == c {
        Some(i)
    } else {
        find_byte(s, c, i + 1)
    }
}

/// First occurrence of `pat` in `s` from `i` on.
pub fn find_pattern(s: &[u8], pat: &[u8], i: usize) -> (r: Option<usize>)
    ensures
        match r {
            Some(j) => find_from(s@, pat@, i as nat) == Some(j as nat),
            None => find_from(s@, pat@, i as nat) is None,
        },
        r is Some ==> i <= r->Some_0 && r->Some_0 + pat@.len() <= s@.len(),
    decreases s@.len() + 1 - i,
{
    if i > s.len() || pat.len() > s.len() - i {
        return None;
    }
    let end: usize = i + pat.len();
    let window = &s[i..end];
    assert(window@ == s@.subrange(i as int, end as int));
    if crate::text::same_bytes(window, pat) {
        assert(occurs_at(s@, pat@, i as int));
        Some(i)
    } else if i == s.len() {
        assert(find_from(s@, pat@, (i + 1) as nat) is None);
        None
    } else {
        find_pattern(s, pat, i + 1)
    }
}

/// First index from `i` on that holds `c`.
pub fn find_byte_from(s: &[u8], c: u8, i: usize) -> (r: Option<usize>)
    ensures
        match r {
            Some(j) => find_byte(s@, c, i as nat) == Some(j as nat) && i <= j < s@.len(),
            None => find_byte(s@, c, i as nat) is None,
        },
    decreases s@.len() - i,
{
    if i >= s.len() {
        None
    } else if s[i] == c {
        Some(i)
    } else {
        find_byte_from(s, c, i + 1)
    }
}

/// A hexadecimal digit, either case.
pub open spec fn is_hex_digit(c: u8) -> bool {
    (0x30 <= c <= 0x39) || (0x41 <= c <= 0x46) || (0x61 <= c <= 0x66)
}

/// Value of a hexadecimal digit.
pub open spec fn hex_value(c: u8) -> nat {
    if 0x30 <= c <= 0x39 {
        (c - 0x30) as nat
    } else if 0x41 <= c <= 0x46 {
        (c - 0x41 + 10) as nat
    } else {
        (c - 0x61 + 10) as nat
    }
}

pub open spec fn opt_bytes(o: Option<Vec<u8>>) -> Option<Seq<u8>> {
    match o {
        Some(v) => Some(v@),
        None => None,
    }
}

pub open spec fn opt_slice(o: Option<&[u8]>) -> Option<Seq<u8>> {
    match o {
        Some(e) => Some(e@),
        None => None,
    }
}

/// `pat` occurs somewhere in `s`.
pub open spec fn contains(s: Seq<u8>, pat: Seq<u8>) -> bool {
    find_from(s, pat, 0) is Some
}

/// Index of the end of the line that starts at `i`.
pub open spec fn line_end(s: Seq<u8>, i: nat) -> nat {
    match find_byte(s, '\n' as u8, i) {
        Some(e) => e,
        None => s.len(),
    }
}

pub open spec fn is_digit(c: u8) -> bool {
    0x30 <= c <= 0x39
}

/// Value of a run of decimal digits.
pub open spec fn digits_value(d: Seq<u8>) -> nat
    decreases d.len(),
{
    if d.len() == 0 {
        0
    } else {
        digits_value(d.drop_last()) * 10 + (d.last() - 0x30) as nat
    }
}

/// Every byte of `d` is a decimal digit.
pub open spec fn all_digits(d: Seq<u8>) -> bool {
    forall|i: int| 0 <= i < d.len() ==> is_digit(#[trigger] d[i])
}

/// `t` without a leading `+`.
pub open spec fn unsigned_part(t: Seq<u8>) -> Seq<u8> {
    if t.len() > 0 && t[0] == '+' as u8 {
        t.drop_first()
    } else {
        t
    }
}

/// A decimal number that fits a byte, with an optional leading `+`.
pub open spec fn decimal_u8(t: Seq<u8>) -> Option<u8> {
    let d = unsigned_part(t);
    if d.len() > 0 && all_digits(d) && digits_value(d) <= 255 {
        Some(digits_value(d) as u8)
    } else {
        None
    }
}

/// Reads a decimal byte value.
pub fn parse_decimal_u8(t: &[u8]) -> (r: Option<u8>)
    ensures
        r == decimal_u8(t@),
{
    let start: usize = if t.len() > 0 && t[0] == '+' as u8 {
        1
    } else {
        0
    };
    let ghost d = unsigned_part(t@);
    assert(d =~= t@.subrange(start as int, t@.len() as int));
    if start >= t.len() {
        return None;
    }
    let mut acc: u32 = 0;
    let mut i: usize = start;
    while i < t.len()
        invariant
            start <= i <= t@.len(),
            d == t@.subrange(start as int, t@.len() as int),
            d == unsigned_part(t@),
            forall|j: int| start <= j < i ==> is_digit(#[trigger] t@[j]),
            acc as nat == if digits_value(t@.subrange(start as int, i as int)) <= 255 {
                digits_value(t@.subrange(start as int, i as int))
            } else {
                256
            },
        decreases t@.len() - i,
    {
        let c = t[i];
        if c < 0x30 || c > 0x39 {
            assert(d[i - start] == c);
            assert(!is_digit(d[i - start]));
            return None;
        }
        proof {
            assert(t@.subrange(start as int, i + 1).drop_last() =~= t@.subrange(start as int, i as int));
        }
        let next: u32 = acc * 10 + (c - 0x30) as u32;
        acc = if next > 255 {
            256
        } else {
            next
        };
        i = i + 1;
    }
    assert forall|j: int| 0 <= j < d.len() implies is_digit(#[trigger] d[j]) by {
        assert(d[j] == t@[start + j]);
    }
    if acc > 255 {
        None
    } else {
        Some(acc as u8)
    }
}

pub open spec fn opt_text(o: Option<String>) -> Option<Seq<char>> {
    match o {
        Some(s) => Some(s@),
        None => None,
    }
}

} // verus!
