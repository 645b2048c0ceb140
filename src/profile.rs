//! The brightness profile: the text saved for a set of per-bus brightness
//! values, and the values read back from such a text.

use vstd::prelude::*;
use crate::text::{
    all_digits, decimal, decimal_bytes, decimal_u8, digits_value, find_byte, find_byte_from, find_from, find_pattern,
    is_digit, is_space, lemma_lead_exact, lemma_trail_exact, line_end, occurs_at, parse_decimal_u8, trim_bounds,
    trim_spaces,
};

verus! {

/// Brightness of one bus.
#[derive(Debug, Clone, Copy, PartialEq, Eq, Structural)]
pub struct BusBrightness {
    pub bus: u8,
    pub brightness: u8,
}

/// A display's name by bus, for the profile's `name` attribute.
#[derive(Debug, Clone)]
pub struct BusName {
    pub bus: u8,
    pub name: Vec<u8>,
}

/// `c` as it stands in an attribute value.
pub open spec fn escape_byte(c: u8) -> Seq<u8> {
    if c == '&' as u8 {
        seq!['&' as u8, 'a' as u8, 'm' as u8, 'p' as u8, ';' as u8]
    } else if c == '<' as u8 {
        seq!['&' as u8, 'l' as u8, 't' as u8, ';' as u8]
    } else if c == '>' as u8 {
        seq!['&' as u8, 'g' as u8, 't' as u8, ';' as u8]
    } else {
        seq![c]
    }
}

/// `s` with `&`, `<` and `>` escaped.
pub open spec fn escape(s: Seq<u8>) -> Seq<u8>
    decreases s.len(),
{
    if s.len() == 0 {
        Seq::empty()
    } else {
        escape(s.drop_last()) + escape_byte(s.last())
    }
}

/// Name of the first display on `bus` from `k` on, if any.
pub open spec fn name_for_bus(names: Seq<BusName>, bus: u8, k: nat) -> Option<Seq<u8>>
    decreases names.len() - k,
{
    if k >= names.len() {
        None
    } else if names[k as int].bus == bus {
        Some(names[k as int].name@)
    } else {
        name_for_bus(names, bus, k + 1)
    }
}

/// `    <display bus="`
pub open spec fn bus_open() -> Seq<u8> {
    seq![' ' as u8, ' ' as u8, ' ' as u8, ' ' as u8, '<' as u8, 'd' as u8, 'i' as u8, 's' as u8, 'p' as u8, 'l' as u8, 'a' as u8, 'y' as u8, ' ' as u8, 'b' as u8, 'u' as u8, 's' as u8, '=' as u8, '"' as u8]
}

/// `" brightness="`
pub open spec fn brightness_open() -> Seq<u8> {
    seq!['"' as u8, ' ' as u8, 'b' as u8, 'r' as u8, 'i' as u8, 'g' as u8, 'h' as u8, 't' as u8, 'n' as u8, 'e' as u8, 's' as u8, 's' as u8, '=' as u8, '"' as u8]
}

/// `" name="`
pub open spec fn name_open() -> Seq<u8> {
    seq!['"' as u8, ' ' as u8, 'n' as u8, 'a' as u8, 'm' as u8, 'e' as u8, '=' as u8, '"' as u8]
}

/// `" />`
pub open spec fn entry_close() -> Seq<u8> {
    seq!['"' as u8, ' ' as u8, '/' as u8, '>' as u8]
}

/// The `name` attribute of a bus: its display's name, escaped, or `Unknown`.
pub open spec fn name_text(bus: u8, names: Seq<BusName>) -> Seq<u8> {
    match name_for_bus(names, bus, 0) {
        Some(n) => escape(n),
        None => seq!['U' as u8, 'n' as u8, 'k' as u8, 'n' as u8, 'o' as u8, 'w' as u8, 'n' as u8],
    }
}

/// The profile line for one bus, without its line feed.
pub open spec fn entry_body(e: BusBrightness, names: Seq<BusName>) -> Seq<u8> {
    bus_open() + decimal(e.bus as nat) + brightness_open() + decimal(e.brightness as nat) + name_open()
        + name_text(e.bus, names) + entry_close()
}

/// The profile line for one bus.
pub open spec fn entry_line(e: BusBrightness, names: Seq<BusName>) -> Seq<u8> {
    entry_body(e, names).push('\n' as u8)
}

/// Lines for `entries`, in order.
pub open spec fn entry_lines(entries: Seq<BusBrightness>, names: Seq<BusName>) -> Seq<u8>
    decreases entries.len(),
{
    if entries.len() == 0 {
        Seq::empty()
    } else {
        entry_lines(entries.drop_last(), names) + entry_line(entries.last(), names)
    }
}

/// `<?xml version="1.0" encoding="UTF-8"?>`
pub open spec fn xml_decl() -> Seq<u8> {
    seq!['<' as u8, '?' as u8, 'x' as u8, 'm' as u8, 'l' as u8, ' ' as u8, 'v' as u8, 'e' as u8, 'r' as u8, 's' as u8, 'i' as u8, 'o' as u8, 'n' as u8, '=' as u8, '"' as u8, '1' as u8, '.' as u8, '0' as u8, '"' as u8, ' ' as u8, 'e' as u8, 'n' as u8, 'c' as u8, 'o' as u8, 'd' as u8, 'i' as u8, 'n' as u8, 'g' as u8, '=' as u8, '"' as u8, 'U' as u8, 'T' as u8, 'F' as u8, '-' as u8, '8' as u8, '"' as u8, '?' as u8, '>' as u8]
}

/// `<mondis_profile>`
pub open spec fn root_open() -> Seq<u8> {
    seq!['<' as u8, 'm' as u8, 'o' as u8, 'n' as u8, 'd' as u8, 'i' as u8, 's' as u8, '_' as u8, 'p' as u8, 'r' as u8, 'o' as u8, 'f' as u8, 'i' as u8, 'l' as u8, 'e' as u8, '>' as u8]
}

/// `  <brightness_settings>`
pub open spec fn settings_open() -> Seq<u8> {
    seq![' ' as u8, ' ' as u8, '<' as u8, 'b' as u8, 'r' as u8, 'i' as u8, 'g' as u8, 'h' as u8, 't' as u8, 'n' as u8, 'e' as u8, 's' as u8, 's' as u8, '_' as u8, 's' as u8, 'e' as u8, 't' as u8, 't' as u8, 'i' as u8, 'n' as u8, 'g' as u8, 's' as u8, '>' as u8]
}

/// `  </brightness_settings>`
pub open spec fn settings_close() -> Seq<u8> {
    seq![' ' as u8, ' ' as u8, '<' as u8, '/' as u8, 'b' as u8, 'r' as u8, 'i' as u8, 'g' as u8, 'h' as u8, 't' as u8, 'n' as u8, 'e' as u8, 's' as u8, 's' as u8, '_' as u8, 's' as u8, 'e' as u8, 't' as u8, 't' as u8, 'i' as u8, 'n' as u8, 'g' as u8, 's' as u8, '>' as u8]
}

/// `  <timestamp>` and `timestamp` and `</timestamp>`.
pub open spec fn stamp_line(timestamp: u64) -> Seq<u8> {
    seq![' ' as u8, ' ' as u8, '<' as u8, 't' as u8, 'i' as u8, 'm' as u8, 'e' as u8, 's' as u8, 't' as u8, 'a' as u8, 'm' as u8, 'p' as u8, '>' as u8] + decimal(timestamp as nat) + seq!['<' as u8, '/' as u8, 't' as u8, 'i' as u8, 'm' as u8, 'e' as u8, 's' as u8, 't' as u8, 'a' as u8, 'm' as u8, 'p' as u8, '>' as u8]
}

/// `</mondis_profile>`
pub open spec fn root_close() -> Seq<u8> {
    seq!['<' as u8, '/' as u8, 'm' as u8, 'o' as u8, 'n' as u8, 'd' as u8, 'i' as u8, 's' as u8, '_' as u8, 'p' as u8, 'r' as u8, 'o' as u8, 'f' as u8, 'i' as u8, 'l' as u8, 'e' as u8, '>' as u8]
}

/// `l` ended by a line feed.
pub open spec fn with_nl(l: Seq<u8>) -> Seq<u8> {
    l.push('\n' as u8)
}

/// The whole profile text.
pub open spec fn profile_text(entries: Seq<BusBrightness>, names: Seq<BusName>, timestamp: u64) -> Seq<u8> {
    with_nl(xml_decl()) + with_nl(root_open()) + with_nl(settings_open()) + entry_lines(entries, names)
        + with_nl(settings_close()) + with_nl(stamp_line(timestamp)) + with_nl(root_close())
}

fn push_all(v: &mut Vec<u8>, s: &[u8])
    ensures
        final(v)@ == old(v)@ + s@,
{
    let mut t = vstd::slice::slice_to_vec(s);
    v.append(&mut t);
}

fn escaped(s: &[u8]) -> (r: Vec<u8>)
    ensures
        r@ == escape(s@),
{
    let mut r: Vec<u8> = Vec::new();
    let mut i: usize = 0;
    while i < s.len()
        invariant
            i <= s@.len(),
            r@ == escape(s@.subrange(0, i as int)),
        decreases s@.len() - i,
    {
        proof {
            assert(s@.subrange(0, i + 1).drop_last() =~= s@.subrange(0, i as int));
        }
        let c = s[i];
        if c == '&' as u8 {
            let amp: [u8; 5] = ['&' as u8, 'a' as u8, 'm' as u8, 'p' as u8, ';' as u8];
            assert(amp@ =~= seq!['&' as u8, 'a' as u8, 'm' as u8, 'p' as u8, ';' as u8]);
            push_all(&mut r, &amp);
        } else if c == '<' as u8 {
            let lt: [u8; 4] = ['&' as u8, 'l' as u8, 't' as u8, ';' as u8];
            assert(lt@ =~= seq!['&' as u8, 'l' as u8, 't' as u8, ';' as u8]);
            push_all(&mut r, &lt);
        } else if c == '>' as u8 {
            let gt: [u8; 4] = ['&' as u8, 'g' as u8, 't' as u8, ';' as u8];
            assert(gt@ =~= seq!['&' as u8, 'g' as u8, 't' as u8, ';' as u8]);
            push_all(&mut r, &gt);
        } else {
            r.push(c);
            assert(escape_byte(c) =~= seq![c]);
        }
        i = i + 1;
    }
    assert(s@.subrange(0, s@.len() as int) =~= s@);
    r
}

fn name_bytes_for(names: &Vec<BusName>, bus: u8) -> (r: Option<&[u8]>)
    ensures
        crate::text::opt_slice(r) == name_for_bus(names@, bus, 0),
{
    let mut k: usize = 0;
    while k < names.len()
        invariant
            k <= names@.len(),
            name_for_bus(names@, bus, 0) == name_for_bus(names@, bus, k as nat),
        decreases names@.len() - k,
    {
        if names[k].bus == bus {
            return Some(names[k].name.as_slice());
        }
        k = k + 1;
    }
    None
}

/// The profile text for `entries`, naming each bus after the first
/// display on it, at `timestamp` seconds since the epoch.
pub fn profile_xml(entries: &Vec<BusBrightness>, names: &Vec<BusName>, timestamp: u64) -> (r: Vec<u8>)
    ensures
        r@ == profile_text(entries@, names@, timestamp),
{
    let mut v: Vec<u8> = vec![
        '<' as u8, '?' as u8, 'x' as u8, 'm' as u8, 'l' as u8, ' ' as u8, 'v' as u8, 'e' as u8,
        'r' as u8, 's' as u8, 'i' as u8, 'o' as u8, 'n' as u8, '=' as u8, '"' as u8, '1' as u8,
        '.' as u8, '0' as u8, '"' as u8, ' ' as u8, 'e' as u8, 'n' as u8, 'c' as u8, 'o' as u8,
        'd' as u8, 'i' as u8, 'n' as u8, 'g' as u8, '=' as u8, '"' as u8, 'U' as u8, 'T' as u8,
        'F' as u8, '-' as u8, '8' as u8, '"' as u8, '?' as u8, '>' as u8, '\n' as u8, '<' as u8,
        'm' as u8, 'o' as u8, 'n' as u8, 'd' as u8, 'i' as u8, 's' as u8, '_' as u8, 'p' as u8,
        'r' as u8, 'o' as u8, 'f' as u8, 'i' as u8, 'l' as u8, 'e' as u8, '>' as u8, '\n' as u8,
        ' ' as u8, ' ' as u8, '<' as u8, 'b' as u8, 'r' as u8, 'i' as u8, 'g' as u8, 'h' as u8,
        't' as u8, 'n' as u8, 'e' as u8, 's' as u8, 's' as u8, '_' as u8, 's' as u8, 'e' as u8,
        't' as u8, 't' as u8, 'i' as u8, 'n' as u8, 'g' as u8, 's' as u8, '>' as u8, '\n' as u8,
    ];
    assert(v@ =~= seq![
        '<' as u8, '?' as u8, 'x' as u8, 'm' as u8, 'l' as u8, ' ' as u8, 'v' as u8, 'e' as u8,
        'r' as u8, 's' as u8, 'i' as u8, 'o' as u8, 'n' as u8, '=' as u8, '"' as u8, '1' as u8,
        '.' as u8, '0' as u8, '"' as u8, ' ' as u8, 'e' as u8, 'n' as u8, 'c' as u8, 'o' as u8,
        'd' as u8, 'i' as u8, 'n' as u8, 'g' as u8, '=' as u8, '"' as u8, 'U' as u8, 'T' as u8,
        'F' as u8, '-' as u8, '8' as u8, '"' as u8, '?' as u8, '>' as u8, '\n' as u8, '<' as u8,
        'm' as u8, 'o' as u8, 'n' as u8, 'd' as u8, 'i' as u8, 's' as u8, '_' as u8, 'p' as u8,
        'r' as u8, 'o' as u8, 'f' as u8, 'i' as u8, 'l' as u8, 'e' as u8, '>' as u8, '\n' as u8,
        ' ' as u8, ' ' as u8, '<' as u8, 'b' as u8, 'r' as u8, 'i' as u8, 'g' as u8, 'h' as u8,
        't' as u8, 'n' as u8, 'e' as u8, 's' as u8, 's' as u8, '_' as u8, 's' as u8, 'e' as u8,
        't' as u8, 't' as u8, 'i' as u8, 'n' as u8, 'g' as u8, 's' as u8, '>' as u8, '\n' as u8,
    ]);
    let ghost head = v@;
    let mut k: usize = 0;
    while k < entries.len()
        invariant
            k <= entries@.len(),
            v@ == head + entry_lines(entries@.subrange(0, k as int), names@),
        decreases entries@.len() - k,
    {
        proof {
            assert(entries@.subrange(0, k + 1).drop_last() =~= entries@.subrange(0, k as int));
        }
        let e = entries[k];
        let ghost before = v@;
        // `    <display bus="`, `" brightness="`, `" name="`, `" />` and a line feed
        let open_tag: [u8; 18] = [
            ' ' as u8, ' ' as u8, ' ' as u8, ' ' as u8, '<' as u8, 'd' as u8, 'i' as u8, 's' as u8,
            'p' as u8, 'l' as u8, 'a' as u8, 'y' as u8, ' ' as u8, 'b' as u8, 'u' as u8, 's' as u8,
            '=' as u8, '"' as u8,
        ];
        let brightness_key: [u8; 14] = [
            '"' as u8, ' ' as u8, 'b' as u8, 'r' as u8, 'i' as u8, 'g' as u8, 'h' as u8, 't' as u8,
            'n' as u8, 'e' as u8, 's' as u8, 's' as u8, '=' as u8, '"' as u8,
        ];
        let name_key: [u8; 8] = ['"' as u8, ' ' as u8, 'n' as u8, 'a' as u8, 'm' as u8, 'e' as u8, '=' as u8, '"' as u8];
        let close_tag: [u8; 5] = ['"' as u8, ' ' as u8, '/' as u8, '>' as u8, '\n' as u8];
        let unknown: [u8; 7] = ['U' as u8, 'n' as u8, 'k' as u8, 'n' as u8, 'o' as u8, 'w' as u8, 'n' as u8];
        let bus_digits = decimal_bytes(e.bus as u64);
        let value_digits = decimal_bytes(e.brightness as u64);
        push_all(&mut v, &open_tag);
        push_all(&mut v, bus_digits.as_slice());
        push_all(&mut v, &brightness_key);
        push_all(&mut v, value_digits.as_slice());
        push_all(&mut v, &name_key);
        match name_bytes_for(names, e.bus) {
            Some(n) => {
                let esc = escaped(n);
                push_all(&mut v, esc.as_slice());
            },
            None => {
                push_all(&mut v, &unknown);
            },
        }
        push_all(&mut v, &close_tag);
        proof {
            assert(open_tag@ =~= seq![
                ' ' as u8, ' ' as u8, ' ' as u8, ' ' as u8, '<' as u8, 'd' as u8, 'i' as u8, 's' as u8,
                'p' as u8, 'l' as u8, 'a' as u8, 'y' as u8, ' ' as u8, 'b' as u8, 'u' as u8, 's' as u8,
                '=' as u8, '"' as u8,
            ]);
            assert(brightness_key@ =~= seq![
                '"' as u8, ' ' as u8, 'b' as u8, 'r' as u8, 'i' as u8, 'g' as u8, 'h' as u8, 't' as u8,
                'n' as u8, 'e' as u8, 's' as u8, 's' as u8, '=' as u8, '"' as u8,
            ]);
            assert(name_key@ =~= seq!['"' as u8, ' ' as u8, 'n' as u8, 'a' as u8, 'm' as u8, 'e' as u8, '=' as u8, '"' as u8]);
            assert(close_tag@ =~= seq!['"' as u8, ' ' as u8, '/' as u8, '>' as u8, '\n' as u8]);
            assert(unknown@ =~= seq!['U' as u8, 'n' as u8, 'k' as u8, 'n' as u8, 'o' as u8, 'w' as u8, 'n' as u8]);
            assert(entries@.subrange(0, k + 1).last() == e);
            assert(v@ =~= before + entry_line(e, names@));
        }
        k = k + 1;
    }
    assert(entries@.subrange(0, entries@.len() as int) =~= entries@);
    // `  </brightness_settings>`, `  <timestamp>`, `</timestamp>`, `</mondis_profile>`
    let settings_close: [u8; 38] = [
        ' ' as u8, ' ' as u8, '<' as u8, '/' as u8, 'b' as u8, 'r' as u8, 'i' as u8, 'g' as u8,
        'h' as u8, 't' as u8, 'n' as u8, 'e' as u8, 's' as u8, 's' as u8, '_' as u8, 's' as u8,
        'e' as u8, 't' as u8, 't' as u8, 'i' as u8, 'n' as u8, 'g' as u8, 's' as u8, '>' as u8,
        '\n' as u8, ' ' as u8, ' ' as u8, '<' as u8, 't' as u8, 'i' as u8, 'm' as u8, 'e' as u8,
        's' as u8, 't' as u8, 'a' as u8, 'm' as u8, 'p' as u8, '>' as u8,
    ];
    let document_close: [u8; 31] = [
        '<' as u8, '/' as u8, 't' as u8, 'i' as u8, 'm' as u8, 'e' as u8, 's' as u8, 't' as u8,
        'a' as u8, 'm' as u8, 'p' as u8, '>' as u8, '\n' as u8, '<' as u8, '/' as u8, 'm' as u8,
        'o' as u8, 'n' as u8, 'd' as u8, 'i' as u8, 's' as u8, '_' as u8, 'p' as u8, 'r' as u8,
        'o' as u8, 'f' as u8, 'i' as u8, 'l' as u8, 'e' as u8, '>' as u8, '\n' as u8,
    ];
    assert(settings_close@ =~= seq![
        ' ' as u8, ' ' as u8, '<' as u8, '/' as u8, 'b' as u8, 'r' as u8, 'i' as u8, 'g' as u8,
        'h' as u8, 't' as u8, 'n' as u8, 'e' as u8, 's' as u8, 's' as u8, '_' as u8, 's' as u8,
        'e' as u8, 't' as u8, 't' as u8, 'i' as u8, 'n' as u8, 'g' as u8, 's' as u8, '>' as u8,
        '\n' as u8, ' ' as u8, ' ' as u8, '<' as u8, 't' as u8, 'i' as u8, 'm' as u8, 'e' as u8,
        's' as u8, 't' as u8, 'a' as u8, 'm' as u8, 'p' as u8, '>' as u8,
    ]);
    assert(document_close@ =~= seq![
        '<' as u8, '/' as u8, 't' as u8, 'i' as u8, 'm' as u8, 'e' as u8, 's' as u8, 't' as u8,
        'a' as u8, 'm' as u8, 'p' as u8, '>' as u8, '\n' as u8, '<' as u8, '/' as u8, 'm' as u8,
        'o' as u8, 'n' as u8, 'd' as u8, 'i' as u8, 's' as u8, '_' as u8, 'p' as u8, 'r' as u8,
        'o' as u8, 'f' as u8, 'i' as u8, 'l' as u8, 'e' as u8, '>' as u8, '\n' as u8,
    ]);
    push_all(&mut v, &settings_close);
    let ts = decimal_bytes(timestamp);
    push_all(&mut v, ts.as_slice());
    push_all(&mut v, &document_close);
    assert(v@ =~= profile_text(entries@, names@, timestamp));
    v
}


/// Text of attribute `attr` (which ends with `="`) up to the next quote.
pub open spec fn attr_value(line: Seq<u8>, attr: Seq<u8>) -> Option<Seq<u8>> {
    match find_from(line, attr, 0) {
        Some(st) => match find_byte(line, '"' as u8, st + attr.len()) {
            Some(e) => Some(line.subrange((st + attr.len()) as int, e as int)),
            None => None,
        },
        None => None,
    }
}

/// `<display`
pub open spec fn display_tag() -> Seq<u8> {
    seq!['<' as u8, 'd' as u8, 'i' as u8, 's' as u8, 'p' as u8, 'l' as u8, 'a' as u8, 'y' as u8]
}

/// `bus="`
pub open spec fn bus_attr() -> Seq<u8> {
    seq!['b' as u8, 'u' as u8, 's' as u8, '=' as u8, '"' as u8]
}

/// `brightness="`
pub open spec fn brightness_attr() -> Seq<u8> {
    seq![
        'b' as u8, 'r' as u8, 'i' as u8, 'g' as u8, 'h' as u8, 't' as u8, 'n' as u8, 'e' as u8,
        's' as u8, 's' as u8, '=' as u8, '"' as u8,
    ]
}

/// The bus and brightness of a `<display bus=".." brightness=".." />` line.
pub open spec fn profile_line_entry(line: Seq<u8>) -> Option<BusBrightness> {
    let t = trim_spaces(line);
    if t.len() >= 8 && t.subrange(0, 8) == display_tag() {
        match (attr_value(line, bus_attr()), attr_value(line, brightness_attr())) {
            (Some(b), Some(v)) => match (decimal_u8(b), decimal_u8(v)) {
                (Some(x), Some(y)) => Some(BusBrightness { bus: x, brightness: y }),
                _ => None,
            },
            _ => None,
        }
    } else {
        None
    }
}

/// Entries of the profile text `s` from the line that starts at `i`, in order.
pub open spec fn profile_entries_from(s: Seq<u8>, i: nat) -> Seq<BusBrightness>
    decreases s.len() - i,
{
    if i >= s.len() {
        Seq::empty()
    } else {
        let e = line_end(s, i);
        let last = e < i || e >= s.len();
        let here = match profile_line_entry(s.subrange(i as int, if last { s.len() as int } else { e as int })) {
            Some(x) => seq![x],
            None => Seq::empty(),
        };
        if last {
            here
        } else {
            here + profile_entries_from(s, e + 1)
        }
    }
}

fn attr_value_bytes<'a>(line: &'a [u8], attr: &[u8]) -> (r: Option<&'a [u8]>)
    ensures
        crate::text::opt_slice(r) == attr_value(line@, attr@),
{
    match find_pattern(line, attr, 0) {
        Some(st) => {
            let len: usize = line.len();
            assert(st + attr@.len() <= len);
            let from: usize = st + attr.len();
            match find_byte_from(line, '"' as u8, from) {
                Some(e) => Some(&line[from..e]),
                None => None,
            }
        },
        None => None,
    }
}

/// The entry of one profile line, if it is a well-formed display line.
pub fn parse_profile_line(line: &[u8]) -> (r: Option<BusBrightness>)
    ensures
        r == profile_line_entry(line@),
{
    let tag: [u8; 8] = ['<' as u8, 'd' as u8, 'i' as u8, 's' as u8, 'p' as u8, 'l' as u8, 'a' as u8, 'y' as u8];
    let ba: [u8; 5] = ['b' as u8, 'u' as u8, 's' as u8, '=' as u8, '"' as u8];
    let va: [u8; 12] = [
        'b' as u8, 'r' as u8, 'i' as u8, 'g' as u8, 'h' as u8, 't' as u8, 'n' as u8, 'e' as u8,
        's' as u8, 's' as u8, '=' as u8, '"' as u8,
    ];
    assert(tag@ =~= display_tag());
    assert(ba@ =~= bus_attr());
    assert(va@ =~= brightness_attr());
    let (lo, hi) = trim_bounds(line);
    let t = &line[lo..hi];
    if t.len() < 8 || !crate::text::same_bytes(&t[0..8], &tag) {
        return None;
    }
    match (attr_value_bytes(line, &ba), attr_value_bytes(line, &va)) {
        (Some(b), Some(v)) => match (parse_decimal_u8(b), parse_decimal_u8(v)) {
            (Some(x), Some(y)) => Some(BusBrightness { bus: x, brightness: y }),
            _ => None,
        },
        _ => None,
    }
}

/// The per-bus values of a profile text, in the order of its lines; when a
/// bus appears twice the later line is the one that counts.
pub fn parse_profile(text: &[u8]) -> (r: Vec<BusBrightness>)
    ensures
        r@ == profile_entries_from(text@, 0),
{
    let mut r: Vec<BusBrightness> = Vec::new();
    let mut i: usize = 0;
    while i < text.len()
        invariant
            i <= text@.len(),
            profile_entries_from(text@, 0) == r@ + profile_entries_from(text@, i as nat),
        decreases text@.len() - i,
    {
        let e: usize = match find_byte_from(text, '\n' as u8, i) {
            Some(e) => e,
            None => text.len(),
        };
        let ghost before = r@;
        match parse_profile_line(&text[i..e]) {
            Some(x) => {
                r.push(x);
            },
            None => {},
        }
        if e >= text.len() {
            assert(profile_entries_from(text@, i as nat) =~= r@.subrange(before.len() as int, r@.len() as int));
            assert(r@ =~= before + r@.subrange(before.len() as int, r@.len() as int));
            assert(profile_entries_from(text@, text@.len()) =~= Seq::<BusBrightness>::empty());
            assert(r@ + profile_entries_from(text@, text@.len()) =~= r@);
            i = text.len();
        } else {
            assert(profile_entries_from(text@, i as nat) =~= r@.subrange(before.len() as int, r@.len() as int) + profile_entries_from(text@, (e + 1) as nat));
            assert(before + r@.subrange(before.len() as int, r@.len() as int) =~= r@);
            assert(before + (r@.subrange(before.len() as int, r@.len() as int) + profile_entries_from(text@, (e + 1) as nat)) =~= r@ + profile_entries_from(text@, (e + 1) as nat));
            i = e + 1;
        }
    }
    assert(profile_entries_from(text@, i as nat) =~= Seq::<BusBrightness>::empty());
    assert(r@ + Seq::<BusBrightness>::empty() =~= r@);
    r
}


proof fn lemma_find_from_skip(s: Seq<u8>, pat: Seq<u8>, i: nat, k: nat)
    requires
        i <= k,
        pat.len() > 0,
        forall|j: int| i <= j < k && j < s.len() ==> s[j] != pat[0],
    ensures
        find_from(s, pat, i) == find_from(s, pat, k),
    decreases k - i,
{
    if i < k {
        if i + pat.len() <= s.len() {
            assert(s.subrange(i as int, (i + pat.len()) as int)[0] == s[i as int]);
        }
        lemma_find_from_skip(s, pat, i + 1, k);
    }
}

proof fn lemma_find_byte_skip(s: Seq<u8>, c: u8, i: nat, k: nat)
    requires
        i <= k <= s.len(),
        forall|j: int| i <= j < k ==> s[j] != c,
    ensures
        find_byte(s, c, i) == find_byte(s, c, k),
    decreases k - i,
{
    if i < k {
        lemma_find_byte_skip(s, c, i + 1, k);
    }
}

proof fn lemma_decimal_digits(n: nat)
    ensures
        decimal(n).len() >= 1,
        all_digits(decimal(n)),
        digits_value(decimal(n)) == n,
        decimal(n)[0] != '+' as u8,
    decreases n,
{
    if n >= 10 {
        lemma_decimal_digits(n / 10);
        let d = decimal(n);
        assert(d.drop_last() =~= decimal(n / 10));
        assert forall|i: int| 0 <= i < d.len() implies is_digit(#[trigger] d[i]) by {
            if i < d.len() - 1 {
                assert(d[i] == decimal(n / 10)[i]);
            }
        }
        assert(d.last() == (0x30 + n % 10) as u8);
        assert((d.last() - 0x30) as nat == n % 10);
        assert(digits_value(d) == digits_value(decimal(n / 10)) * 10 + n % 10);
        assert((n / 10) * 10 + n % 10 == n) by (nonlinear_arith);
    } else {
        let d = decimal(n);
        assert(d.drop_last() =~= Seq::<u8>::empty());
        assert(d.last() == (0x30 + n) as u8);
        assert(digits_value(d) == digits_value(d.drop_last()) * 10 + (d.last() - 0x30) as nat);
    }
}

proof fn lemma_decimal_byte(n: u8)
    ensures
        decimal_u8(decimal(n as nat)) == Some(n),
{
    lemma_decimal_digits(n as nat);
}

/// `s` has no line feed.
pub open spec fn single_line(s: Seq<u8>) -> bool {
    forall|i: int| 0 <= i < s.len() ==> s[i] != '\n' as u8
}

proof fn lemma_escape_single_line(n: Seq<u8>)
    requires
        single_line(n),
    ensures
        single_line(escape(n)),
    decreases n.len(),
{
    if n.len() > 0 {
        assert forall|i: int| 0 <= i < n.drop_last().len() implies n.drop_last()[i] != '\n' as u8 by {
            assert(n.drop_last()[i] == n[i]);
        }
        lemma_escape_single_line(n.drop_last());
        let a = escape(n.drop_last());
        let b = escape_byte(n.last());
        assert forall|i: int| 0 <= i < (a + b).len() implies (a + b)[i] != '\n' as u8 by {
            if i >= a.len() {
                assert(n.last() == n[n.len() - 1]);
            }
        }
    }
}

proof fn lemma_name_for_bus_some(names: Seq<BusName>, bus: u8, k: nat)
    ensures
        name_for_bus(names, bus, k) matches Some(n) ==> exists|j: int| 0 <= j < names.len() && names[j].name@ == n,
    decreases names.len() - k,
{
    if k < names.len() && names[k as int].bus != bus {
        lemma_name_for_bus_some(names, bus, k + 1);
    }
}

/// No display name holds a line feed.
pub open spec fn names_single_line(names: Seq<BusName>) -> bool {
    forall|j: int| 0 <= j < names.len() ==> single_line(#[trigger] names[j].name@)
}

proof fn lemma_entry_body_single_line(e: BusBrightness, names: Seq<BusName>)
    requires
        names_single_line(names),
    ensures
        single_line(entry_body(e, names)),
{
    lemma_decimal_digits(e.bus as nat);
    lemma_decimal_digits(e.brightness as nat);
    lemma_name_for_bus_some(names, e.bus, 0);
    match name_for_bus(names, e.bus, 0) {
        Some(n) => {
            let j = choose|j: int| 0 <= j < names.len() && names[j].name@ == n;
            assert(single_line(names[j].name@));
            lemma_escape_single_line(n);
        },
        None => {},
    }
    let d1 = decimal(e.bus as nat);
    let d2 = decimal(e.brightness as nat);
    let nt = name_text(e.bus, names);
    let body = entry_body(e, names);
    assert forall|i: int| 0 <= i < body.len() implies body[i] != '\n' as u8 by {
        let l1 = 18 + d1.len();
        let l2 = l1 + 14;
        let l3 = l2 + d2.len();
        let l4 = l3 + 8;
        let l5 = l4 + nt.len();
        if i < 18 {
        } else if i < l1 {
            assert(is_digit(d1[i - 18]));
        } else if i < l2 {
        } else if i < l3 {
            assert(is_digit(d2[i - l2]));
        } else if i < l4 {
        } else if i < l5 {
            assert(body[i] == nt[i - l4]);
        } else {
        }
    }
}


/// A line that starts, after `n` spaces, with `<` and a byte other than
/// `d`, and does not end in whitespace, holds no entry.
proof fn lemma_not_display(l: Seq<u8>, n: nat)
    requires
        n + 1 < l.len(),
        forall|i: int| 0 <= i < n ==> l[i] == ' ' as u8,
        l[n as int] == '<' as u8,
        l[(n + 1) as int] != 'd' as u8,
        !is_space(l.last()),
    ensures
        profile_line_entry(l) is None,
{
    lemma_trail_exact(l, 0);
    assert(l.subrange(0, l.len() as int) =~= l);
    lemma_lead_exact(l, n as int);
    let t = trim_spaces(l);
    assert(t =~= l.subrange(n as int, l.len() as int));
    if t.len() >= 8 {
        assert(t.subrange(0, 8)[1] != display_tag()[1]);
    }
}

/// Each profile line reads back as the entry it was written for.
#[verifier::rlimit(50)]
proof fn lemma_entry_parses(e: BusBrightness, names: Seq<BusName>)
    ensures
        profile_line_entry(entry_body(e, names)) == Some(e),
{
    let d1 = decimal(e.bus as nat);
    let d2 = decimal(e.brightness as nat);
    lemma_decimal_digits(e.bus as nat);
    lemma_decimal_digits(e.brightness as nat);
    lemma_decimal_byte(e.bus);
    lemma_decimal_byte(e.brightness);
    let nt = name_text(e.bus, names);
    let body = entry_body(e, names);
    let l1 = 18 + d1.len();
    let l2 = l1 + 14;
    let l3 = l2 + d2.len();
    let l4 = l3 + 8;
    assert(body.len() == l4 + nt.len() + 4);
    assert forall|i: int| 0 <= i < 18 implies body[i] == bus_open()[i] by {}
    assert forall|i: int| 0 <= i < d1.len() implies body[18 + i] == d1[i] by {}
    assert forall|i: int| 0 <= i < 14 implies body[l1 + i] == brightness_open()[i] by {}
    assert forall|i: int| 0 <= i < d2.len() implies body[l2 + i] == d2[i] by {}
    assert forall|i: int| 0 <= i < 8 implies body[l3 + i] == name_open()[i] by {}
    assert(body.last() == '>' as u8);
    // the leading spaces and the tag
    lemma_trail_exact(body, 0);
    assert(body.subrange(0, body.len() as int) =~= body);
    lemma_lead_exact(body, 4);
    let t = trim_spaces(body);
    assert(t =~= body.subrange(4, body.len() as int));
    assert(t.subrange(0, 8) =~= display_tag());
    // the bus attribute
    assert forall|j: int| 0 <= j < 13 && j < body.len() implies body[j] != bus_attr()[0] by {}
    lemma_find_from_skip(body, bus_attr(), 0, 13);
    assert(body.subrange(13, 18) =~= bus_attr());
    assert(find_from(body, bus_attr(), 13) == Some(13nat));
    assert forall|j: int| 18 <= j < l1 implies body[j] != '"' as u8 by {
        assert(is_digit(d1[j - 18]));
    }
    lemma_find_byte_skip(body, '"' as u8, 18, l1 as nat);
    assert(body.subrange(18, l1 as int) =~= d1);
    assert(attr_value(body, bus_attr()) == Some(d1));
    // the brightness attribute
    let q = l1 + 2;
    assert forall|j: int| 0 <= j < 13 && j < body.len() implies body[j] != brightness_attr()[0] by {}
    lemma_find_from_skip(body, brightness_attr(), 0, 13);
    assert(body[14] != brightness_attr()[1]);
    assert(body.subrange(13, 25)[1] == body[14]);
    assert(!occurs_at(body, brightness_attr(), 13));
    assert forall|j: int| 14 <= j < q && j < body.len() implies body[j] != brightness_attr()[0] by {
        if 18 <= j < l1 {
            assert(is_digit(d1[j - 18]));
        }
    }
    lemma_find_from_skip(body, brightness_attr(), 14, q as nat);
    assert(body.subrange(q as int, (q + 12) as int) =~= brightness_attr());
    assert(find_from(body, brightness_attr(), q as nat) == Some(q as nat));
    assert forall|j: int| l2 <= j < l3 implies body[j] != '"' as u8 by {
        assert(is_digit(d2[j - l2]));
    }
    lemma_find_byte_skip(body, '"' as u8, l2 as nat, l3 as nat);
    assert(body.subrange(l2 as int, l3 as int) =~= d2);
    assert(attr_value(body, brightness_attr()) == Some(d2));
}


/// What one line contributes to the entries.
pub open spec fn line_entries(l: Seq<u8>) -> Seq<BusBrightness> {
    match profile_line_entry(l) {
        Some(x) => seq![x],
        None => Seq::empty(),
    }
}

proof fn lemma_line_step(s: Seq<u8>, i: nat, l: Seq<u8>)
    requires
        i + l.len() < s.len(),
        s.subrange(i as int, (i + l.len() + 1) as int) == with_nl(l),
        single_line(l),
    ensures
        profile_entries_from(s, i) == line_entries(l) + profile_entries_from(s, i + l.len() + 1),
{
    let e = i + l.len();
    assert forall|j: int| i <= j < e implies s[j] != '\n' as u8 by {
        assert(s[j] == s.subrange(i as int, (i + l.len() + 1) as int)[j - i]);
    }
    lemma_find_byte_skip(s, '\n' as u8, i, e as nat);
    assert(s[e as int] == s.subrange(i as int, (i + l.len() + 1) as int)[l.len() as int]);
    assert(line_end(s, i) == e);
    assert(s.subrange(i as int, e as int) =~= l);
}

/// A piece of a piece of `s` is a piece of `s`.
proof fn lemma_piece(s: Seq<u8>, i: int, whole: Seq<u8>, k: int, piece: Seq<u8>)
    requires
        0 <= i,
        i + whole.len() <= s.len(),
        s.subrange(i, i + whole.len()) == whole,
        0 <= k,
        k + piece.len() <= whole.len(),
        whole.subrange(k, k + piece.len()) == piece,
    ensures
        s.subrange(i + k, i + k + piece.len()) == piece,
{
    assert forall|j: int| 0 <= j < piece.len() implies s[i + k + j] == piece[j] by {
        assert(s[i + k + j] == s.subrange(i, i + whole.len())[k + j]);
        assert(piece[j] == whole.subrange(k, k + piece.len())[j]);
    }
    assert(s.subrange(i + k, i + k + piece.len()) =~= piece);
}

#[verifier::rlimit(80)]
proof fn lemma_entries_walk(s: Seq<u8>, i: nat, entries: Seq<BusBrightness>, names: Seq<BusName>)
    requires
        names_single_line(names),
        i + entry_lines(entries, names).len() < s.len(),
        s.subrange(i as int, (i + entry_lines(entries, names).len()) as int) == entry_lines(entries, names),
    ensures
        profile_entries_from(s, i) == entries + profile_entries_from(s, i + entry_lines(entries, names).len()),
    decreases entries.len(),
{
    if entries.len() == 0 {
        assert(entries + profile_entries_from(s, i) =~= profile_entries_from(s, i));
    } else {
        let rest = entries.drop_last();
        let last = entries.last();
        let el = entry_lines(rest, names);
        let line = entry_line(last, names);
        let whole = entry_lines(entries, names);
        assert(whole == el + line);
        assert(whole.subrange(0, el.len() as int) =~= el);
        lemma_piece(s, i as int, whole, 0, el);
        lemma_entries_walk(s, i, rest, names);
        let i2 = i + el.len();
        assert(whole.subrange(el.len() as int, (el.len() + line.len()) as int) =~= line);
        lemma_piece(s, i as int, whole, el.len() as int, line);
        lemma_entry_body_single_line(last, names);
        lemma_line_step(s, i2, entry_body(last, names));
        lemma_entry_parses(last, names);
        assert(line_entries(entry_body(last, names)) =~= seq![last]);
        assert(rest + (seq![last] + profile_entries_from(s, i2 + line.len())) =~= entries + profile_entries_from(s, i2 + line.len()));
    }
}

#[verifier::rlimit(50)]
proof fn lemma_header_lines(s: Seq<u8>)
    requires
        with_nl(xml_decl()).len() + with_nl(root_open()).len() + with_nl(settings_open()).len() < s.len(),
        s.subrange(0, (with_nl(xml_decl()).len() + with_nl(root_open()).len() + with_nl(settings_open()).len()) as int)
            == with_nl(xml_decl()) + with_nl(root_open()) + with_nl(settings_open()),
    ensures
        profile_entries_from(s, 0) == profile_entries_from(
            s,
            with_nl(xml_decl()).len() + with_nl(root_open()).len() + with_nl(settings_open()).len(),
        ),
{
    let a = with_nl(xml_decl());
    let b = with_nl(root_open());
    let c = with_nl(settings_open());
    let h = a + b + c;
    assert(h.subrange(0, a.len() as int) =~= a);
    assert(h.subrange(a.len() as int, (a.len() + b.len()) as int) =~= b);
    assert(h.subrange((a.len() + b.len()) as int, h.len() as int) =~= c);
    lemma_piece(s, 0, h, 0, a);
    lemma_piece(s, 0, h, a.len() as int, b);
    lemma_piece(s, 0, h, (a.len() + b.len()) as int, c);
    lemma_line_step(s, 0, xml_decl());
    lemma_not_display(xml_decl(), 0);
    lemma_line_step(s, a.len(), root_open());
    lemma_not_display(root_open(), 0);
    lemma_line_step(s, a.len() + b.len(), settings_open());
    lemma_not_display(settings_open(), 2);
    assert(line_entries(xml_decl()) =~= Seq::<BusBrightness>::empty());
    assert(line_entries(root_open()) =~= Seq::<BusBrightness>::empty());
    assert(line_entries(settings_open()) =~= Seq::<BusBrightness>::empty());
    assert(Seq::<BusBrightness>::empty() + profile_entries_from(s, h.len()) =~= profile_entries_from(s, h.len()));
    assert(Seq::<BusBrightness>::empty() + profile_entries_from(s, a.len() + b.len()) =~= profile_entries_from(s, a.len() + b.len()));
    assert(Seq::<BusBrightness>::empty() + profile_entries_from(s, a.len()) =~= profile_entries_from(s, a.len()));
}

proof fn lemma_stamp_line(timestamp: u64)
    ensures
        single_line(stamp_line(timestamp)),
        line_entries(stamp_line(timestamp)) == Seq::<BusBrightness>::empty(),
{
    let d = decimal(timestamp as nat);
    lemma_decimal_digits(timestamp as nat);
    assert forall|i: int| 0 <= i < stamp_line(timestamp).len() implies stamp_line(timestamp)[i] != '\n' as u8 by {
        if 13 <= i < 13 + d.len() {
            assert(is_digit(d[i - 13]));
        }
    }
    lemma_not_display(stamp_line(timestamp), 2);
    assert(line_entries(stamp_line(timestamp)) =~= Seq::<BusBrightness>::empty());
}

#[verifier::rlimit(50)]
proof fn lemma_closing_lines(s: Seq<u8>, p: nat, timestamp: u64)
    requires
        p + with_nl(settings_close()).len() + with_nl(stamp_line(timestamp)).len() + with_nl(root_close()).len() == s.len(),
        s.subrange(p as int, s.len() as int) == with_nl(settings_close()) + with_nl(stamp_line(timestamp)) + with_nl(root_close()),
    ensures
        profile_entries_from(s, p) == Seq::<BusBrightness>::empty(),
{
    let x = with_nl(settings_close());
    let y = with_nl(stamp_line(timestamp));
    let z = with_nl(root_close());
    let t = x + y + z;
    assert(t.subrange(0, x.len() as int) =~= x);
    assert(t.subrange(x.len() as int, (x.len() + y.len()) as int) =~= y);
    assert(t.subrange((x.len() + y.len()) as int, t.len() as int) =~= z);
    lemma_piece(s, p as int, t, 0, x);
    lemma_piece(s, p as int, t, x.len() as int, y);
    lemma_piece(s, p as int, t, (x.len() + y.len()) as int, z);
    lemma_line_step(s, p, settings_close());
    lemma_not_display(settings_close(), 2);
    lemma_stamp_line(timestamp);
    lemma_line_step(s, p + x.len(), stamp_line(timestamp));
    lemma_line_step(s, p + x.len() + y.len(), root_close());
    lemma_not_display(root_close(), 0);
    assert(profile_entries_from(s, s.len()) =~= Seq::<BusBrightness>::empty());
    assert(line_entries(settings_close()) =~= Seq::<BusBrightness>::empty());
    assert(line_entries(root_close()) =~= Seq::<BusBrightness>::empty());
    assert(Seq::<BusBrightness>::empty() + Seq::<BusBrightness>::empty() =~= Seq::<BusBrightness>::empty());
}

/// Reading back a saved profile gives the saved entries, in order, as long
/// as no display name holds a line feed.
pub proof fn lemma_profile_round_trip(entries: Seq<BusBrightness>, names: Seq<BusName>, timestamp: u64)
    requires
        names_single_line(names),
    ensures
        profile_entries_from(profile_text(entries, names, timestamp), 0) == entries,
{
    let s = profile_text(entries, names, timestamp);
    let h = with_nl(xml_decl()) + with_nl(root_open()) + with_nl(settings_open());
    let el = entry_lines(entries, names);
    let t = with_nl(settings_close()) + with_nl(stamp_line(timestamp)) + with_nl(root_close());
    assert(s =~= h + el + t);
    assert(s.subrange(0, h.len() as int) =~= h);
    assert(s.subrange(h.len() as int, (h.len() + el.len()) as int) =~= el);
    assert(s.subrange((h.len() + el.len()) as int, s.len() as int) =~= t);
    lemma_header_lines(s);
    lemma_entries_walk(s, h.len(), entries, names);
    lemma_closing_lines(s, h.len() + el.len(), timestamp);
    assert(entries + Seq::<BusBrightness>::empty() =~= entries);
}

} // verus!
