//! The capabilities string a monitor reports over DDC/CI:
//! `(prot(monitor)type(lcd)model(X)cmds(01 02)vcp(10 12 14(05 06) 60)mccs_ver(2.1))`.

use vstd::prelude::*;
use crate::text::{find_byte, find_byte_from, find_from, find_pattern, hex_value, is_hex_digit, is_space, lossy_text, text_of};

verus! {

/// Text between the first `key` (which ends with an opening parenthesis)
/// and the next closing parenthesis.
pub open spec fn field_value(s: Seq<u8>, key: Seq<u8>) -> Option<Seq<u8>> {
    match find_from(s, key, 0) {
        Some(st) => match find_byte(s, ')' as u8, st + key.len()) {
            Some(e) => Some(s.subrange((st + key.len()) as int, e as int)),
            None => None,
        },
        None => None,
    }
}

/// The value of field `key` in a capabilities string.
pub fn find_field(s: &[u8], key: &[u8]) -> (r: Option<Vec<u8>>)
    ensures
        match r {
            Some(v) => field_value(s@, key@) == Some(v@),
            None => field_value(s@, key@) is None,
        },
{
    match find_pattern(s, key, 0) {
        Some(st) => {
            let len: usize = s.len();
            assert(st + key@.len() <= len);
            let from: usize = st + key.len();
            match find_byte_from(s, ')' as u8, from) {
                Some(e) => Some(vstd::slice::slice_to_vec(&s[from..e])),
                None => None,
            }
        },
        None => None,
    }
}

/// The feature code a token names, when it is exactly two hex digits.
pub open spec fn token_code(tok: Seq<u8>) -> Option<u8> {
    if tok.len() == 2 && is_hex_digit(tok[0]) && is_hex_digit(tok[1]) {
        Some((hex_value(tok[0]) * 16 + hex_value(tok[1])) as u8)
    } else {
        None
    }
}

/// `acc` with the code of `tok` appended, if it names one.
pub open spec fn add_token(acc: Seq<u8>, tok: Seq<u8>) -> Seq<u8> {
    match token_code(tok) {
        Some(c) => acc.push(c),
        None => acc,
    }
}

/// Codes of a `vcp(` list read from `i` on, with `depth` parentheses open
/// inside it, the top-level token `tok` in progress and the codes `acc`
/// found so far. Only top-level tokens count; a list that is never closed
/// yields nothing.
pub open spec fn scan_codes(s: Seq<u8>, i: nat, depth: nat, tok: Seq<u8>, acc: Seq<u8>) -> Seq<u8>
    decreases s.len() - i,
{
    if i >= s.len() {
        Seq::empty()
    } else {
        let c = s[i as int];
        if depth == 0 {
            if c == ')' as u8 {
                add_token(acc, tok)
            } else if c == '(' as u8 {
                scan_codes(s, i + 1, 1, Seq::empty(), add_token(acc, tok))
            } else if is_space(c) {
                scan_codes(s, i + 1, 0, Seq::empty(), add_token(acc, tok))
            } else {
                scan_codes(s, i + 1, 0, tok.push(c), acc)
            }
        } else if c == '(' as u8 {
            scan_codes(s, i + 1, depth + 1, tok, acc)
        } else if c == ')' as u8 {
            scan_codes(s, i + 1, (depth - 1) as nat, tok, acc)
        } else {
            scan_codes(s, i + 1, depth, tok, acc)
        }
    }
}

/// `vcp(`
pub open spec fn vcp_key() -> Seq<u8> {
    seq!['v' as u8, 'c' as u8, 'p' as u8, '(' as u8]
}

/// Top-level feature codes of the first `vcp(` list.
pub open spec fn vcp_codes_spec(s: Seq<u8>) -> Seq<u8> {
    match find_from(s, vcp_key(), 0) {
        Some(st) => scan_codes(s, st + 4, 0, Seq::empty(), Seq::empty()),
        None => Seq::empty(),
    }
}

fn hex_val(c: u8) -> (r: Option<u8>)
    ensures
        r is Some <==> is_hex_digit(c),
        r is Some ==> r->Some_0 as nat == hex_value(c),
{
    if 0x30 <= c && c <= 0x39 {
        Some(c - 0x30)
    } else if 0x41 <= c && c <= 0x46 {
        Some(c - 0x41 + 10)
    } else if 0x61 <= c && c <= 0x66 {
        Some(c - 0x61 + 10)
    } else {
        None
    }
}

fn push_token(acc: &mut Vec<u8>, tok: &Vec<u8>)
    ensures
        final(acc)@ == add_token(old(acc)@, tok@),
{
    if tok.len() == 2 {
        match (hex_val(tok[0]), hex_val(tok[1])) {
            (Some(a), Some(b)) => {
                acc.push(a * 16 + b);
            },
            _ => {},
        }
    }
}

/// Top-level feature codes of the first `vcp(` list; codes inside a
/// value sub-list such as `14(05 06)` are skipped.
pub fn vcp_codes(s: &[u8]) -> (r: Vec<u8>)
    ensures
        r@ == vcp_codes_spec(s@),
{
    let key: [u8; 4] = ['v' as u8, 'c' as u8, 'p' as u8, '(' as u8];
    assert(key@ =~= vcp_key());
    let st = match find_pattern(s, &key, 0) {
        Some(st) => st,
        None => {
            return Vec::new();
        },
    };
    let len: usize = s.len();
    assert(st + 4 <= len);
    let mut i: usize = st + 4;
    let mut depth: usize = 0;
    let mut tok: Vec<u8> = Vec::new();
    let mut acc: Vec<u8> = Vec::new();
    while i < s.len()
        invariant
            i <= s@.len(),
            depth <= i,
            vcp_codes_spec(s@) == scan_codes(s@, i as nat, depth as nat, tok@, acc@),
        decreases s@.len() - i,
    {
        let c = s[i];
        if depth == 0 {
            if c == ')' as u8 {
                push_token(&mut acc, &tok);
                return acc;
            } else if c == '(' as u8 {
                push_token(&mut acc, &tok);
                tok = Vec::new();
                depth = 1;
            } else if c == 0x20 || (0x09 <= c && c <= 0x0D) {
                push_token(&mut acc, &tok);
                tok = Vec::new();
            } else {
                tok.push(c);
            }
        } else if c == '(' as u8 {
            depth = depth + 1;
        } else if c == ')' as u8 {
            depth = depth - 1;
        }
        i = i + 1;
    }
    Vec::new()
}

/// Fields this library reads from a capabilities string.
#[derive(Debug, Clone)]
pub struct Capabilities {
    /// Text of `mccs_ver(...)`.
    pub mccs_version: Option<String>,
    /// Text of `model(...)`.
    pub model: Option<String>,
    /// Text of `type(...)`.
    pub monitor_type: Option<String>,
    /// Top-level codes of `vcp(...)`, in order.
    pub vcp_codes: Vec<u8>,
}

pub open spec fn opt_lossy(o: Option<Seq<u8>>) -> Option<Seq<char>> {
    match o {
        Some(t) => Some(lossy_text(t)),
        None => None,
    }
}

/// `mccs_ver(`
pub open spec fn mccs_key() -> Seq<u8> {
    seq![
        'm' as u8, 'c' as u8, 'c' as u8, 's' as u8, '_' as u8, 'v' as u8, 'e' as u8, 'r' as u8,
        '(' as u8,
    ]
}

/// `model(`
pub open spec fn model_key() -> Seq<u8> {
    seq!['m' as u8, 'o' as u8, 'd' as u8, 'e' as u8, 'l' as u8, '(' as u8]
}

/// `type(`
pub open spec fn type_key() -> Seq<u8> {
    seq!['t' as u8, 'y' as u8, 'p' as u8, 'e' as u8, '(' as u8]
}

fn field_text(s: &[u8], key: &[u8]) -> (r: Option<String>)
    ensures
        crate::text::opt_text(r) == opt_lossy(field_value(s@, key@)),
        crate::edid::decoded_as(r, field_value(s@, key@)),
{
    match find_field(s, key) {
        Some(v) => Some(text_of(v.as_slice())),
        None => None,
    }
}

/// `c` holds what the capabilities string `s` says.
pub open spec fn capabilities_of(c: Capabilities, s: Seq<u8>) -> bool {
    &&& crate::text::opt_text(c.mccs_version) == opt_lossy(field_value(s, mccs_key()))
    &&& crate::text::opt_text(c.model) == opt_lossy(field_value(s, model_key()))
    &&& crate::text::opt_text(c.monitor_type) == opt_lossy(field_value(s, type_key()))
    &&& crate::edid::decoded_as(c.mccs_version, field_value(s, mccs_key()))
    &&& crate::edid::decoded_as(c.model, field_value(s, model_key()))
    &&& crate::edid::decoded_as(c.monitor_type, field_value(s, type_key()))
    &&& c.vcp_codes@ == vcp_codes_spec(s)
}

/// Reads the MCCS version, model, display type and supported feature codes
/// of a capabilities string.
pub fn parse_capabilities(s: &[u8]) -> (r: Capabilities)
    ensures
        capabilities_of(r, s@),
{
    let mk: [u8; 9] = [
        'm' as u8, 'c' as u8, 'c' as u8, 's' as u8, '_' as u8, 'v' as u8, 'e' as u8, 'r' as u8,
        '(' as u8,
    ];
    let ok: [u8; 6] = ['m' as u8, 'o' as u8, 'd' as u8, 'e' as u8, 'l' as u8, '(' as u8];
    let tk: [u8; 5] = ['t' as u8, 'y' as u8, 'p' as u8, 'e' as u8, '(' as u8];
    assert(mk@ =~= mccs_key());
    assert(ok@ =~= model_key());
    assert(tk@ =~= type_key());
    Capabilities {
        mccs_version: field_text(s, &mk),
        model: field_text(s, &ok),
        monitor_type: field_text(s, &tk),
        vcp_codes: vcp_codes(s),
    }
}

} // verus!
