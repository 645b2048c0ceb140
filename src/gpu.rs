//! Names of graphics adapters: from the PCI IDs the kernel reports, with a
//! small table of marketing names, or from a line of `lspci -nn`.

use vstd::prelude::*;
use crate::text::{contains, decimal, decimal_bytes, find_byte, find_byte_from, find_from, find_pattern, line_end, lossy_text, same_bytes, text_of, trim_bounds, trim_spaces};

verus! {

/// Marketing name of a known adapter, by PCI vendor and device ID.
pub open spec fn model_of(v: Seq<u8>, d: Seq<u8>) -> Option<Seq<u8>> {
    if v == seq!['0' as u8, 'x' as u8, '1' as u8, '0' as u8, 'd' as u8, 'e' as u8] && d == seq!['0' as u8, 'x' as u8, '2' as u8, '6' as u8, '8' as u8, '4' as u8] {
        Some(seq!['R' as u8, 'T' as u8, 'X' as u8, ' ' as u8, '4' as u8, '0' as u8, '9' as u8, '0' as u8])
    } else if v == seq!['0' as u8, 'x' as u8, '1' as u8, '0' as u8, 'd' as u8, 'e' as u8] && d == seq!['0' as u8, 'x' as u8, '2' as u8, '7' as u8, '8' as u8, '2' as u8] {
        Some(seq![
            'R' as u8, 'T' as u8, 'X' as u8, ' ' as u8, '4' as u8, '0' as u8, '7' as u8, '0' as u8,
            ' ' as u8, 'T' as u8, 'i' as u8,
        ])
    } else if v == seq!['0' as u8, 'x' as u8, '1' as u8, '0' as u8, 'd' as u8, 'e' as u8] && d == seq!['0' as u8, 'x' as u8, '2' as u8, '7' as u8, '8' as u8, '6' as u8] {
        Some(seq!['R' as u8, 'T' as u8, 'X' as u8, ' ' as u8, '4' as u8, '0' as u8, '7' as u8, '0' as u8])
    } else if v == seq!['0' as u8, 'x' as u8, '1' as u8, '0' as u8, 'd' as u8, 'e' as u8] && d == seq!['0' as u8, 'x' as u8, '2' as u8, '7' as u8, '8' as u8, '8' as u8] {
        Some(seq![
            'R' as u8, 'T' as u8, 'X' as u8, ' ' as u8, '4' as u8, '0' as u8, '6' as u8, '0' as u8,
            ' ' as u8, 'T' as u8, 'i' as u8,
        ])
    } else if v == seq!['0' as u8, 'x' as u8, '1' as u8, '0' as u8, 'd' as u8, 'e' as u8] && d == seq!['0' as u8, 'x' as u8, '2' as u8, '8' as u8, 'e' as u8, '0' as u8] {
        Some(seq!['R' as u8, 'T' as u8, 'X' as u8, ' ' as u8, '4' as u8, '0' as u8, '6' as u8, '0' as u8])
    } else if v == seq!['0' as u8, 'x' as u8, '1' as u8, '0' as u8, 'd' as u8, 'e' as u8] && d == seq!['0' as u8, 'x' as u8, '2' as u8, '2' as u8, '0' as u8, '4' as u8] {
        Some(seq!['R' as u8, 'T' as u8, 'X' as u8, ' ' as u8, '3' as u8, '0' as u8, '9' as u8, '0' as u8])
    } else if v == seq!['0' as u8, 'x' as u8, '1' as u8, '0' as u8, 'd' as u8, 'e' as u8] && d == seq!['0' as u8, 'x' as u8, '2' as u8, '2' as u8, '0' as u8, '6' as u8] {
        Some(seq!['R' as u8, 'T' as u8, 'X' as u8, ' ' as u8, '3' as u8, '0' as u8, '8' as u8, '0' as u8])
    } else if v == seq!['0' as u8, 'x' as u8, '1' as u8, '0' as u8, 'd' as u8, 'e' as u8] && d == seq!['0' as u8, 'x' as u8, '2' as u8, '4' as u8, '8' as u8, '4' as u8] {
        Some(seq!['R' as u8, 'T' as u8, 'X' as u8, ' ' as u8, '3' as u8, '0' as u8, '7' as u8, '0' as u8])
    } else if v == seq!['0' as u8, 'x' as u8, '1' as u8, '0' as u8, 'd' as u8, 'e' as u8] && d == seq!['0' as u8, 'x' as u8, '2' as u8, '5' as u8, '0' as u8, '4' as u8] {
        Some(seq!['R' as u8, 'T' as u8, 'X' as u8, ' ' as u8, '3' as u8, '0' as u8, '6' as u8, '0' as u8])
    } else if v == seq!['0' as u8, 'x' as u8, '1' as u8, '0' as u8, 'd' as u8, 'e' as u8] && d == seq!['0' as u8, 'x' as u8, '2' as u8, '4' as u8, '8' as u8, '7' as u8] {
        Some(seq![
            'R' as u8, 'T' as u8, 'X' as u8, ' ' as u8, '3' as u8, '0' as u8, '6' as u8, '0' as u8,
            ' ' as u8, 'T' as u8, 'i' as u8,
        ])
    } else if v == seq!['0' as u8, 'x' as u8, '1' as u8, '0' as u8, 'd' as u8, 'e' as u8] && d == seq!['0' as u8, 'x' as u8, '1' as u8, 'e' as u8, '0' as u8, '4' as u8] {
        Some(seq![
            'R' as u8, 'T' as u8, 'X' as u8, ' ' as u8, '2' as u8, '0' as u8, '8' as u8, '0' as u8,
            ' ' as u8, 'T' as u8, 'i' as u8,
        ])
    } else if v == seq!['0' as u8, 'x' as u8, '1' as u8, '0' as u8, 'd' as u8, 'e' as u8] && d == seq!['0' as u8, 'x' as u8, '1' as u8, 'e' as u8, '0' as u8, '7' as u8] {
        Some(seq!['R' as u8, 'T' as u8, 'X' as u8, ' ' as u8, '2' as u8, '0' as u8, '8' as u8, '0' as u8])
    } else if v == seq!['0' as u8, 'x' as u8, '1' as u8, '0' as u8, 'd' as u8, 'e' as u8] && d == seq!['0' as u8, 'x' as u8, '1' as u8, 'f' as u8, '0' as u8, '2' as u8] {
        Some(seq!['R' as u8, 'T' as u8, 'X' as u8, ' ' as u8, '2' as u8, '0' as u8, '7' as u8, '0' as u8])
    } else if v == seq!['0' as u8, 'x' as u8, '1' as u8, '0' as u8, 'd' as u8, 'e' as u8] && d == seq!['0' as u8, 'x' as u8, '1' as u8, 'f' as u8, '0' as u8, '6' as u8] {
        Some(seq!['R' as u8, 'T' as u8, 'X' as u8, ' ' as u8, '2' as u8, '0' as u8, '6' as u8, '0' as u8])
    } else if v == seq!['0' as u8, 'x' as u8, '1' as u8, '0' as u8, 'd' as u8, 'e' as u8] && d == seq!['0' as u8, 'x' as u8, '2' as u8, '1' as u8, '8' as u8, '2' as u8] {
        Some(seq![
            'G' as u8, 'T' as u8, 'X' as u8, ' ' as u8, '1' as u8, '6' as u8, '6' as u8, '0' as u8,
            ' ' as u8, 'T' as u8, 'i' as u8,
        ])
    } else if v == seq!['0' as u8, 'x' as u8, '1' as u8, '0' as u8, 'd' as u8, 'e' as u8] && d == seq!['0' as u8, 'x' as u8, '2' as u8, '1' as u8, 'c' as u8, '4' as u8] {
        Some(seq!['G' as u8, 'T' as u8, 'X' as u8, ' ' as u8, '1' as u8, '6' as u8, '6' as u8, '0' as u8])
    } else if v == seq!['0' as u8, 'x' as u8, '1' as u8, '0' as u8, 'd' as u8, 'e' as u8] && d == seq!['0' as u8, 'x' as u8, '1' as u8, 'f' as u8, '8' as u8, '2' as u8] {
        Some(seq!['G' as u8, 'T' as u8, 'X' as u8, ' ' as u8, '1' as u8, '6' as u8, '5' as u8, '0' as u8])
    } else if v == seq!['0' as u8, 'x' as u8, '1' as u8, '0' as u8, '0' as u8, '2' as u8] && d == seq!['0' as u8, 'x' as u8, '7' as u8, '4' as u8, '4' as u8, 'c' as u8] {
        Some(seq![
            'R' as u8, 'X' as u8, ' ' as u8, '7' as u8, '9' as u8, '0' as u8, '0' as u8, ' ' as u8,
            'X' as u8, 'T' as u8, 'X' as u8,
        ])
    } else if v == seq!['0' as u8, 'x' as u8, '1' as u8, '0' as u8, '0' as u8, '2' as u8] && d == seq!['0' as u8, 'x' as u8, '7' as u8, '4' as u8, '4' as u8, '8' as u8] {
        Some(seq![
            'R' as u8, 'X' as u8, ' ' as u8, '7' as u8, '9' as u8, '0' as u8, '0' as u8, ' ' as u8,
            'X' as u8, 'T' as u8,
        ])
    } else if v == seq!['0' as u8, 'x' as u8, '1' as u8, '0' as u8, '0' as u8, '2' as u8] && d == seq!['0' as u8, 'x' as u8, '7' as u8, '4' as u8, '7' as u8, 'e' as u8] {
        Some(seq![
            'R' as u8, 'X' as u8, ' ' as u8, '7' as u8, '8' as u8, '0' as u8, '0' as u8, ' ' as u8,
            'X' as u8, 'T' as u8,
        ])
    } else if v == seq!['0' as u8, 'x' as u8, '1' as u8, '0' as u8, '0' as u8, '2' as u8] && d == seq!['0' as u8, 'x' as u8, '7' as u8, '4' as u8, '7' as u8, '9' as u8] {
        Some(seq![
            'R' as u8, 'X' as u8, ' ' as u8, '7' as u8, '7' as u8, '0' as u8, '0' as u8, ' ' as u8,
            'X' as u8, 'T' as u8,
        ])
    } else if v == seq!['0' as u8, 'x' as u8, '1' as u8, '0' as u8, '0' as u8, '2' as u8] && d == seq!['0' as u8, 'x' as u8, '7' as u8, '3' as u8, 'b' as u8, 'f' as u8] {
        Some(seq![
            'R' as u8, 'X' as u8, ' ' as u8, '6' as u8, '9' as u8, '0' as u8, '0' as u8, ' ' as u8,
            'X' as u8, 'T' as u8,
        ])
    } else if v == seq!['0' as u8, 'x' as u8, '1' as u8, '0' as u8, '0' as u8, '2' as u8] && d == seq!['0' as u8, 'x' as u8, '7' as u8, '3' as u8, 'd' as u8, 'f' as u8] {
        Some(seq![
            'R' as u8, 'X' as u8, ' ' as u8, '6' as u8, '8' as u8, '0' as u8, '0' as u8, ' ' as u8,
            'X' as u8, 'T' as u8,
        ])
    } else if v == seq!['0' as u8, 'x' as u8, '1' as u8, '0' as u8, '0' as u8, '2' as u8] && d == seq!['0' as u8, 'x' as u8, '7' as u8, '3' as u8, 'e' as u8, 'f' as u8] {
        Some(seq!['R' as u8, 'X' as u8, ' ' as u8, '6' as u8, '8' as u8, '0' as u8, '0' as u8])
    } else if v == seq!['0' as u8, 'x' as u8, '1' as u8, '0' as u8, '0' as u8, '2' as u8] && d == seq!['0' as u8, 'x' as u8, '7' as u8, '3' as u8, 'f' as u8, 'f' as u8] {
        Some(seq![
            'R' as u8, 'X' as u8, ' ' as u8, '6' as u8, '7' as u8, '0' as u8, '0' as u8, ' ' as u8,
            'X' as u8, 'T' as u8,
        ])
    } else if v == seq!['0' as u8, 'x' as u8, '1' as u8, '0' as u8, '0' as u8, '2' as u8] && d == seq!['0' as u8, 'x' as u8, '7' as u8, '4' as u8, '2' as u8, '1' as u8] {
        Some(seq![
            'R' as u8, 'X' as u8, ' ' as u8, '6' as u8, '6' as u8, '0' as u8, '0' as u8, ' ' as u8,
            'X' as u8, 'T' as u8,
        ])
    } else if v == seq!['0' as u8, 'x' as u8, '1' as u8, '0' as u8, '0' as u8, '2' as u8] && d == seq!['0' as u8, 'x' as u8, '7' as u8, '3' as u8, 'e' as u8, '3' as u8] {
        Some(seq!['R' as u8, 'X' as u8, ' ' as u8, '6' as u8, '6' as u8, '0' as u8, '0' as u8])
    } else if v == seq!['0' as u8, 'x' as u8, '8' as u8, '0' as u8, '8' as u8, '6' as u8] && d == seq!['0' as u8, 'x' as u8, '5' as u8, '6' as u8, 'a' as u8, '0' as u8] {
        Some(seq!['A' as u8, 'r' as u8, 'c' as u8, ' ' as u8, 'A' as u8, '7' as u8, '7' as u8, '0' as u8])
    } else if v == seq!['0' as u8, 'x' as u8, '8' as u8, '0' as u8, '8' as u8, '6' as u8] && d == seq!['0' as u8, 'x' as u8, '5' as u8, '6' as u8, 'a' as u8, '1' as u8] {
        Some(seq!['A' as u8, 'r' as u8, 'c' as u8, ' ' as u8, 'A' as u8, '7' as u8, '5' as u8, '0' as u8])
    } else if v == seq!['0' as u8, 'x' as u8, '8' as u8, '0' as u8, '8' as u8, '6' as u8] && d == seq!['0' as u8, 'x' as u8, '5' as u8, '6' as u8, 'a' as u8, '5' as u8] {
        Some(seq!['A' as u8, 'r' as u8, 'c' as u8, ' ' as u8, 'A' as u8, '3' as u8, '8' as u8, '0' as u8])
    } else {
        None
    }
}

/// Vendor name of a PCI vendor ID.
pub open spec fn vendor_of(v: Seq<u8>) -> Option<Seq<u8>> {
    if v == seq!['0' as u8, 'x' as u8, '1' as u8, '0' as u8, 'd' as u8, 'e' as u8] {
        Some(seq!['N' as u8, 'V' as u8, 'I' as u8, 'D' as u8, 'I' as u8, 'A' as u8])
    } else if v == seq!['0' as u8, 'x' as u8, '1' as u8, '0' as u8, '0' as u8, '2' as u8] {
        Some(seq!['A' as u8, 'M' as u8, 'D' as u8])
    } else if v == seq!['0' as u8, 'x' as u8, '8' as u8, '0' as u8, '8' as u8, '6' as u8] {
        Some(seq!['I' as u8, 'n' as u8, 't' as u8, 'e' as u8, 'l' as u8])
    } else {
        None
    }
}

/// Marketing name of a known adapter, by PCI vendor and device ID.
pub fn gpu_model_name(vendor_id: &[u8], device_id: &[u8]) -> (r: Option<Vec<u8>>)
    ensures
        crate::text::opt_bytes(r) == model_of(vendor_id@, device_id@),
{
    let v0: [u8; 6] = ['0' as u8, 'x' as u8, '1' as u8, '0' as u8, '0' as u8, '2' as u8];
    assert(v0@ =~= seq!['0' as u8, 'x' as u8, '1' as u8, '0' as u8, '0' as u8, '2' as u8]);
    let v1: [u8; 6] = ['0' as u8, 'x' as u8, '1' as u8, '0' as u8, 'd' as u8, 'e' as u8];
    assert(v1@ =~= seq!['0' as u8, 'x' as u8, '1' as u8, '0' as u8, 'd' as u8, 'e' as u8]);
    let v2: [u8; 6] = ['0' as u8, 'x' as u8, '8' as u8, '0' as u8, '8' as u8, '6' as u8];
    assert(v2@ =~= seq!['0' as u8, 'x' as u8, '8' as u8, '0' as u8, '8' as u8, '6' as u8]);
    let d0: [u8; 6] = ['0' as u8, 'x' as u8, '2' as u8, '6' as u8, '8' as u8, '4' as u8];
    assert(d0@ =~= seq!['0' as u8, 'x' as u8, '2' as u8, '6' as u8, '8' as u8, '4' as u8]);
    let d1: [u8; 6] = ['0' as u8, 'x' as u8, '2' as u8, '7' as u8, '8' as u8, '2' as u8];
    assert(d1@ =~= seq!['0' as u8, 'x' as u8, '2' as u8, '7' as u8, '8' as u8, '2' as u8]);
    let d2: [u8; 6] = ['0' as u8, 'x' as u8, '2' as u8, '7' as u8, '8' as u8, '6' as u8];
    assert(d2@ =~= seq!['0' as u8, 'x' as u8, '2' as u8, '7' as u8, '8' as u8, '6' as u8]);
    let d3: [u8; 6] = ['0' as u8, 'x' as u8, '2' as u8, '7' as u8, '8' as u8, '8' as u8];
    assert(d3@ =~= seq!['0' as u8, 'x' as u8, '2' as u8, '7' as u8, '8' as u8, '8' as u8]);
    let d4: [u8; 6] = ['0' as u8, 'x' as u8, '2' as u8, '8' as u8, 'e' as u8, '0' as u8];
    assert(d4@ =~= seq!['0' as u8, 'x' as u8, '2' as u8, '8' as u8, 'e' as u8, '0' as u8]);
    let d5: [u8; 6] = ['0' as u8, 'x' as u8, '2' as u8, '2' as u8, '0' as u8, '4' as u8];
    assert(d5@ =~= seq!['0' as u8, 'x' as u8, '2' as u8, '2' as u8, '0' as u8, '4' as u8]);
    let d6: [u8; 6] = ['0' as u8, 'x' as u8, '2' as u8, '2' as u8, '0' as u8, '6' as u8];
    assert(d6@ =~= seq!['0' as u8, 'x' as u8, '2' as u8, '2' as u8, '0' as u8, '6' as u8]);
    let d7: [u8; 6] = ['0' as u8, 'x' as u8, '2' as u8, '4' as u8, '8' as u8, '4' as u8];
    assert(d7@ =~= seq!['0' as u8, 'x' as u8, '2' as u8, '4' as u8, '8' as u8, '4' as u8]);
    let d8: [u8; 6] = ['0' as u8, 'x' as u8, '2' as u8, '5' as u8, '0' as u8, '4' as u8];
    assert(d8@ =~= seq!['0' as u8, 'x' as u8, '2' as u8, '5' as u8, '0' as u8, '4' as u8]);
    let d9: [u8; 6] = ['0' as u8, 'x' as u8, '2' as u8, '4' as u8, '8' as u8, '7' as u8];
    assert(d9@ =~= seq!['0' as u8, 'x' as u8, '2' as u8, '4' as u8, '8' as u8, '7' as u8]);
    let d10: [u8; 6] = ['0' as u8, 'x' as u8, '1' as u8, 'e' as u8, '0' as u8, '4' as u8];
    assert(d10@ =~= seq!['0' as u8, 'x' as u8, '1' as u8, 'e' as u8, '0' as u8, '4' as u8]);
    let d11: [u8; 6] = ['0' as u8, 'x' as u8, '1' as u8, 'e' as u8, '0' as u8, '7' as u8];
    assert(d11@ =~= seq!['0' as u8, 'x' as u8, '1' as u8, 'e' as u8, '0' as u8, '7' as u8]);
    let d12: [u8; 6] = ['0' as u8, 'x' as u8, '1' as u8, 'f' as u8, '0' as u8, '2' as u8];
    assert(d12@ =~= seq!['0' as u8, 'x' as u8, '1' as u8, 'f' as u8, '0' as u8, '2' as u8]);
    let d13: [u8; 6] = ['0' as u8, 'x' as u8, '1' as u8, 'f' as u8, '0' as u8, '6' as u8];
    assert(d13@ =~= seq!['0' as u8, 'x' as u8, '1' as u8, 'f' as u8, '0' as u8, '6' as u8]);
    let d14: [u8; 6] = ['0' as u8, 'x' as u8, '2' as u8, '1' as u8, '8' as u8, '2' as u8];
    assert(d14@ =~= seq!['0' as u8, 'x' as u8, '2' as u8, '1' as u8, '8' as u8, '2' as u8]);
    let d15: [u8; 6] = ['0' as u8, 'x' as u8, '2' as u8, '1' as u8, 'c' as u8, '4' as u8];
    assert(d15@ =~= seq!['0' as u8, 'x' as u8, '2' as u8, '1' as u8, 'c' as u8, '4' as u8]);
    let d16: [u8; 6] = ['0' as u8, 'x' as u8, '1' as u8, 'f' as u8, '8' as u8, '2' as u8];
    assert(d16@ =~= seq!['0' as u8, 'x' as u8, '1' as u8, 'f' as u8, '8' as u8, '2' as u8]);
    let d17: [u8; 6] = ['0' as u8, 'x' as u8, '7' as u8, '4' as u8, '4' as u8, 'c' as u8];
    assert(d17@ =~= seq!['0' as u8, 'x' as u8, '7' as u8, '4' as u8, '4' as u8, 'c' as u8]);
    let d18: [u8; 6] = ['0' as u8, 'x' as u8, '7' as u8, '4' as u8, '4' as u8, '8' as u8];
    assert(d18@ =~= seq!['0' as u8, 'x' as u8, '7' as u8, '4' as u8, '4' as u8, '8' as u8]);
    let d19: [u8; 6] = ['0' as u8, 'x' as u8, '7' as u8, '4' as u8, '7' as u8, 'e' as u8];
    assert(d19@ =~= seq!['0' as u8, 'x' as u8, '7' as u8, '4' as u8, '7' as u8, 'e' as u8]);
    let d20: [u8; 6] = ['0' as u8, 'x' as u8, '7' as u8, '4' as u8, '7' as u8, '9' as u8];
    assert(d20@ =~= seq!['0' as u8, 'x' as u8, '7' as u8, '4' as u8, '7' as u8, '9' as u8]);
    let d21: [u8; 6] = ['0' as u8, 'x' as u8, '7' as u8, '3' as u8, 'b' as u8, 'f' as u8];
    assert(d21@ =~= seq!['0' as u8, 'x' as u8, '7' as u8, '3' as u8, 'b' as u8, 'f' as u8]);
    let d22: [u8; 6] = ['0' as u8, 'x' as u8, '7' as u8, '3' as u8, 'd' as u8, 'f' as u8];
    assert(d22@ =~= seq!['0' as u8, 'x' as u8, '7' as u8, '3' as u8, 'd' as u8, 'f' as u8]);
    let d23: [u8; 6] = ['0' as u8, 'x' as u8, '7' as u8, '3' as u8, 'e' as u8, 'f' as u8];
    assert(d23@ =~= seq!['0' as u8, 'x' as u8, '7' as u8, '3' as u8, 'e' as u8, 'f' as u8]);
    let d24: [u8; 6] = ['0' as u8, 'x' as u8, '7' as u8, '3' as u8, 'f' as u8, 'f' as u8];
    assert(d24@ =~= seq!['0' as u8, 'x' as u8, '7' as u8, '3' as u8, 'f' as u8, 'f' as u8]);
    let d25: [u8; 6] = ['0' as u8, 'x' as u8, '7' as u8, '4' as u8, '2' as u8, '1' as u8];
    assert(d25@ =~= seq!['0' as u8, 'x' as u8, '7' as u8, '4' as u8, '2' as u8, '1' as u8]);
    let d26: [u8; 6] = ['0' as u8, 'x' as u8, '7' as u8, '3' as u8, 'e' as u8, '3' as u8];
    assert(d26@ =~= seq!['0' as u8, 'x' as u8, '7' as u8, '3' as u8, 'e' as u8, '3' as u8]);
    let d27: [u8; 6] = ['0' as u8, 'x' as u8, '5' as u8, '6' as u8, 'a' as u8, '0' as u8];
    assert(d27@ =~= seq!['0' as u8, 'x' as u8, '5' as u8, '6' as u8, 'a' as u8, '0' as u8]);
    let d28: [u8; 6] = ['0' as u8, 'x' as u8, '5' as u8, '6' as u8, 'a' as u8, '1' as u8];
    assert(d28@ =~= seq!['0' as u8, 'x' as u8, '5' as u8, '6' as u8, 'a' as u8, '1' as u8]);
    let d29: [u8; 6] = ['0' as u8, 'x' as u8, '5' as u8, '6' as u8, 'a' as u8, '5' as u8];
    assert(d29@ =~= seq!['0' as u8, 'x' as u8, '5' as u8, '6' as u8, 'a' as u8, '5' as u8]);
    if same_bytes(vendor_id, &v1) && same_bytes(device_id, &d0) {
        let t: Vec<u8> = vec!['R' as u8, 'T' as u8, 'X' as u8, ' ' as u8, '4' as u8, '0' as u8, '9' as u8, '0' as u8];
        assert(t@ =~= seq!['R' as u8, 'T' as u8, 'X' as u8, ' ' as u8, '4' as u8, '0' as u8, '9' as u8, '0' as u8]);
        return Some(t);
    }
    if same_bytes(vendor_id, &v1) && same_bytes(device_id, &d1) {
        let t: Vec<u8> = vec![
            'R' as u8, 'T' as u8, 'X' as u8, ' ' as u8, '4' as u8, '0' as u8, '7' as u8, '0' as u8,
            ' ' as u8, 'T' as u8, 'i' as u8,
        ];
        assert(t@ =~= seq![
            'R' as u8, 'T' as u8, 'X' as u8, ' ' as u8, '4' as u8, '0' as u8, '7' as u8, '0' as u8,
            ' ' as u8, 'T' as u8, 'i' as u8,
        ]);
        return Some(t);
    }
    if same_bytes(vendor_id, &v1) && same_bytes(device_id, &d2) {
        let t: Vec<u8> = vec!['R' as u8, 'T' as u8, 'X' as u8, ' ' as u8, '4' as u8, '0' as u8, '7' as u8, '0' as u8];
        assert(t@ =~= seq!['R' as u8, 'T' as u8, 'X' as u8, ' ' as u8, '4' as u8, '0' as u8, '7' as u8, '0' as u8]);
        return Some(t);
    }
    if same_bytes(vendor_id, &v1) && same_bytes(device_id, &d3) {
        let t: Vec<u8> = vec![
            'R' as u8, 'T' as u8, 'X' as u8, ' ' as u8, '4' as u8, '0' as u8, '6' as u8, '0' as u8,
            ' ' as u8, 'T' as u8, 'i' as u8,
        ];
        assert(t@ =~= seq![
            'R' as u8, 'T' as u8, 'X' as u8, ' ' as u8, '4' as u8, '0' as u8, '6' as u8, '0' as u8,
            ' ' as u8, 'T' as u8, 'i' as u8,
        ]);
        return Some(t);
    }
    if same_bytes(vendor_id, &v1) && same_bytes(device_id, &d4) {
        let t: Vec<u8> = vec!['R' as u8, 'T' as u8, 'X' as u8, ' ' as u8, '4' as u8, '0' as u8, '6' as u8, '0' as u8];
        assert(t@ =~= seq!['R' as u8, 'T' as u8, 'X' as u8, ' ' as u8, '4' as u8, '0' as u8, '6' as u8, '0' as u8]);
        return Some(t);
    }
    if same_bytes(vendor_id, &v1) && same_bytes(device_id, &d5) {
        let t: Vec<u8> = vec!['R' as u8, 'T' as u8, 'X' as u8, ' ' as u8, '3' as u8, '0' as u8, '9' as u8, '0' as u8];
        assert(t@ =~= seq!['R' as u8, 'T' as u8, 'X' as u8, ' ' as u8, '3' as u8, '0' as u8, '9' as u8, '0' as u8]);
        return Some(t);
    }
    if same_bytes(vendor_id, &v1) && same_bytes(device_id, &d6) {
        let t: Vec<u8> = vec!['R' as u8, 'T' as u8, 'X' as u8, ' ' as u8, '3' as u8, '0' as u8, '8' as u8, '0' as u8];
        assert(t@ =~= seq!['R' as u8, 'T' as u8, 'X' as u8, ' ' as u8, '3' as u8, '0' as u8, '8' as u8, '0' as u8]);
        return Some(t);
    }
    if same_bytes(vendor_id, &v1) && same_bytes(device_id, &d7) {
        let t: Vec<u8> = vec!['R' as u8, 'T' as u8, 'X' as u8, ' ' as u8, '3' as u8, '0' as u8, '7' as u8, '0' as u8];
        assert(t@ =~= seq!['R' as u8, 'T' as u8, 'X' as u8, ' ' as u8, '3' as u8, '0' as u8, '7' as u8, '0' as u8]);
        return Some(t);
    }
    if same_bytes(vendor_id, &v1) && same_bytes(device_id, &d8) {
        let t: Vec<u8> = vec!['R' as u8, 'T' as u8, 'X' as u8, ' ' as u8, '3' as u8, '0' as u8, '6' as u8, '0' as u8];
        assert(t@ =~= seq!['R' as u8, 'T' as u8, 'X' as u8, ' ' as u8, '3' as u8, '0' as u8, '6' as u8, '0' as u8]);
        return Some(t);
    }
    if same_bytes(vendor_id, &v1) && same_bytes(device_id, &d9) {
        let t: Vec<u8> = vec![
            'R' as u8, 'T' as u8, 'X' as u8, ' ' as u8, '3' as u8, '0' as u8, '6' as u8, '0' as u8,
            ' ' as u8, 'T' as u8, 'i' as u8,
        ];
        assert(t@ =~= seq![
            'R' as u8, 'T' as u8, 'X' as u8, ' ' as u8, '3' as u8, '0' as u8, '6' as u8, '0' as u8,
            ' ' as u8, 'T' as u8, 'i' as u8,
        ]);
        return Some(t);
    }
    if same_bytes(vendor_id, &v1) && same_bytes(device_id, &d10) {
        let t: Vec<u8> = vec![
            'R' as u8, 'T' as u8, 'X' as u8, ' ' as u8, '2' as u8, '0' as u8, '8' as u8, '0' as u8,
            ' ' as u8, 'T' as u8, 'i' as u8,
        ];
        assert(t@ =~= seq![
            'R' as u8, 'T' as u8, 'X' as u8, ' ' as u8, '2' as u8, '0' as u8, '8' as u8, '0' as u8,
            ' ' as u8, 'T' as u8, 'i' as u8,
        ]);
        return Some(t);
    }
    if same_bytes(vendor_id, &v1) && same_bytes(device_id, &d11) {
        let t: Vec<u8> = vec!['R' as u8, 'T' as u8, 'X' as u8, ' ' as u8, '2' as u8, '0' as u8, '8' as u8, '0' as u8];
        assert(t@ =~= seq!['R' as u8, 'T' as u8, 'X' as u8, ' ' as u8, '2' as u8, '0' as u8, '8' as u8, '0' as u8]);
        return Some(t);
    }
    if same_bytes(vendor_id, &v1) && same_bytes(device_id, &d12) {
        let t: Vec<u8> = vec!['R' as u8, 'T' as u8, 'X' as u8, ' ' as u8, '2' as u8, '0' as u8, '7' as u8, '0' as u8];
        assert(t@ =~= seq!['R' as u8, 'T' as u8, 'X' as u8, ' ' as u8, '2' as u8, '0' as u8, '7' as u8, '0' as u8]);
        return Some(t);
    }
    if same_bytes(vendor_id, &v1) && same_bytes(device_id, &d13) {
        let t: Vec<u8> = vec!['R' as u8, 'T' as u8, 'X' as u8, ' ' as u8, '2' as u8, '0' as u8, '6' as u8, '0' as u8];
        assert(t@ =~= seq!['R' as u8, 'T' as u8, 'X' as u8, ' ' as u8, '2' as u8, '0' as u8, '6' as u8, '0' as u8]);
        return Some(t);
    }
    if same_bytes(vendor_id, &v1) && same_bytes(device_id, &d14) {
        let t: Vec<u8> = vec![
            'G' as u8, 'T' as u8, 'X' as u8, ' ' as u8, '1' as u8, '6' as u8, '6' as u8, '0' as u8,
            ' ' as u8, 'T' as u8, 'i' as u8,
        ];
        assert(t@ =~= seq![
            'G' as u8, 'T' as u8, 'X' as u8, ' ' as u8, '1' as u8, '6' as u8, '6' as u8, '0' as u8,
            ' ' as u8, 'T' as u8, 'i' as u8,
        ]);
        return Some(t);
    }
    if same_bytes(vendor_id, &v1) && same_bytes(device_id, &d15) {
        let t: Vec<u8> = vec!['G' as u8, 'T' as u8, 'X' as u8, ' ' as u8, '1' as u8, '6' as u8, '6' as u8, '0' as u8];
        assert(t@ =~= seq!['G' as u8, 'T' as u8, 'X' as u8, ' ' as u8, '1' as u8, '6' as u8, '6' as u8, '0' as u8]);
        return Some(t);
    }
    if same_bytes(vendor_id, &v1) && same_bytes(device_id, &d16) {
        let t: Vec<u8> = vec!['G' as u8, 'T' as u8, 'X' as u8, ' ' as u8, '1' as u8, '6' as u8, '5' as u8, '0' as u8];
        assert(t@ =~= seq!['G' as u8, 'T' as u8, 'X' as u8, ' ' as u8, '1' as u8, '6' as u8, '5' as u8, '0' as u8]);
        return Some(t);
    }
    if same_bytes(vendor_id, &v0) && same_bytes(device_id, &d17) {
        let t: Vec<u8> = vec![
            'R' as u8, 'X' as u8, ' ' as u8, '7' as u8, '9' as u8, '0' as u8, '0' as u8, ' ' as u8,
            'X' as u8, 'T' as u8, 'X' as u8,
        ];
        assert(t@ =~= seq![
            'R' as u8, 'X' as u8, ' ' as u8, '7' as u8, '9' as u8, '0' as u8, '0' as u8, ' ' as u8,
            'X' as u8, 'T' as u8, 'X' as u8,
        ]);
        return Some(t);
    }
    if same_bytes(vendor_id, &v0) && same_bytes(device_id, &d18) {
        let t: Vec<u8> = vec![
            'R' as u8, 'X' as u8, ' ' as u8, '7' as u8, '9' as u8, '0' as u8, '0' as u8, ' ' as u8,
            'X' as u8, 'T' as u8,
        ];
        assert(t@ =~= seq![
            'R' as u8, 'X' as u8, ' ' as u8, '7' as u8, '9' as u8, '0' as u8, '0' as u8, ' ' as u8,
            'X' as u8, 'T' as u8,
        ]);
        return Some(t);
    }
    if same_bytes(vendor_id, &v0) && same_bytes(device_id, &d19) {
        let t: Vec<u8> = vec![
            'R' as u8, 'X' as u8, ' ' as u8, '7' as u8, '8' as u8, '0' as u8, '0' as u8, ' ' as u8,
            'X' as u8, 'T' as u8,
        ];
        assert(t@ =~= seq![
            'R' as u8, 'X' as u8, ' ' as u8, '7' as u8, '8' as u8, '0' as u8, '0' as u8, ' ' as u8,
            'X' as u8, 'T' as u8,
        ]);
        return Some(t);
    }
    if same_bytes(vendor_id, &v0) && same_bytes(device_id, &d20) {
        let t: Vec<u8> = vec![
            'R' as u8, 'X' as u8, ' ' as u8, '7' as u8, '7' as u8, '0' as u8, '0' as u8, ' ' as u8,
            'X' as u8, 'T' as u8,
        ];
        assert(t@ =~= seq![
            'R' as u8, 'X' as u8, ' ' as u8, '7' as u8, '7' as u8, '0' as u8, '0' as u8, ' ' as u8,
            'X' as u8, 'T' as u8,
        ]);
        return Some(t);
    }
    if same_bytes(vendor_id, &v0) && same_bytes(device_id, &d21) {
        let t: Vec<u8> = vec![
            'R' as u8, 'X' as u8, ' ' as u8, '6' as u8, '9' as u8, '0' as u8, '0' as u8, ' ' as u8,
            'X' as u8, 'T' as u8,
        ];
        assert(t@ =~= seq![
            'R' as u8, 'X' as u8, ' ' as u8, '6' as u8, '9' as u8, '0' as u8, '0' as u8, ' ' as u8,
            'X' as u8, 'T' as u8,
        ]);
        return Some(t);
    }
    if same_bytes(vendor_id, &v0) && same_bytes(device_id, &d22) {
        let t: Vec<u8> = vec![
            'R' as u8, 'X' as u8, ' ' as u8, '6' as u8, '8' as u8, '0' as u8, '0' as u8, ' ' as u8,
            'X' as u8, 'T' as u8,
        ];
        assert(t@ =~= seq![
            'R' as u8, 'X' as u8, ' ' as u8, '6' as u8, '8' as u8, '0' as u8, '0' as u8, ' ' as u8,
            'X' as u8, 'T' as u8,
        ]);
        return Some(t);
    }
    if same_bytes(vendor_id, &v0) && same_bytes(device_id, &d23) {
        let t: Vec<u8> = vec!['R' as u8, 'X' as u8, ' ' as u8, '6' as u8, '8' as u8, '0' as u8, '0' as u8];
        assert(t@ =~= seq!['R' as u8, 'X' as u8, ' ' as u8, '6' as u8, '8' as u8, '0' as u8, '0' as u8]);
        return Some(t);
    }
    if same_bytes(vendor_id, &v0) && same_bytes(device_id, &d24) {
        let t: Vec<u8> = vec![
            'R' as u8, 'X' as u8, ' ' as u8, '6' as u8, '7' as u8, '0' as u8, '0' as u8, ' ' as u8,
            'X' as u8, 'T' as u8,
        ];
        assert(t@ =~= seq![
            'R' as u8, 'X' as u8, ' ' as u8, '6' as u8, '7' as u8, '0' as u8, '0' as u8, ' ' as u8,
            'X' as u8, 'T' as u8,
        ]);
        return Some(t);
    }
    if same_bytes(vendor_id, &v0) && same_bytes(device_id, &d25) {
        let t: Vec<u8> = vec![
            'R' as u8, 'X' as u8, ' ' as u8, '6' as u8, '6' as u8, '0' as u8, '0' as u8, ' ' as u8,
            'X' as u8, 'T' as u8,
        ];
        assert(t@ =~= seq![
            'R' as u8, 'X' as u8, ' ' as u8, '6' as u8, '6' as u8, '0' as u8, '0' as u8, ' ' as u8,
            'X' as u8, 'T' as u8,
        ]);
        return Some(t);
    }
    if same_bytes(vendor_id, &v0) && same_bytes(device_id, &d26) {
        let t: Vec<u8> = vec!['R' as u8, 'X' as u8, ' ' as u8, '6' as u8, '6' as u8, '0' as u8, '0' as u8];
        assert(t@ =~= seq!['R' as u8, 'X' as u8, ' ' as u8, '6' as u8, '6' as u8, '0' as u8, '0' as u8]);
        return Some(t);
    }
    if same_bytes(vendor_id, &v2) && same_bytes(device_id, &d27) {
        let t: Vec<u8> = vec!['A' as u8, 'r' as u8, 'c' as u8, ' ' as u8, 'A' as u8, '7' as u8, '7' as u8, '0' as u8];
        assert(t@ =~= seq!['A' as u8, 'r' as u8, 'c' as u8, ' ' as u8, 'A' as u8, '7' as u8, '7' as u8, '0' as u8]);
        return Some(t);
    }
    if same_bytes(vendor_id, &v2) && same_bytes(device_id, &d28) {
        let t: Vec<u8> = vec!['A' as u8, 'r' as u8, 'c' as u8, ' ' as u8, 'A' as u8, '7' as u8, '5' as u8, '0' as u8];
        assert(t@ =~= seq!['A' as u8, 'r' as u8, 'c' as u8, ' ' as u8, 'A' as u8, '7' as u8, '5' as u8, '0' as u8]);
        return Some(t);
    }
    if same_bytes(vendor_id, &v2) && same_bytes(device_id, &d29) {
        let t: Vec<u8> = vec!['A' as u8, 'r' as u8, 'c' as u8, ' ' as u8, 'A' as u8, '3' as u8, '8' as u8, '0' as u8];
        assert(t@ =~= seq!['A' as u8, 'r' as u8, 'c' as u8, ' ' as u8, 'A' as u8, '3' as u8, '8' as u8, '0' as u8]);
        return Some(t);
    }
    None
}

/// Vendor name of a PCI vendor ID.
pub fn vendor_name_of(vendor_id: &[u8]) -> (r: Option<Vec<u8>>)
    ensures
        crate::text::opt_bytes(r) == vendor_of(vendor_id@),
{
    let v0: [u8; 6] = ['0' as u8, 'x' as u8, '1' as u8, '0' as u8, 'd' as u8, 'e' as u8];
    assert(v0@ =~= seq!['0' as u8, 'x' as u8, '1' as u8, '0' as u8, 'd' as u8, 'e' as u8]);
    if same_bytes(vendor_id, &v0) {
        let t: Vec<u8> = vec!['N' as u8, 'V' as u8, 'I' as u8, 'D' as u8, 'I' as u8, 'A' as u8];
        assert(t@ =~= seq!['N' as u8, 'V' as u8, 'I' as u8, 'D' as u8, 'I' as u8, 'A' as u8]);
        return Some(t);
    }
    let v1: [u8; 6] = ['0' as u8, 'x' as u8, '1' as u8, '0' as u8, '0' as u8, '2' as u8];
    assert(v1@ =~= seq!['0' as u8, 'x' as u8, '1' as u8, '0' as u8, '0' as u8, '2' as u8]);
    if same_bytes(vendor_id, &v1) {
        let t: Vec<u8> = vec!['A' as u8, 'M' as u8, 'D' as u8];
        assert(t@ =~= seq!['A' as u8, 'M' as u8, 'D' as u8]);
        return Some(t);
    }
    let v2: [u8; 6] = ['0' as u8, 'x' as u8, '8' as u8, '0' as u8, '8' as u8, '6' as u8];
    assert(v2@ =~= seq!['0' as u8, 'x' as u8, '8' as u8, '0' as u8, '8' as u8, '6' as u8]);
    if same_bytes(vendor_id, &v2) {
        let t: Vec<u8> = vec!['I' as u8, 'n' as u8, 't' as u8, 'e' as u8, 'l' as u8];
        assert(t@ =~= seq!['I' as u8, 'n' as u8, 't' as u8, 'e' as u8, 'l' as u8]);
        return Some(t);
    }
    None
}

/// Name of adapter `card` from its PCI IDs, when they could be read:
/// vendor and model for a known device, else vendor and card number, else
/// the card number alone.
pub open spec fn card_name_of(card: u8, ids: Option<(Seq<u8>, Seq<u8>)>) -> Seq<u8> {
    match ids {
        Some((v, d)) => match model_of(v, d) {
            Some(m) => vendor_of(v)->Some_0 + seq![0x20u8] + m,
            None => match vendor_of(v) {
                Some(n) => n + seq![' ' as u8, 'C' as u8, 'a' as u8, 'r' as u8, 'd' as u8, ' ' as u8] + decimal(card as nat),
                None => seq![
                    'U' as u8, 'n' as u8, 'k' as u8, 'n' as u8, 'o' as u8, 'w' as u8, 'n' as u8, ' ' as u8,
                    'G' as u8, 'P' as u8, 'U' as u8, ' ' as u8, 'C' as u8, 'a' as u8, 'r' as u8, 'd' as u8,
                    ' ' as u8,
                ] + decimal(card as nat),
            },
        },
        None => seq!['C' as u8, 'a' as u8, 'r' as u8, 'd' as u8, ' ' as u8] + decimal(card as nat),
    }
}

proof fn lemma_model_has_vendor(v: Seq<u8>, d: Seq<u8>)
    ensures
        model_of(v, d) is Some ==> vendor_of(v) is Some,
{
}

/// Name of adapter `card` from its PCI vendor and device IDs.
pub fn gpu_name_from_ids(card: u8, ids: Option<(&[u8], &[u8])>) -> (r: String)
    ensures
        r@ == lossy_text(card_name_of(card, match ids {
            Some((v, d)) => Some((v@, d@)),
            None => None,
        })),
{
    let mut out: Vec<u8> = match ids {
        Some((v, d)) => match gpu_model_name(v, d) {
            Some(mut m) => {
                proof {
                    lemma_model_has_vendor(v@, d@);
                }
                let mut n = vendor_name_of(v).unwrap();
                let mut sp: Vec<u8> = vec![0x20];
                n.append(&mut sp);
                n.append(&mut m);
                n
            },
            None => {
                let mut n = match vendor_name_of(v) {
                    Some(mut n) => {
                        let mut t: Vec<u8> = vec![' ' as u8, 'C' as u8, 'a' as u8, 'r' as u8, 'd' as u8, ' ' as u8];
                        n.append(&mut t);
                        n
                    },
                    None => vec![
                        'U' as u8, 'n' as u8, 'k' as u8, 'n' as u8, 'o' as u8, 'w' as u8, 'n' as u8, ' ' as u8,
                        'G' as u8, 'P' as u8, 'U' as u8, ' ' as u8, 'C' as u8, 'a' as u8, 'r' as u8, 'd' as u8,
                        ' ' as u8,
                    ],
                };
                let mut num = decimal_bytes(card as u64);
                n.append(&mut num);
                n
            },
        },
        None => {
            let mut n: Vec<u8> = vec!['C' as u8, 'a' as u8, 'r' as u8, 'd' as u8, ' ' as u8];
            let mut num = decimal_bytes(card as u64);
            n.append(&mut num);
            n
        },
    };
    proof {
        let ghost_ids = match ids {
            Some((v, d)) => Some((v@, d@)),
            None => None::<(Seq<u8>, Seq<u8>)>,
        };
        assert(out@ =~= card_name_of(card, ghost_ids));
    }
    text_of(out.as_slice())
}


/// Index just after the last ` [` in `s[..i]`, or 0.
pub open spec fn after_last_bracket(s: Seq<u8>, i: nat) -> nat
    decreases i,
{
    if i < 2 || i > s.len() {
        0
    } else if s[i - 2] == 0x20 && s[i - 1] == '[' as u8 {
        i
    } else {
        after_last_bracket(s, (i - 1) as nat)
    }
}

/// Vendor named in the text before a device's bracketed model.
pub open spec fn lspci_vendor(t: Seq<u8>) -> Seq<u8> {
    if contains(t, seq!['N' as u8, 'V' as u8, 'I' as u8, 'D' as u8, 'I' as u8, 'A' as u8]) {
        seq!['N' as u8, 'V' as u8, 'I' as u8, 'D' as u8, 'I' as u8, 'A' as u8]
    } else if contains(t, seq!['A' as u8, 'M' as u8, 'D' as u8]) || contains(t, seq!['A' as u8, 'T' as u8, 'I' as u8]) {
        seq!['A' as u8, 'M' as u8, 'D' as u8]
    } else if contains(t, seq!['I' as u8, 'n' as u8, 't' as u8, 'e' as u8, 'l' as u8]) {
        seq!['I' as u8, 'n' as u8, 't' as u8, 'e' as u8, 'l' as u8]
    } else {
        seq!['U' as u8, 'n' as u8, 'k' as u8, 'n' as u8, 'o' as u8, 'w' as u8, 'n' as u8]
    }
}

/// Adapter name of an `lspci -nn` line for a display controller: the vendor
/// and the first bracketed text after `: `.
pub open spec fn lspci_line_name(line: Seq<u8>) -> Option<Seq<u8>> {
    if !(contains(line, seq![
        'V' as u8, 'G' as u8, 'A' as u8, ' ' as u8, 'c' as u8, 'o' as u8, 'm' as u8, 'p' as u8,
        'a' as u8, 't' as u8, 'i' as u8, 'b' as u8, 'l' as u8, 'e' as u8, ' ' as u8, 'c' as u8,
        'o' as u8, 'n' as u8, 't' as u8, 'r' as u8, 'o' as u8, 'l' as u8, 'l' as u8, 'e' as u8,
        'r' as u8,
    ]) || contains(line, seq![
        'D' as u8, 'i' as u8, 's' as u8, 'p' as u8, 'l' as u8, 'a' as u8, 'y' as u8, ' ' as u8,
        'c' as u8, 'o' as u8, 'n' as u8, 't' as u8, 'r' as u8, 'o' as u8, 'l' as u8, 'l' as u8,
        'e' as u8, 'r' as u8,
    ])) {
        None
    } else {
        match find_from(line, seq![':' as u8, ' ' as u8], 0) {
            None => None,
            Some(c) => {
                let part = line.subrange((c + 2) as int, line.len() as int);
                let last = part.subrange(after_last_bracket(part, part.len()) as int, part.len() as int);
                let last_name = trim_spaces(last.subrange(0, match find_byte(last, ']' as u8, 0) {
                    Some(e) => e as int,
                    None => last.len() as int,
                }));
                match (find_byte(part, '[' as u8, 0), find_byte(part, ']' as u8, 0)) {
                    (Some(b), Some(e)) => if last_name.len() > 0 && b < e && b + 1 < e {
                        Some(lspci_vendor(trim_spaces(part.subrange(0, b as int))) + seq![0x20u8] + part.subrange((b + 1) as int, e as int))
                    } else {
                        None
                    },
                    _ => None,
                }
            },
        }
    }
}

/// The first display-controller name in `lspci -nn` output, reading from
/// the line that starts at `i`.
pub open spec fn lspci_name_from(s: Seq<u8>, i: nat) -> Option<Seq<u8>>
    decreases s.len() - i,
{
    if i >= s.len() {
        None
    } else {
        let e = line_end(s, i);
        let end = if e < i || e >= s.len() { s.len() } else { e };
        match lspci_line_name(s.subrange(i as int, end as int)) {
            Some(n) => Some(n),
            None => if e < i || e >= s.len() { None } else { lspci_name_from(s, e + 1) },
        }
    }
}

fn contains_bytes(s: &[u8], pat: &[u8]) -> (r: bool)
    ensures
        r == contains(s@, pat@),
{
    find_pattern(s, pat, 0).is_some()
}

fn after_last_bracket_index(s: &[u8]) -> (r: usize)
    ensures
        r as nat == after_last_bracket(s@, s@.len()),
        r <= s@.len(),
{
    let mut i: usize = s.len();
    while i >= 2 && !(s[i - 2] == 0x20 && s[i - 1] == '[' as u8)
        invariant
            i <= s@.len(),
            after_last_bracket(s@, s@.len()) == after_last_bracket(s@, i as nat),
        decreases i,
    {
        i = i - 1;
    }
    if i < 2 {
        0
    } else {
        i
    }
}

fn lspci_vendor_bytes(t: &[u8]) -> (r: Vec<u8>)
    ensures
        r@ == lspci_vendor(t@),
{
    let nv: [u8; 6] = ['N' as u8, 'V' as u8, 'I' as u8, 'D' as u8, 'I' as u8, 'A' as u8];
    let amd: [u8; 3] = ['A' as u8, 'M' as u8, 'D' as u8];
    let ati: [u8; 3] = ['A' as u8, 'T' as u8, 'I' as u8];
    let intel: [u8; 5] = ['I' as u8, 'n' as u8, 't' as u8, 'e' as u8, 'l' as u8];
    assert(nv@ =~= seq!['N' as u8, 'V' as u8, 'I' as u8, 'D' as u8, 'I' as u8, 'A' as u8]);
    assert(amd@ =~= seq!['A' as u8, 'M' as u8, 'D' as u8]);
    assert(ati@ =~= seq!['A' as u8, 'T' as u8, 'I' as u8]);
    assert(intel@ =~= seq!['I' as u8, 'n' as u8, 't' as u8, 'e' as u8, 'l' as u8]);
    if contains_bytes(t, &nv) {
        slice_vec(&nv)
    } else if contains_bytes(t, &amd) || contains_bytes(t, &ati) {
        slice_vec(&amd)
    } else if contains_bytes(t, &intel) {
        slice_vec(&intel)
    } else {
        let u: Vec<u8> = vec!['U' as u8, 'n' as u8, 'k' as u8, 'n' as u8, 'o' as u8, 'w' as u8, 'n' as u8];
        assert(u@ =~= seq!['U' as u8, 'n' as u8, 'k' as u8, 'n' as u8, 'o' as u8, 'w' as u8, 'n' as u8]);
        u
    }
}

fn slice_vec(s: &[u8]) -> (r: Vec<u8>)
    ensures
        r@ == s@,
{
    vstd::slice::slice_to_vec(s)
}

/// Adapter name of one `lspci -nn` line, if it describes a display
/// controller.
pub fn lspci_line_gpu_name(line: &[u8]) -> (r: Option<Vec<u8>>)
    ensures
        crate::text::opt_bytes(r) == lspci_line_name(line@),
{
    let vga: [u8; 25] = [
        'V' as u8, 'G' as u8, 'A' as u8, ' ' as u8, 'c' as u8, 'o' as u8, 'm' as u8, 'p' as u8,
        'a' as u8, 't' as u8, 'i' as u8, 'b' as u8, 'l' as u8, 'e' as u8, ' ' as u8, 'c' as u8,
        'o' as u8, 'n' as u8, 't' as u8, 'r' as u8, 'o' as u8, 'l' as u8, 'l' as u8, 'e' as u8,
        'r' as u8,
    ];
    let disp: [u8; 18] = [
        'D' as u8, 'i' as u8, 's' as u8, 'p' as u8, 'l' as u8, 'a' as u8, 'y' as u8, ' ' as u8,
        'c' as u8, 'o' as u8, 'n' as u8, 't' as u8, 'r' as u8, 'o' as u8, 'l' as u8, 'l' as u8,
        'e' as u8, 'r' as u8,
    ];
    let sep: [u8; 2] = [':' as u8, ' ' as u8];
    assert(vga@ =~= seq![
        'V' as u8, 'G' as u8, 'A' as u8, ' ' as u8, 'c' as u8, 'o' as u8, 'm' as u8, 'p' as u8,
        'a' as u8, 't' as u8, 'i' as u8, 'b' as u8, 'l' as u8, 'e' as u8, ' ' as u8, 'c' as u8,
        'o' as u8, 'n' as u8, 't' as u8, 'r' as u8, 'o' as u8, 'l' as u8, 'l' as u8, 'e' as u8,
        'r' as u8,
    ]);
    assert(disp@ =~= seq![
        'D' as u8, 'i' as u8, 's' as u8, 'p' as u8, 'l' as u8, 'a' as u8, 'y' as u8, ' ' as u8,
        'c' as u8, 'o' as u8, 'n' as u8, 't' as u8, 'r' as u8, 'o' as u8, 'l' as u8, 'l' as u8,
        'e' as u8, 'r' as u8,
    ]);
    assert(sep@ =~= seq![':' as u8, ' ' as u8]);
    if !(contains_bytes(line, &vga) || contains_bytes(line, &disp)) {
        return None;
    }
    let c = match find_pattern(line, &sep, 0) {
        Some(c) => c,
        None => {
            return None;
        },
    };
    let len: usize = line.len();
    assert(c + 2 <= len);
    let part = &line[c + 2..len];
    let ls = after_last_bracket_index(part);
    let last = &part[ls..part.len()];
    let le: usize = match find_byte_from(last, ']' as u8, 0) {
        Some(e) => e,
        None => last.len(),
    };
    let (lo, hi) = trim_bounds(&last[0..le]);
    let b = match find_byte_from(part, '[' as u8, 0) {
        Some(b) => b,
        None => {
            return None;
        },
    };
    let e = match find_byte_from(part, ']' as u8, 0) {
        Some(e) => e,
        None => {
            return None;
        },
    };
    if hi == lo || b >= e || b + 1 >= e {
        return None;
    }
    let (vlo, vhi) = trim_bounds(&part[0..b]);
    let head = &part[0..b];
    let mut out = lspci_vendor_bytes(&head[vlo..vhi]);
    let mut sp: Vec<u8> = vec![0x20];
    out.append(&mut sp);
    let mut model = slice_vec(&part[b + 1..e]);
    out.append(&mut model);
    Some(out)
}

/// The first display-controller name in `lspci -nn` output.
pub fn gpu_name_from_lspci(text: &[u8]) -> (r: Option<String>)
    ensures
        crate::text::opt_text(r) == match lspci_name_from(text@, 0) {
            Some(n) => Some(lossy_text(n)),
            None => None,
        },
{
    let mut i: usize = 0;
    while i < text.len()
        invariant
            i <= text@.len(),
            lspci_name_from(text@, 0) == lspci_name_from(text@, i as nat),
        decreases text@.len() - i,
    {
        let e: usize = match find_byte_from(text, '\n' as u8, i) {
            Some(e) => e,
            None => text.len(),
        };
        match lspci_line_gpu_name(&text[i..e]) {
            Some(n) => {
                return Some(text_of(n.as_slice()));
            },
            None => {},
        }
        if e >= text.len() {
            return None;
        }
        i = e + 1;
    }
    None
}


/// Name of adapter `card`: the display controller named by `lspci -nn`
/// output when there is one, else the name from its PCI IDs.
pub fn gpu_name_for_card(card: u8, lspci: Option<&[u8]>, ids: Option<(&[u8], &[u8])>) -> (r: String)
    ensures
        ({
            let from_lspci = match lspci {
                Some(t) => lspci_name_from(t@, 0),
                None => None,
            };
            let from_ids = card_name_of(card, match ids {
                Some((v, d)) => Some((v@, d@)),
                None => None,
            });
            r@ == match from_lspci {
                Some(n) => lossy_text(n),
                None => lossy_text(from_ids),
            }
        }),
{
    match lspci {
        Some(t) => match gpu_name_from_lspci(t) {
            Some(n) => {
                return n;
            },
            None => {},
        },
        None => {},
    }
    gpu_name_from_ids(card, ids)
}

} // verus!
