//! A hex dump of an EDID for people: sixteen bytes per line, with the
//! offset, the bytes in hex and the printable ones as text.

use vstd::prelude::*;

verus! {

/// Lower-case digit for a value below 16.
pub open spec fn lower_digit(d: nat) -> u8 {
    if d < 10 {
        (0x30 + d) as u8
    } else {
        (0x61 + d - 10) as u8
    }
}

/// `n` with exactly `width` lower-case hex digits.
pub open spec fn hex_lower(n: nat, width: nat) -> Seq<u8>
    decreases width,
{
    if width == 0 {
        Seq::empty()
    } else {
        hex_lower(n / 16, (width - 1) as nat).push(lower_digit(n % 16))
    }
}

/// The bytes of `c` in hex, separated by spaces.
pub open spec fn hex_part(c: Seq<u8>) -> Seq<u8>
    decreases c.len(),
{
    if c.len() == 0 {
        Seq::empty()
    } else if c.len() == 1 {
        hex_lower(c[0] as nat, 2)
    } else {
        hex_part(c.drop_last()) + seq![' ' as u8] + hex_lower(c.last() as nat, 2)
    }
}

/// `s` padded with spaces to at least `w` bytes.
pub open spec fn pad_to(s: Seq<u8>, w: nat) -> Seq<u8> {
    if s.len() >= w {
        s
    } else {
        s + Seq::new((w - s.len()) as nat, |i: int| ' ' as u8)
    }
}

/// How a byte shows in the text column: itself when printable, else `.`.
pub open spec fn shown(b: u8) -> u8 {
    if 0x20 <= b <= 0x7E {
        b
    } else {
        '.' as u8
    }
}

/// The dump line for chunk `c` at offset `off`.
pub open spec fn dump_line(c: Seq<u8>, off: nat) -> Seq<u8> {
    seq![' ' as u8, ' ' as u8, '+' as u8] + hex_lower(off, 4) + seq![' ' as u8, ' ' as u8, ' ' as u8] + pad_to(hex_part(c), 47) + seq![' ' as u8]
        + c.map_values(|b: u8| shown(b))
}

/// The column header of a dump.
pub open spec fn dump_header() -> Seq<u8> {
    seq![' ' as u8, ' ' as u8, ' ' as u8, ' ' as u8, ' ' as u8, ' ' as u8, ' ' as u8, ' ' as u8, ' ' as u8, ' ' as u8, '+' as u8, '0' as u8, ' ' as u8, ' ' as u8, ' ' as u8, ' ' as u8, ' ' as u8, ' ' as u8, ' ' as u8, ' ' as u8, ' ' as u8, ' ' as u8, '+' as u8, '4' as u8, ' ' as u8, ' ' as u8, ' ' as u8, ' ' as u8, ' ' as u8, ' ' as u8, ' ' as u8, ' ' as u8, ' ' as u8, ' ' as u8, '+' as u8, '8' as u8, ' ' as u8, ' ' as u8, ' ' as u8, ' ' as u8, ' ' as u8, ' ' as u8, ' ' as u8, ' ' as u8, ' ' as u8, ' ' as u8, '+' as u8, 'c' as u8, ' ' as u8, ' ' as u8, ' ' as u8, ' ' as u8, ' ' as u8, ' ' as u8, ' ' as u8, ' ' as u8, ' ' as u8, ' ' as u8, ' ' as u8, ' ' as u8, '0' as u8, ' ' as u8, ' ' as u8, ' ' as u8, '4' as u8, ' ' as u8, ' ' as u8, ' ' as u8, '8' as u8, ' ' as u8, ' ' as u8, ' ' as u8, 'c' as u8]
}

/// Lines for the 16-byte chunks of `b` from chunk `k` on, each preceded by
/// a line feed.
pub open spec fn dump_lines(b: Seq<u8>, k: nat) -> Seq<u8>
    decreases b.len() + 16 - 16 * k,
{
    if 16 * k >= b.len() {
        Seq::empty()
    } else {
        let start: int = 16 * (k as int);
        let end: int = if start + 16 <= b.len() { start + 16 } else { b.len() as int };
        seq!['\n' as u8] + dump_line(b.subrange(start, end), start as nat) + dump_lines(b, k + 1)
    }
}

/// The whole dump: the column header, then one line per chunk.
pub open spec fn edid_dump(b: Seq<u8>) -> Seq<u8> {
    dump_header() + dump_lines(b, 0)
}

fn hex_lower_bytes(n: u32, width: usize) -> (r: Vec<u8>)
    ensures
        r@ == hex_lower(n as nat, width as nat),
    decreases width,
{
    if width == 0 {
        Vec::new()
    } else {
        let mut v = hex_lower_bytes(n / 16, width - 1);
        let d: u32 = n % 16;
        let c: u8 = if d < 10 {
            (0x30 + d) as u8
        } else {
            (0x61 + d - 10) as u8
        };
        v.push(c);
        v
    }
}

fn hex_part_bytes(c: &[u8]) -> (r: Vec<u8>)
    ensures
        r@ == hex_part(c@),
{
    let mut r: Vec<u8> = Vec::new();
    let mut i: usize = 0;
    while i < c.len()
        invariant
            i <= c@.len(),
            r@ == hex_part(c@.subrange(0, i as int)),
        decreases c@.len() - i,
    {
        proof {
            assert(c@.subrange(0, i + 1).drop_last() =~= c@.subrange(0, i as int));
        }
        if i > 0 {
            r.push(' ' as u8);
        }
        let mut h = hex_lower_bytes(c[i] as u32, 2);
        r.append(&mut h);
        proof {
            if i == 0 {
                assert(r@ =~= hex_lower(c@[0] as nat, 2));
            } else {
                assert(r@ =~= hex_part(c@.subrange(0, i as int)) + seq![' ' as u8] + hex_lower(c@[i as int] as nat, 2));
            }
        }
        i = i + 1;
    }
    assert(c@.subrange(0, c@.len() as int) =~= c@);
    r
}

fn dump_line_bytes(c: &[u8], off: u32) -> (r: Vec<u8>)
    requires
        c@.len() <= 16,
    ensures
        r@ == dump_line(c@, off as nat),
{
    let mut r: Vec<u8> = vec![' ' as u8, ' ' as u8, '+' as u8];
    let mut o = hex_lower_bytes(off, 4);
    r.append(&mut o);
    let mut gap: Vec<u8> = vec![' ' as u8, ' ' as u8, ' ' as u8];
    r.append(&mut gap);
    let ghost before = r@;
    let mut h = hex_part_bytes(c);
    let hl = h.len();
    r.append(&mut h);
    let mut k: usize = hl;
    while k < 47
        invariant
            hl <= k <= 47 || (k == hl && hl >= 47),
            r@ == before + hex_part(c@) + Seq::new((k - hl) as nat, |i: int| ' ' as u8),
        decreases 47 - k,
    {
        r.push(' ' as u8);
        proof {
            assert(Seq::new((k - hl) as nat, |i: int| ' ' as u8).push(' ' as u8) =~= Seq::new((k + 1 - hl) as nat, |i: int| ' ' as u8));
        }
        k = k + 1;
    }
    proof {
        if hl >= 47 {
            assert(Seq::new((k - hl) as nat, |i: int| ' ' as u8) =~= Seq::<u8>::empty());
            assert(r@ =~= before + pad_to(hex_part(c@), 47));
        } else {
            assert(r@ =~= before + pad_to(hex_part(c@), 47));
        }
    }
    r.push(' ' as u8);
    let ghost mid = r@;
    let mut j: usize = 0;
    while j < c.len()
        invariant
            j <= c@.len(),
            r@ == mid + c@.subrange(0, j as int).map_values(|b: u8| shown(b)),
        decreases c@.len() - j,
    {
        let b = c[j];
        let s: u8 = if 0x20 <= b && b <= 0x7E {
            b
        } else {
            '.' as u8
        };
        r.push(s);
        proof {
            assert(c@.subrange(0, j + 1).map_values(|b: u8| shown(b)) =~= c@.subrange(0, j as int).map_values(|b: u8| shown(b)).push(shown(b)));
        }
        j = j + 1;
    }
    assert(c@.subrange(0, c@.len() as int) =~= c@);
    r
}

/// A hex dump of `b`: a column header, then for each 16 bytes a line with
/// the offset, the bytes in hex, and the printable bytes as text.
pub fn edid_hex_dump(b: &[u8]) -> (r: Vec<u8>)
    requires
        b@.len() <= 0xFFFF,
    ensures
        r@ == edid_dump(b@),
{
    let mut r: Vec<u8> = vec![' ' as u8, ' ' as u8, ' ' as u8, ' ' as u8, ' ' as u8, ' ' as u8, ' ' as u8, ' ' as u8, ' ' as u8, ' ' as u8, '+' as u8, '0' as u8, ' ' as u8, ' ' as u8, ' ' as u8, ' ' as u8, ' ' as u8, ' ' as u8, ' ' as u8, ' ' as u8, ' ' as u8, ' ' as u8, '+' as u8, '4' as u8, ' ' as u8, ' ' as u8, ' ' as u8, ' ' as u8, ' ' as u8, ' ' as u8, ' ' as u8, ' ' as u8, ' ' as u8, ' ' as u8, '+' as u8, '8' as u8, ' ' as u8, ' ' as u8, ' ' as u8, ' ' as u8, ' ' as u8, ' ' as u8, ' ' as u8, ' ' as u8, ' ' as u8, ' ' as u8, '+' as u8, 'c' as u8, ' ' as u8, ' ' as u8, ' ' as u8, ' ' as u8, ' ' as u8, ' ' as u8, ' ' as u8, ' ' as u8, ' ' as u8, ' ' as u8, ' ' as u8, ' ' as u8, '0' as u8, ' ' as u8, ' ' as u8, ' ' as u8, '4' as u8, ' ' as u8, ' ' as u8, ' ' as u8, '8' as u8, ' ' as u8, ' ' as u8, ' ' as u8, 'c' as u8];
    assert(r@ =~= dump_header());
    let mut i: usize = 0;
    while i < b.len()
        invariant
            b@.len() <= 0xFFFF,
            i % 16 == 0,
            i <= b@.len() + 15,
            edid_dump(b@) == r@ + dump_lines(b@, (i / 16) as nat),
        decreases b@.len() + 16 - i,
    {
        let end: usize = if b.len() - i >= 16 {
            i + 16
        } else {
            b.len()
        };
        let ghost k = (i / 16) as nat;
        assert(16 * k == i);
        let mut line = dump_line_bytes(&b[i..end], i as u32);
        let ghost before = r@;
        r.push('\n' as u8);
        r.append(&mut line);
        proof {
            assert(dump_lines(b@, k) == seq!['\n' as u8] + dump_line(b@.subrange(i as int, end as int), i as nat) + dump_lines(b@, k + 1));
            assert(r@ =~= before + (seq!['\n' as u8] + dump_line(b@.subrange(i as int, end as int), i as nat)));
            assert(((i + 16) / 16) as nat == k + 1);
        }
        i = i + 16;
    }
    proof {
        assert(dump_lines(b@, (i / 16) as nat) == Seq::<u8>::empty());
        assert(r@ + Seq::<u8>::empty() =~= r@);
    }
    r
}

} // verus!
