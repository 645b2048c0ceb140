//! Ties a kernel display connector to a display-server output: by equal
//! EDID base blocks where both sides have one, else by a weaker guess from
//! the connector's name.

use vstd::prelude::*;
use crate::text::{contains, find_byte_from, find_pattern, hex_value, is_hex_digit, is_space, is_space_byte, lead_spaces, lemma_lead_exact, line_end, lossy_text, opt_bytes, opt_slice, text_of, trim_bounds, trim_spaces};

verus! {

/// Both buffers hold a base block, and the two base blocks are equal.
pub open spec fn base_blocks_equal(a: Seq<u8>, b: Seq<u8>) -> bool {
    a.len() >= 128 && b.len() >= 128 && a.subrange(0, 128) == b.subrange(0, 128)
}

/// Whether two EDIDs describe the same monitor: both hold a base block and
/// the first 128 bytes agree. Bytes after the base block do not count.
pub fn edid_matches(edid1: &[u8], edid2: &[u8]) -> (r: bool)
    ensures
        r == base_blocks_equal(edid1@, edid2@),
{
    if edid1.len() < 128 || edid2.len() < 128 {
        return false;
    }
    crate::text::same_bytes(&edid1[0..128], &edid2[0..128])
}

/// EDIDs judged to match describe one and the same identity.
pub proof fn lemma_matching_edids_same_identity(a: Seq<u8>, b: Seq<u8>)
    requires
        base_blocks_equal(a, b),
    ensures
        crate::edid::header_valid(a) == crate::edid::header_valid(b),
        crate::edid::edid_identity(a) == crate::edid::edid_identity(b),
{
    crate::edid::lemma_identity_of_base_block(a, b);
}

/// Bytes that a hexadecimal text stands for, two digits per byte.
pub open spec fn hex_decoded(s: Seq<u8>) -> Seq<u8> {
    Seq::new(
        s.len() / 2,
        |i: int| (hex_value(s[2 * i]) * 16 + hex_value(s[2 * i + 1])) as u8,
    )
}

/// Text that `hex::decode` accepts: an even number of hex digits.
pub open spec fn is_hex_text(s: Seq<u8>) -> bool {
    s.len() % 2 == 0 && forall|i: int| 0 <= i < s.len() ==> is_hex_digit(#[trigger] s[i])
}

/// Relies on `hex::decode`: it accepts an even number of hex digits of
/// either case and gives one byte per pair, high digit first; anything else
/// is an error.
#[verifier::external_body]
fn hex_decode(s: &[u8]) -> (r: Option<Vec<u8>>)
    ensures
        r is Some <==> is_hex_text(s@),
        r is Some ==> r->Some_0@ == hex_decoded(s@),
{
    hex::decode(s).ok()
}

/// `connected`
pub open spec fn connected_word() -> Seq<u8> {
    seq![
        'c' as u8, 'o' as u8, 'n' as u8, 'n' as u8, 'e' as u8, 'c' as u8, 't' as u8, 'e' as u8,
        'd' as u8,
    ]
}

/// `disconnected`
pub open spec fn disconnected_word() -> Seq<u8> {
    seq!['d' as u8, 'i' as u8, 's' as u8].add(connected_word())
}

/// A line that opens an output's record.
pub open spec fn opens_output(line: Seq<u8>) -> bool {
    contains(line, connected_word()) && !contains(line, disconnected_word())
}

/// Length of the run of non-whitespace bytes at the start of `s`.
pub open spec fn word_len(s: Seq<u8>) -> nat
    decreases s.len(),
{
    if s.len() == 0 || is_space(s[0]) {
        0
    } else {
        1 + word_len(s.drop_first())
    }
}

/// First whitespace-delimited word of a line (empty if there is none).
pub open spec fn first_word(line: Seq<u8>) -> Seq<u8> {
    let t = line.subrange(lead_spaces(line) as int, line.len() as int);
    t.subrange(0, word_len(t) as int)
}

/// A line that is one fragment of an EDID dump: 32 hex digits.
pub open spec fn is_edid_fragment(line: Seq<u8>) -> bool {
    let t = trim_spaces(line);
    t.len() == 32 && forall|i: int| 0 <= i < t.len() ==> is_hex_digit(#[trigger] t[i])
}

/// State of a walk over a verbose output dump.
pub struct DumpScan {
    /// Outputs with their EDID found so far: name bytes and EDID bytes.
    pub found: Seq<(Seq<u8>, Seq<u8>)>,
    /// Name of the output whose record is being read.
    pub current: Option<Seq<u8>>,
    /// EDID fragments of that record, joined.
    pub hex: Seq<u8>,
}

/// `found` with the current record added, if it had a decodable EDID.
pub open spec fn flush(st: DumpScan) -> Seq<(Seq<u8>, Seq<u8>)> {
    match st.current {
        Some(name) => if st.hex.len() > 0 && is_hex_text(st.hex) {
            st.found.push((name, hex_decoded(st.hex)))
        } else {
            st.found
        },
        None => st.found,
    }
}

/// The walk after one line.
pub open spec fn scan_line(st: DumpScan, line: Seq<u8>) -> DumpScan {
    let st1 = if opens_output(line) {
        let found = flush(st);
        let w = first_word(line);
        if w.len() > 0 {
            DumpScan { found, current: Some(w), hex: Seq::empty() }
        } else {
            DumpScan { found, current: st.current, hex: st.hex }
        }
    } else {
        st
    };
    if st1.current is Some && is_edid_fragment(line) {
        DumpScan { found: st1.found, current: st1.current, hex: st1.hex + trim_spaces(line) }
    } else {
        st1
    }
}

/// Outputs and EDIDs of the dump `s`, read from the line that starts at `i`.
pub open spec fn scan_dump(s: Seq<u8>, i: nat, st: DumpScan) -> Seq<(Seq<u8>, Seq<u8>)>
    decreases s.len() - i,
{
    if i >= s.len() {
        flush(st)
    } else {
        let e = line_end(s, i);
        if e < i || e >= s.len() {
            flush(scan_line(st, s.subrange(i as int, s.len() as int)))
        } else {
            scan_dump(s, e + 1, scan_line(st, s.subrange(i as int, e as int)))
        }
    }
}

/// Outputs and EDIDs of a whole dump.
pub open spec fn dump_outputs(s: Seq<u8>) -> Seq<(Seq<u8>, Seq<u8>)> {
    scan_dump(s, 0, DumpScan { found: Seq::empty(), current: None, hex: Seq::empty() })
}

/// A display-server output and the EDID it reported.
#[derive(Debug, Clone)]
pub struct OutputEdid {
    pub name: String,
    pub edid: Vec<u8>,
}

/// Each output of `r` carries the name and EDID of the same entry of `spec`.
pub open spec fn outputs_match(r: Seq<OutputEdid>, spec: Seq<(Seq<u8>, Seq<u8>)>) -> bool {
    &&& r.len() == spec.len()
    &&& forall|i: int|
        0 <= i < r.len() ==> #[trigger] r[i].name@ == lossy_text(spec[i].0) && r[i].edid@
            == spec[i].1
}

fn contains_bytes(s: &[u8], pat: &[u8]) -> (r: bool)
    ensures
        r == contains(s@, pat@),
{
    find_pattern(s, pat, 0).is_some()
}

/// First whitespace-delimited word of `line`.
fn first_word_bytes(line: &[u8]) -> (r: Vec<u8>)
    ensures
        r@ == first_word(line@),
{
    let mut a: usize = 0;
    while a < line.len() && is_space_byte(line[a])
        invariant
            a <= line@.len(),
            forall|j: int| 0 <= j < a ==> is_space(#[trigger] line@[j]),
        decreases line@.len() - a,
    {
        a = a + 1;
    }
    proof {
        lemma_lead_exact(line@, a as int);
    }
    let ghost t = line@.subrange(a as int, line@.len() as int);
    let mut b: usize = a;
    assert(line@.subrange(b as int, line@.len() as int) =~= t);
    while b < line.len() && !is_space_byte(line[b])
        invariant
            a <= b <= line@.len(),
            t == line@.subrange(a as int, line@.len() as int),
            word_len(t) == (b - a) + word_len(line@.subrange(b as int, line@.len() as int)),
        decreases line@.len() - b,
    {
        proof {
            let u = line@.subrange(b as int, line@.len() as int);
            assert(u.drop_first() =~= line@.subrange(b + 1, line@.len() as int));
        }
        b = b + 1;
    }
    proof {
        let u = line@.subrange(b as int, line@.len() as int);
        assert(word_len(u) == 0);
        assert(t.subrange(0, (b - a) as int) =~= line@.subrange(a as int, b as int));
    }
    vstd::slice::slice_to_vec(&line[a..b])
}

/// Whether `line` is an EDID fragment.
fn is_fragment(line: &[u8]) -> (r: bool)
    ensures
        r == is_edid_fragment(line@),
{
    let (lo, hi) = trim_bounds(line);
    if hi - lo != 32 {
        return false;
    }
    let mut k: usize = lo;
    while k < hi
        invariant
            lo <= k <= hi <= line@.len(),
            line@.subrange(lo as int, hi as int) == trim_spaces(line@),
            forall|j: int| lo <= j < k ==> is_hex_digit(#[trigger] line@[j]),
        decreases hi - k,
    {
        let c = line[k];
        if !((0x30 <= c && c <= 0x39) || (0x41 <= c && c <= 0x46) || (0x61 <= c && c <= 0x66)) {
            assert(trim_spaces(line@)[k - lo] == c);
            return false;
        }
        k = k + 1;
    }
    assert forall|i: int| 0 <= i < trim_spaces(line@).len() implies is_hex_digit(
        #[trigger] trim_spaces(line@)[i],
    ) by {
        assert(trim_spaces(line@)[i] == line@[lo + i]);
    }
    true
}

/// Adds the record being read to `found`, if it has a decodable EDID.
fn flush_record(
    found: &mut Vec<OutputEdid>,
    current: &Option<Vec<u8>>,
    hex: &Vec<u8>,
    Ghost(prior): Ghost<Seq<(Seq<u8>, Seq<u8>)>>,
)
    requires
        outputs_match(old(found)@, prior),
    ensures
        outputs_match(
            final(found)@,
            flush(DumpScan { found: prior, current: opt_bytes(*current), hex: hex@ }),
        ),
{
    match current {
        Some(name) => {
            if hex.len() > 0 {
                match hex_decode(hex.as_slice()) {
                    Some(bytes) => {
                        let ghost before = found@;
                        found.push(OutputEdid { name: text_of(name.as_slice()), edid: bytes });
                        assert forall|i: int| 0 <= i < found@.len() - 1 implies #[trigger] found@[i]
                            == before[i] by {}
                    },
                    None => {},
                }
            }
        },
        None => {},
    }
}

/// One line of the dump.
fn read_line(
    found: &mut Vec<OutputEdid>,
    current: &mut Option<Vec<u8>>,
    hex: &mut Vec<u8>,
    line: &[u8],
    Ghost(st): Ghost<DumpScan>,
)
    requires
        outputs_match(old(found)@, st.found),
        opt_bytes(*old(current)) == st.current,
        old(hex)@ == st.hex,
    ensures
        outputs_match(final(found)@, scan_line(st, line@).found),
        opt_bytes(*final(current)) == scan_line(st, line@).current,
        final(hex)@ == scan_line(st, line@).hex,
{
    let cw: [u8; 9] = [
        'c' as u8, 'o' as u8, 'n' as u8, 'n' as u8, 'e' as u8, 'c' as u8, 't' as u8, 'e' as u8,
        'd' as u8,
    ];
    let dw: [u8; 12] = [
        'd' as u8, 'i' as u8, 's' as u8, 'c' as u8, 'o' as u8, 'n' as u8, 'n' as u8, 'e' as u8,
        'c' as u8, 't' as u8, 'e' as u8, 'd' as u8,
    ];
    assert(cw@ =~= connected_word());
    assert(dw@ =~= disconnected_word());
    if contains_bytes(line, &cw) && !contains_bytes(line, &dw) {
        flush_record(found, current, hex, Ghost(st.found));
        let w = first_word_bytes(line);
        if w.len() > 0 {
            *current = Some(w);
            *hex = Vec::new();
        }
    }
    if current.is_some() && is_fragment(line) {
        let (lo, hi) = trim_bounds(line);
        let mut frag = vstd::slice::slice_to_vec(&line[lo..hi]);
        hex.append(&mut frag);
    }
}

/// Outputs of a verbose display-server dump with the EDIDs they report. A
/// line containing `connected` but not `disconnected` opens an output's
/// record, named by its first word; lines of exactly 32 hex digits that
/// follow are the record's EDID, joined and decoded. Outputs whose record
/// has no EDID are left out.
pub fn parse_verbose_outputs(dump: &[u8]) -> (r: Vec<OutputEdid>)
    ensures
        outputs_match(r@, dump_outputs(dump@)),
{
    let mut found: Vec<OutputEdid> = Vec::new();
    let mut current: Option<Vec<u8>> = None;
    let mut hex: Vec<u8> = Vec::new();
    let ghost mut st = DumpScan { found: Seq::empty(), current: None, hex: Seq::empty() };
    let mut i: usize = 0;
    while i < dump.len()
        invariant
            i <= dump@.len(),
            dump_outputs(dump@) == scan_dump(dump@, i as nat, st),
            outputs_match(found@, st.found),
            opt_bytes(current) == st.current,
            hex@ == st.hex,
        decreases dump@.len() - i,
    {
        let e: usize = match find_byte_from(dump, '\n' as u8, i) {
            Some(e) => e,
            None => dump.len(),
        };
        read_line(&mut found, &mut current, &mut hex, &dump[i..e], Ghost(st));
        proof {
            st = scan_line(st, dump@.subrange(i as int, e as int));
        }
        if e >= dump.len() {
            i = dump.len();
        } else {
            i = e + 1;
        }
    }
    flush_record(&mut found, &current, &hex, Ghost(st.found));
    found
}

/// Outcome of tying a connector to an output.
#[derive(Debug, Clone)]
pub enum Correlation {
    /// The output reports the connector's EDID base block.
    Confirmed { output: String },
    /// Guessed from the connector's name alone; lower confidence.
    Guessed { output: String },
    /// Neither an EDID match nor a guess.
    Unavailable,
}

/// Index of the first output whose EDID has the same base block as `edid`.
pub open spec fn first_edid_match(edid: Seq<u8>, outs: Seq<OutputEdid>, k: nat) -> Option<nat>
    decreases outs.len() - k,
{
    if k >= outs.len() {
        None
    } else if base_blocks_equal(edid, outs[k as int].edid@) {
        Some(k)
    } else {
        first_edid_match(edid, outs, k + 1)
    }
}

/// `HDMI`
pub open spec fn hdmi_word() -> Seq<u8> {
    seq!['H' as u8, 'D' as u8, 'M' as u8, 'I' as u8]
}

/// `DP`
pub open spec fn dp_word() -> Seq<u8> {
    seq!['D' as u8, 'P' as u8]
}

/// Index just after the last `-` of `s` at or before `i`, or 0.
pub open spec fn after_last_dash(s: Seq<u8>, i: nat) -> nat
    decreases i,
{
    if i == 0 {
        0
    } else if s[i - 1] == '-' as u8 {
        i
    } else {
        after_last_dash(s, (i - 1) as nat)
    }
}

/// Output name guessed from a connector name: HDMI connectors map to
/// `HDMI-0`, DisplayPort ones to `DP-` and the connector's last
/// dash-separated part.
pub open spec fn guess_output(c: Seq<u8>) -> Option<Seq<u8>> {
    if contains(c, hdmi_word()) {
        Some(hdmi_word().add(seq!['-' as u8, '0' as u8]))
    } else if contains(c, dp_word()) {
        Some(dp_word().push(0x2Du8).add(c.subrange(after_last_dash(c, c.len()) as int, c.len() as int)))
    } else {
        None
    }
}

/// The correlation that the connector's name, its EDID and the outputs call for.
pub open spec fn correlation_of(
    c: Seq<u8>,
    edid: Option<Seq<u8>>,
    outs: Seq<OutputEdid>,
) -> CorrelationView {
    let matched = match edid {
        Some(e) => first_edid_match(e, outs, 0),
        None => None,
    };
    match matched {
        Some(k) => CorrelationView::Confirmed(outs[k as int].name@),
        None => match guess_output(c) {
            Some(g) => CorrelationView::Guessed(lossy_text(g)),
            None => CorrelationView::Unavailable,
        },
    }
}

/// Content of a `Correlation`.
pub enum CorrelationView {
    Confirmed(Seq<char>),
    Guessed(Seq<char>),
    Unavailable,
}

impl View for Correlation {
    type V = CorrelationView;

    open spec fn view(&self) -> CorrelationView {
        match self {
            Correlation::Confirmed { output } => CorrelationView::Confirmed(output@),
            Correlation::Guessed { output } => CorrelationView::Guessed(output@),
            Correlation::Unavailable => CorrelationView::Unavailable,
        }
    }
}

fn after_last_dash_index(s: &[u8]) -> (r: usize)
    ensures
        r as nat == after_last_dash(s@, s@.len()),
        r <= s@.len(),
{
    let mut i: usize = s.len();
    while i > 0 && s[i - 1] != '-' as u8
        invariant
            i <= s@.len(),
            after_last_dash(s@, s@.len()) == after_last_dash(s@, i as nat),
        decreases i,
    {
        i = i - 1;
    }
    i
}

/// The output name guessed from a connector name.
pub fn guess_output_name(connector: &[u8]) -> (r: Option<Vec<u8>>)
    ensures
        opt_bytes(r) == guess_output(connector@),
{
    let hw: [u8; 4] = ['H' as u8, 'D' as u8, 'M' as u8, 'I' as u8];
    let dw: [u8; 2] = ['D' as u8, 'P' as u8];
    assert(hw@ =~= hdmi_word());
    assert(dw@ =~= dp_word());
    if contains_bytes(connector, &hw) {
        let v: Vec<u8> = vec!['H' as u8, 'D' as u8, 'M' as u8, 'I' as u8, '-' as u8, '0' as u8];
        assert(v@ =~= hdmi_word().add(seq!['-' as u8, '0' as u8]));
        Some(v)
    } else if contains_bytes(connector, &dw) {
        let from = after_last_dash_index(connector);
        let mut v: Vec<u8> = vec!['D' as u8, 'P' as u8, '-' as u8];
        let mut tail = vstd::slice::slice_to_vec(&connector[from..connector.len()]);
        v.append(&mut tail);
        assert(v@ =~= dp_word().push(0x2Du8).add(
            connector@.subrange(after_last_dash(connector@, connector@.len()) as int, connector@.len() as int),
        ));
        Some(v)
    } else {
        None
    }
}

/// Ties a connector to a display-server output: the first output whose EDID
/// has the connector's base block is a confirmed match; without one, or
/// without a connector EDID, the output is guessed from the connector's name.
pub fn correlate_output(
    connector: &[u8],
    connector_edid: Option<&[u8]>,
    outputs: &Vec<OutputEdid>,
) -> (r: Correlation)
    ensures
        r@ == correlation_of(connector@, opt_slice(connector_edid), outputs@),
{
    match connector_edid {
        Some(e) => {
            let mut k: usize = 0;
            while k < outputs.len()
                invariant
                    k <= outputs@.len(),
                    connector_edid == Some(e),
                    first_edid_match(e@, outputs@, 0) == first_edid_match(e@, outputs@, k as nat),
                decreases outputs@.len() - k,
            {
                let o = &outputs[k];
                if edid_matches(e, o.edid.as_slice()) {
                    let name = o.name.clone();
                    assert(first_edid_match(e@, outputs@, k as nat) == Some(k as nat));
                    let r = Correlation::Confirmed { output: name };
                    return r;
                }
                k = k + 1;
            }
        },
        None => {},
    }
    match guess_output_name(connector) {
        Some(g) => Correlation::Guessed { output: text_of(g.as_slice()) },
        None => Correlation::Unavailable,
    }
}

} // verus!
