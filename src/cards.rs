//! Displays grouped by the graphics adapter that drives them, groups in
//! name order.

use vstd::prelude::*;
use crate::registry::{DisplayInfo, DisplayView};
use crate::text::{lossy_text, same_bytes, text_of};

verus! {

/// Name of graphics adapter `index`.
#[derive(Debug, Clone)]
pub struct CardName {
    pub index: u8,
    pub name: Vec<u8>,
}

/// The displays of one adapter.
#[derive(Debug)]
pub struct VideoCard {
    pub name: String,
    pub displays: Vec<DisplayInfo>,
}

/// `Unknown GPU`
pub open spec fn unknown_gpu() -> Seq<u8> {
    seq![
        'U' as u8, 'n' as u8, 'k' as u8, 'n' as u8, 'o' as u8, 'w' as u8, 'n' as u8, ' ' as u8,
        'G' as u8, 'P' as u8, 'U' as u8,
    ]
}

/// Name of adapter `idx`: the first entry of `names` from `k` on with that
/// index, else `Unknown GPU`.
pub open spec fn name_of_card(names: Seq<CardName>, idx: u8, k: nat) -> Seq<u8>
    decreases names.len() - k,
{
    if k >= names.len() {
        unknown_gpu()
    } else if names[k as int].index == idx {
        names[k as int].name@
    } else {
        name_of_card(names, idx, k + 1)
    }
}

/// The adapter name a display is grouped under.
pub open spec fn card_key(d: DisplayView, names: Seq<CardName>) -> Seq<u8> {
    match d.connector_info {
        Some(c) => name_of_card(names, c.card_index, 0),
        None => unknown_gpu(),
    }
}

/// `a` sorts strictly before `b`, byte by byte.
pub open spec fn lex_lt(a: Seq<u8>, b: Seq<u8>) -> bool
    decreases a.len(),
{
    if a.len() == 0 {
        b.len() > 0
    } else if b.len() == 0 {
        false
    } else if a[0] != b[0] {
        a[0] < b[0]
    } else {
        lex_lt(a.drop_first(), b.drop_first())
    }
}

proof fn lemma_lex_total(a: Seq<u8>, b: Seq<u8>)
    ensures
        lex_lt(a, b) || lex_lt(b, a) || a == b,
    decreases a.len(),
{
    if a.len() > 0 && b.len() > 0 && a[0] == b[0] {
        lemma_lex_total(a.drop_first(), b.drop_first());
        if a.drop_first() == b.drop_first() {
            assert(a =~= seq![a[0]] + a.drop_first());
            assert(b =~= seq![b[0]] + b.drop_first());
        }
    } else if a.len() == 0 && b.len() == 0 {
        assert(a =~= b);
    }
}

/// The displays of `s` grouped under `key`, in order.
pub open spec fn with_key(s: Seq<DisplayView>, key: Seq<u8>, names: Seq<CardName>) -> Seq<DisplayView>
    decreases s.len(),
{
    if s.len() == 0 {
        s
    } else if card_key(s[0], names) == key {
        seq![s[0]] + with_key(s.drop_first(), key, names)
    } else {
        with_key(s.drop_first(), key, names)
    }
}

pub open spec fn views(s: Seq<DisplayInfo>) -> Seq<DisplayView> {
    s.map_values(|d: DisplayInfo| d@)
}

/// `r` groups the displays `all` under the adapter names `ks`: names in
/// strictly increasing order, each group holding, in order, exactly the
/// displays with its name, no group empty, and every display in a group.
pub open spec fn grouped(r: Seq<VideoCard>, all: Seq<DisplayView>, names: Seq<CardName>, ks: Seq<Seq<u8>>) -> bool {
    &&& r.len() == ks.len()
    &&& forall|i: int| 0 <= i < r.len() ==> #[trigger] r[i].name@ == lossy_text(ks[i])
    &&& forall|i: int| 0 <= i < ks.len() - 1 ==> lex_lt(#[trigger] ks[i], ks[i + 1])
    &&& forall|i: int, j: int| 0 <= i < ks.len() && 0 <= j < ks.len() && i != j ==> #[trigger] ks[i] != #[trigger] ks[j]
    &&& forall|i: int| 0 <= i < r.len() ==> views(#[trigger] r[i].displays@) == with_key(all, ks[i], names)
    &&& forall|i: int| 0 <= i < r.len() ==> #[trigger] r[i].displays@.len() > 0
    &&& forall|j: int| 0 <= j < all.len() ==> exists|i: int| 0 <= i < ks.len() && #[trigger] ks[i] == card_key(#[trigger] all[j], names)
}

fn card_name_bytes(names: &Vec<CardName>, idx: u8) -> (r: Vec<u8>)
    ensures
        r@ == name_of_card(names@, idx, 0),
{
    let mut k: usize = 0;
    while k < names.len()
        invariant
            k <= names@.len(),
            name_of_card(names@, idx, 0) == name_of_card(names@, idx, k as nat),
        decreases names@.len() - k,
    {
        if names[k].index == idx {
            return vstd::slice::slice_to_vec(names[k].name.as_slice());
        }
        k = k + 1;
    }
    let v: Vec<u8> = vec![
        'U' as u8, 'n' as u8, 'k' as u8, 'n' as u8, 'o' as u8, 'w' as u8, 'n' as u8, ' ' as u8,
        'G' as u8, 'P' as u8, 'U' as u8,
    ];
    assert(v@ =~= unknown_gpu());
    v
}

fn card_key_bytes(d: &DisplayInfo, names: &Vec<CardName>) -> (r: Vec<u8>)
    ensures
        r@ == card_key(d@, names@),
{
    match &d.connector_info {
        Some(c) => card_name_bytes(names, c.card_index),
        None => {
            let v: Vec<u8> = vec![
                'U' as u8, 'n' as u8, 'k' as u8, 'n' as u8, 'o' as u8, 'w' as u8, 'n' as u8, ' ' as u8,
                'G' as u8, 'P' as u8, 'U' as u8,
            ];
            assert(v@ =~= unknown_gpu());
            v
        },
    }
}

/// Whether `a` sorts strictly before `b`.
pub fn bytes_lt(a: &[u8], b: &[u8]) -> (r: bool)
    ensures
        r == lex_lt(a@, b@),
{
    let mut i: usize = 0;
    assert(a@.subrange(0, a@.len() as int) =~= a@);
    assert(b@.subrange(0, b@.len() as int) =~= b@);
    while i < a.len() && i < b.len() && a[i] == b[i]
        invariant
            i <= a@.len(),
            i <= b@.len(),
            lex_lt(a@, b@) == lex_lt(a@.subrange(i as int, a@.len() as int), b@.subrange(i as int, b@.len() as int)),
        decreases a@.len() - i,
    {
        proof {
            let x = a@.subrange(i as int, a@.len() as int);
            let y = b@.subrange(i as int, b@.len() as int);
            assert(x.drop_first() =~= a@.subrange(i + 1, a@.len() as int));
            assert(y.drop_first() =~= b@.subrange(i + 1, b@.len() as int));
        }
        i = i + 1;
    }
    if i == a.len() {
        i < b.len()
    } else if i == b.len() {
        false
    } else {
        a[i] < b[i]
    }
}

proof fn lemma_with_key_push_front(d: DisplayView, s: Seq<DisplayView>, key: Seq<u8>, names: Seq<CardName>)
    ensures
        with_key(seq![d] + s, key, names) == if card_key(d, names) == key {
            seq![d] + with_key(s, key, names)
        } else {
            with_key(s, key, names)
        },
{
    assert((seq![d] + s).drop_first() =~= s);
}

proof fn lemma_with_key_none(s: Seq<DisplayView>, key: Seq<u8>, names: Seq<CardName>)
    requires
        forall|j: int| 0 <= j < s.len() ==> card_key(#[trigger] s[j], names) != key,
    ensures
        with_key(s, key, names) == Seq::<DisplayView>::empty(),
    decreases s.len(),
{
    if s.len() > 0 {
        assert forall|j: int| 0 <= j < s.drop_first().len() implies card_key(#[trigger] s.drop_first()[j], names) != key by {
            assert(s.drop_first()[j] == s[j + 1]);
        }
        lemma_with_key_none(s.drop_first(), key, names);
    }
}

/// Adds display `d` at the front of the existing group `f`, whose name is
/// the display's key.
#[verifier::rlimit(40)]
fn place_existing(
    groups: &mut Vec<VideoCard>,
    keys: &mut Vec<Vec<u8>>,
    d: DisplayInfo,
    key: Vec<u8>,
    f: usize,
    names: &Vec<CardName>,
    Ghost(ks): Ghost<Seq<Seq<u8>>>,
    Ghost(suffix): Ghost<Seq<DisplayView>>,
    Ghost(suffix2): Ghost<Seq<DisplayView>>,
    Ghost(dv): Ghost<DisplayView>,
) -> (r: Ghost<Seq<Seq<u8>>>)
    requires
        grouped(old(groups)@, suffix, names@, ks),
        old(keys)@.len() == ks.len(),
        forall|i: int| 0 <= i < ks.len() ==> #[trigger] old(keys)@[i]@ == ks[i],
        suffix2 == seq![dv] + suffix,
        d@ == dv,
        key@ == card_key(dv, names@),
        f < ks.len(),
        ks[f as int] == key@,
    ensures
        grouped(final(groups)@, suffix2, names@, r@),
        final(keys)@.len() == r@.len(),
        forall|i: int| 0 <= i < r@.len() ==> #[trigger] final(keys)@[i]@ == r@[i],
{
    proof {
        lemma_with_key_push_front(dv, suffix, key@, names@);
        assert forall|t: int| 0 <= t < ks.len() && ks[t] != key@ implies with_key(suffix2, ks[t], names@) == with_key(suffix, ks[t], names@) by {
            lemma_with_key_push_front(dv, suffix, ks[t], names@);
        }
    }
    let ghost gs = groups@;
    let mut g = groups.remove(f);
    let ghost old_ds = g.displays@;
    g.displays.insert(0, d);
    groups.insert(f, g);
    proof {
        assert(groups@ =~= gs.update(f as int, g));
        assert(g.displays@ =~= seq![d] + old_ds);
        assert(views(g.displays@) =~= seq![dv] + views(old_ds));
        assert forall|i: int| 0 <= i < groups@.len() implies views(#[trigger] groups@[i].displays@)
            == with_key(suffix2, ks[i], names@) by {
            if i != f {
                assert(ks[i] != ks[f as int]);
            }
        }
        assert forall|j: int| 0 <= j < suffix2.len() implies exists|i: int|
            0 <= i < ks.len() && #[trigger] ks[i] == card_key(#[trigger] suffix2[j], names@) by {
            if j == 0 {
                assert(ks[f as int] == card_key(suffix2[0], names@));
            } else {
                assert(suffix2[j] == suffix[j - 1]);
            }
        }
    }
    Ghost(ks)
}

proof fn lemma_insert_key(ks0: Seq<Seq<u8>>, p: int, kv: Seq<u8>)
    requires
        0 <= p <= ks0.len(),
        forall|i: int| 0 <= i < ks0.len() - 1 ==> lex_lt(#[trigger] ks0[i], ks0[i + 1]),
        forall|i: int, j: int| 0 <= i < ks0.len() && 0 <= j < ks0.len() && i != j ==> #[trigger] ks0[i] != #[trigger] ks0[j],
        forall|t: int| 0 <= t < ks0.len() ==> #[trigger] ks0[t] != kv,
        p > 0 ==> lex_lt(ks0[p - 1], kv),
        p < ks0.len() ==> lex_lt(kv, ks0[p]),
    ensures
        ({
            let ks = ks0.insert(p, kv);
            &&& forall|i: int| 0 <= i < ks.len() - 1 ==> lex_lt(#[trigger] ks[i], ks[i + 1])
            &&& forall|i: int, j: int| 0 <= i < ks.len() && 0 <= j < ks.len() && i != j ==> #[trigger] ks[i] != #[trigger] ks[j]
        }),
{
    let ks = ks0.insert(p, kv);
    assert forall|i: int| 0 <= i < ks.len() - 1 implies lex_lt(#[trigger] ks[i], ks[i + 1]) by {
        if i < p - 1 {
            assert(ks[i] == ks0[i] && ks[i + 1] == ks0[i + 1]);
        } else if i == p - 1 {
        } else if i == p {
        } else {
            assert(ks[i] == ks0[i - 1] && ks[i + 1] == ks0[i]);
        }
    }
    assert forall|i: int, j: int| 0 <= i < ks.len() && 0 <= j < ks.len() && i != j implies #[trigger] ks[i] != #[trigger] ks[j] by {
        if i != p && j != p {
            let oi = if i < p { i } else { i - 1 };
            let oj = if j < p { j } else { j - 1 };
            assert(ks[i] == ks0[oi] && ks[j] == ks0[oj]);
        } else if i == p {
            let oj = if j < p { j } else { j - 1 };
            assert(ks[j] == ks0[oj]);
        } else {
            let oi = if i < p { i } else { i - 1 };
            assert(ks[i] == ks0[oi]);
        }
    }
}

/// Opens a group for display `d`, whose key no group has yet, at the
/// place that keeps the names in order.
#[verifier::rlimit(60)]
fn place_new(
    groups: &mut Vec<VideoCard>,
    keys: &mut Vec<Vec<u8>>,
    d: DisplayInfo,
    key: Vec<u8>,
    names: &Vec<CardName>,
    Ghost(ks): Ghost<Seq<Seq<u8>>>,
    Ghost(suffix): Ghost<Seq<DisplayView>>,
    Ghost(suffix2): Ghost<Seq<DisplayView>>,
    Ghost(dv): Ghost<DisplayView>,
) -> (r: Ghost<Seq<Seq<u8>>>)
    requires
        grouped(old(groups)@, suffix, names@, ks),
        old(keys)@.len() == ks.len(),
        forall|i: int| 0 <= i < ks.len() ==> #[trigger] old(keys)@[i]@ == ks[i],
        suffix2 == seq![dv] + suffix,
        d@ == dv,
        key@ == card_key(dv, names@),
        forall|t: int| 0 <= t < ks.len() ==> #[trigger] ks[t] != key@,
    ensures
        grouped(final(groups)@, suffix2, names@, r@),
        final(keys)@.len() == r@.len(),
        forall|i: int| 0 <= i < r@.len() ==> #[trigger] final(keys)@[i]@ == r@[i],
{
    proof {
        lemma_with_key_push_front(dv, suffix, key@, names@);
        assert forall|t: int| 0 <= t < ks.len() && ks[t] != key@ implies with_key(suffix2, ks[t], names@) == with_key(suffix, ks[t], names@) by {
            lemma_with_key_push_front(dv, suffix, ks[t], names@);
        }
    }
    let ghost mut ks = ks;
    let mut p: usize = 0;
    while p < keys.len() && bytes_lt(keys[p].as_slice(), key.as_slice())
        invariant
            p <= keys@.len(),
            keys@.len() == ks.len(),
            forall|t: int| 0 <= t < ks.len() ==> #[trigger] keys@[t]@ == ks[t],
            p > 0 ==> lex_lt(ks[p - 1], key@),
        decreases keys@.len() - p,
    {
        p = p + 1;
    }
    proof {
        if p < ks.len() {
            lemma_lex_total(ks[p as int], key@);
        }
        assert forall|j: int| 0 <= j < suffix.len() implies card_key(#[trigger] suffix[j], names@) != key@ by {
            let i = choose|i: int| 0 <= i < ks.len() && #[trigger] ks[i] == card_key(suffix[j], names@);
            assert(ks[i] != key@);
        }
        lemma_with_key_none(suffix, key@, names@);
    }
    let ghost gs = groups@;
    let ghost ks0 = ks;
    let mut ds: Vec<DisplayInfo> = Vec::new();
    ds.push(d);
    let card = VideoCard { name: text_of(key.as_slice()), displays: ds };
    proof {
        assert(views(card.displays@) =~= seq![dv]);
        assert(with_key(suffix2, key@, names@) =~= seq![dv]);
    }
    groups.insert(p, card);
    let ghost kv = key@;
    keys.insert(p, key);
    proof {
        ks = ks0.insert(p as int, kv);
        lemma_insert_key(ks0, p as int, kv);
        assert forall|i: int| 0 <= i < groups@.len() implies #[trigger] groups@[i].name@ == lossy_text(ks[i]) && views(groups@[i].displays@)
            == with_key(suffix2, ks[i], names@) && groups@[i].displays@.len() > 0 by {
            if i != p {
                let oi = if i < p { i } else { i - 1 };
                assert(groups@[i] == gs[oi] && ks[i] == ks0[oi]);
                assert(ks0[oi] != kv);
            }
        }
        assert forall|j: int| 0 <= j < suffix2.len() implies exists|i: int|
            0 <= i < ks.len() && #[trigger] ks[i] == card_key(#[trigger] suffix2[j], names@) by {
            if j == 0 {
                assert(ks[p as int] == card_key(suffix2[0], names@));
            } else {
                assert(suffix2[j] == suffix[j - 1]);
                let oi = choose|oi: int| 0 <= oi < ks0.len() && #[trigger] ks0[oi] == card_key(suffix[j - 1], names@);
                let ni = if oi < p { oi } else { oi + 1 };
                assert(ks[ni] == ks0[oi]);
            }
        }
        assert forall|t: int| 0 <= t < ks.len() implies #[trigger] keys@[t]@ == ks[t] by {
            if t != p {
                let ot = if t < p { t } else { t - 1 };
                assert(ks[t] == ks0[ot]);
            }
        }
    }
    Ghost(ks)
}

/// Groups displays by adapter name, groups sorted by name; displays
/// without a connector, or on an adapter without a name, fall under
/// `Unknown GPU`.
pub fn group_displays_by_card(displays: Vec<DisplayInfo>, names: &Vec<CardName>) -> (r: Vec<VideoCard>)
    ensures
        exists|ks: Seq<Seq<u8>>| grouped(r@, views(displays@), names@, ks),
{
    let ghost all = views(displays@);
    let ghost n = displays@.len();
    let mut rest = displays;
    let mut groups: Vec<VideoCard> = Vec::new();
    let mut keys: Vec<Vec<u8>> = Vec::new();
    let ghost mut ks: Seq<Seq<u8>> = Seq::empty();
    assert(all.subrange(n as int, n as int) =~= Seq::<DisplayView>::empty());
    while rest.len() > 0
        invariant
            n == all.len(),
            rest@.len() <= n,
            forall|j: int| 0 <= j < rest@.len() ==> #[trigger] rest@[j]@ == all[j],
            keys@.len() == ks.len(),
            forall|i: int| 0 <= i < ks.len() ==> #[trigger] keys@[i]@ == ks[i],
            grouped(groups@, all.subrange(rest@.len() as int, n as int), names@, ks),
        decreases rest@.len(),
    {
        let ghost m = rest@.len();
        let ghost suffix = all.subrange(m as int, n as int);
        let d = rest.pop().unwrap();
        let ghost dv = d@;
        assert(dv == all[m - 1]);
        let ghost suffix2 = all.subrange(m - 1, n as int);
        assert(suffix2 =~= seq![dv] + suffix);
        let key = card_key_bytes(&d, names);
        let mut found: Option<usize> = None;
        let mut i: usize = 0;
        while i < keys.len()
            invariant
                i <= keys@.len(),
                keys@.len() == ks.len(),
                forall|t: int| 0 <= t < ks.len() ==> #[trigger] keys@[t]@ == ks[t],
                found matches Some(f) ==> f < ks.len() && ks[f as int] == key@,
                found is None ==> forall|t: int| 0 <= t < i ==> #[trigger] ks[t] != key@,
            decreases keys@.len() - i,
        {
            if found.is_none() && same_bytes(keys[i].as_slice(), key.as_slice()) {
                found = Some(i);
            }
            i = i + 1;
        }
        let Ghost(ks2) = match found {
            Some(f) => place_existing(&mut groups, &mut keys, d, key, f, names, Ghost(ks), Ghost(suffix), Ghost(suffix2), Ghost(dv)),
            None => place_new(&mut groups, &mut keys, d, key, names, Ghost(ks), Ghost(suffix), Ghost(suffix2), Ghost(dv)),
        };
        proof {
            ks = ks2;
        }
    }
    proof {
        assert(all.subrange(0, n as int) =~= all);
    }
    groups
}

} // verus!
