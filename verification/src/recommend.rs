//! Narrowing the pies down to those a user may be recommended: the pies that
//! carry every requested label, less the pies the user may buy no more of.
use crate::bits::{
    bit_values, bv_clone, bv_from_bytes, bv_from_elem, bv_grow, bv_intersect, bv_len, bv_negate,
    bv_none, bytes_to_bits,
};
use crate::pies::{strings_view, PieView};
use bit_vec::BitVec;
use crate::catalog::{label_column, LabelBits};
use vstd::prelude::*;

verus! {

/// Every one of `labels` has bits in `m`.
pub open spec fn all_labels_known(labels: Seq<Seq<char>>, m: Map<Seq<char>, BitVec>) -> bool {
    forall|i: int| 0 <= i < labels.len() ==> #[trigger] m.contains_key(labels[i])
}

/// The bits of the label bit vectors that `labels` name all have one length.
pub open spec fn label_lengths_agree(labels: Seq<Seq<char>>, m: Map<Seq<char>, BitVec>) -> bool {
    forall|i: int, j: int|
        0 <= i < labels.len() && 0 <= j < labels.len() ==> bit_values(m[#[trigger] labels[i]]).len()
            == bit_values(m[#[trigger] labels[j]]).len()
}

/// The pies that carry all of `labels`: the `and` of their bit vectors. An
/// unknown label, or no label at all, gives the single bit `false`.
pub open spec fn flatten_spec(labels: Seq<Seq<char>>, m: Map<Seq<char>, BitVec>) -> Seq<bool> {
    if !all_labels_known(labels, m) || labels.len() == 0 {
        seq![false]
    } else {
        Seq::new(
            bit_values(m[labels[0]]).len(),
            |k: int| forall|i: int| 0 <= i < labels.len() ==> #[trigger] bit_values(m[labels[i]])[k],
        )
    }
}

/// The `and` of the bit vectors of `labels`; the single bit `false` when a
/// label is unknown or none is given. The vectors must be of one length,
/// else the intersection panics.
pub fn flatten_bv(labels: &Vec<String>, label_bitvecs: &LabelBits) -> (r: BitVec)
    requires
        all_labels_known(strings_view(labels@), label_bitvecs@) ==> label_lengths_agree(
            strings_view(labels@),
            label_bitvecs@,
        ),
    ensures
        bit_values(r) == flatten_spec(strings_view(labels@), label_bitvecs@),
{
    let ghost names = strings_view(labels@);
    let ghost m = label_bitvecs@;
    let n = labels.len();
    let mut i: usize = 0;
    while i < n
        invariant
            n == labels.len(),
            names == strings_view(labels@),
            m == label_bitvecs@,
            i <= n,
            forall|k: int| 0 <= k < i ==> #[trigger] m.contains_key(names[k]),
        decreases n - i,
    {
        if !label_bitvecs.contains_key(labels[i].as_str()) {
            assert(!all_labels_known(names, m)) by {
                assert(!m.contains_key(names[i as int]));
            }
            let r = bv_from_elem(1, false);
            assert(bit_values(r) =~= seq![false]);
            return r;
        }
        i = i + 1;
    }
    assert(all_labels_known(names, m));
    if n == 0 {
        let r = bv_from_elem(1, false);
        assert(bit_values(r) =~= seq![false]);
        return r;
    }
    let first = match label_bitvecs.get(labels[0].as_str()) {
        Some(bv) => bv,
        None => {
            assert(m.contains_key(names[0]));
            return bv_from_elem(1, false);
        },
    };
    let mut scratch = bv_clone(first);
    let ghost len = bit_values(*first).len();
    let mut j: usize = 0;
    while j < n
        invariant
            n == labels.len(),
            n > 0,
            names == strings_view(labels@),
            m == label_bitvecs@,
            all_labels_known(names, m),
            label_lengths_agree(names, m),
            len == bit_values(m[names[0]]).len(),
            j <= n,
            bit_values(scratch).len() == len,
            forall|k: int|
                0 <= k < len ==> #[trigger] bit_values(scratch)[k] == (bit_values(m[names[0]])[k]
                    && forall|i: int| 0 <= i < j ==> #[trigger] bit_values(m[names[i]])[k]),
        decreases n - j,
    {
        let bv = match label_bitvecs.get(labels[j].as_str()) {
            Some(bv) => bv,
            None => {
                assert(m.contains_key(names[j as int]));
                return bv_from_elem(1, false);
            },
        };
        assert(bit_values(*bv).len() == len) by {
            assert(m.contains_key(names[j as int]));
        }
        let ghost before = bit_values(scratch);
        bv_intersect(&mut scratch, bv);
        assert forall|k: int| 0 <= k < len implies #[trigger] bit_values(scratch)[k] == (bit_values(m[names[0]])[k]
            && forall|i: int| 0 <= i < j + 1 ==> #[trigger] bit_values(m[names[i]])[k]) by {
            assert(bit_values(scratch)[k] == (before[k] && bit_values(m[names[j as int]])[k]));
        }
        j = j + 1;
    }
    assert(bit_values(scratch) =~= flatten_spec(names, m));
    scratch
}

/// `s` grown to length `n` with `false` bits.
pub open spec fn padded(s: Seq<bool>, n: nat) -> Seq<bool> {
    Seq::new(n, |k: int| k < s.len() && s[k])
}

/// Grows the shorter of the two vectors with `false` bits to the length of
/// the longer one.
pub fn pad_shorter_bv(bv1: &mut BitVec, bv2: &mut BitVec)
    ensures
        bit_values(*final(bv1)) == bit_values(*old(bv1)) + Seq::new(
            (vstd::math::max(bit_values(*old(bv1)).len() as int, bit_values(*old(bv2)).len() as int)
                - bit_values(*old(bv1)).len()) as nat,
            |_k: int| false,
        ),
        bit_values(*final(bv2)) == bit_values(*old(bv2)) + Seq::new(
            (vstd::math::max(bit_values(*old(bv1)).len() as int, bit_values(*old(bv2)).len() as int)
                - bit_values(*old(bv2)).len()) as nat,
            |_k: int| false,
        ),
{
    let len1 = bv_len(bv1);
    let len2 = bv_len(bv2);
    if len1 > len2 {
        bv_grow(bv2, len1 - len2, false);
        assert(bit_values(*bv1) =~= bit_values(*bv1) + Seq::new(0, |_k: int| false));
    } else {
        bv_grow(bv1, len2 - len1, false);
        assert(bit_values(*bv2) =~= bit_values(*bv2) + Seq::new(0, |_k: int| false));
    }
}

/// The pies worth looking at for a recommendation: `None` when no pie
/// carries every requested label, else the bits of those that do.
pub fn recommendation_candidates(labels: &Vec<String>, label_bitvecs: &LabelBits) -> (r:
    Option<BitVec>)
    requires
        all_labels_known(strings_view(labels@), label_bitvecs@) ==> label_lengths_agree(
            strings_view(labels@),
            label_bitvecs@,
        ),
    ensures
        r is None <==> (forall|k: int|
            0 <= k < flatten_spec(strings_view(labels@), label_bitvecs@).len() ==> !(
            #[trigger] flatten_spec(strings_view(labels@), label_bitvecs@)[k])),
        r matches Some(b) ==> bit_values(b) == flatten_spec(strings_view(labels@), label_bitvecs@),
{
    let possible = flatten_bv(labels, label_bitvecs);
    if bv_none(&possible) {
        None
    } else {
        let ghost f = flatten_spec(strings_view(labels@), label_bitvecs@);
        proof {
            let k = choose|k: int| 0 <= k < bit_values(possible).len() && bit_values(possible)[k];
            assert(f[k]);
        }
        Some(possible)
    }
}

/// The bits a user's blacklist is stored as: eight per byte, most
/// significant first.
pub fn blacklist_bits(bytes: &[u8]) -> (r: BitVec)
    requires
        8 * bytes@.len() <= usize::MAX,
    ensures
        bit_values(r) == bytes_to_bits(bytes@),
{
    bv_from_bytes(bytes)
}

/// The pies in `possible` that the user is not blacklisted for, over the
/// longer of the two vectors.
pub open spec fn unblocked_spec(possible: Seq<bool>, blacklist: Seq<bool>) -> Seq<bool> {
    let n = vstd::math::max(possible.len() as int, blacklist.len() as int) as nat;
    Seq::new(n, |k: int| padded(possible, n)[k] && !padded(blacklist, n)[k])
}

/// What is left to recommend is as long as the longer vector, and keeps a
/// pie exactly when it is a candidate and its blacklist bit, if it has one,
/// is clear.
pub proof fn law_unblocked_exact(possible: Seq<bool>, blacklist: Seq<bool>)
    ensures
        unblocked_spec(possible, blacklist).len() == (if possible.len() >= blacklist.len() {
            possible.len()
        } else {
            blacklist.len()
        }),
        forall|k: int|
            0 <= k < unblocked_spec(possible, blacklist).len() ==> (#[trigger] unblocked_spec(
                possible,
                blacklist,
            )[k] <==> (k < possible.len() && possible[k] && !(k < blacklist.len()
                && blacklist[k]))),
{
}

/// Pads the two vectors to one length, flips the blacklist and keeps the
/// possible pies that it does not block.
pub fn unblocked_pies(possible: BitVec, blacklist: BitVec) -> (r: BitVec)
    ensures
        bit_values(r) == unblocked_spec(bit_values(possible), bit_values(blacklist)),
{
    let ghost p0 = bit_values(possible);
    let ghost b0 = bit_values(blacklist);
    let mut possible = possible;
    let mut blacklist = blacklist;
    pad_shorter_bv(&mut possible, &mut blacklist);
    bv_negate(&mut blacklist);
    let ghost p1 = bit_values(possible);
    bv_intersect(&mut possible, &blacklist);
    let ghost n = vstd::math::max(p0.len() as int, b0.len() as int) as nat;
    assert(bit_values(possible) =~= unblocked_spec(p0, b0)) by {
        assert forall|k: int| 0 <= k < n implies #[trigger] bit_values(possible)[k] == (padded(p0, n)[k] && !padded(b0, n)[k]) by {
            assert(p1[k] == padded(p0, n)[k]);
        }
    }
    possible
}

/// When every requested label is known and at least one is given, the
/// narrowing is as long as the label vectors, and keeps exactly the pies
/// whose bit is set in every requested label's vector: none is dropped
/// that carries them all, and none is kept that lacks one.
pub proof fn law_flatten_exact(labels: Seq<Seq<char>>, m: Map<Seq<char>, BitVec>)
    requires
        all_labels_known(labels, m),
        labels.len() > 0,
        label_lengths_agree(labels, m),
    ensures
        flatten_spec(labels, m).len() == bit_values(m[labels[0]]).len(),
        forall|k: int|
            0 <= k < bit_values(m[labels[0]]).len() ==> (#[trigger] flatten_spec(labels, m)[k] <==> (
            forall|i: int| 0 <= i < labels.len() ==> #[trigger] bit_values(m[labels[i]])[k])),
{
}

/// An unknown label, or no label at all, leaves no pie to recommend.
pub proof fn law_flatten_unknown_or_empty(labels: Seq<Seq<char>>, m: Map<Seq<char>, BitVec>)
    requires
        !all_labels_known(labels, m) || labels.len() == 0,
    ensures
        flatten_spec(labels, m) == seq![false],
{
}

/// The label bit vectors of a catalogue all have its length, so any labels
/// that are all known meet what `flatten_bv` asks of them.
pub proof fn law_catalogue_labels_agree(
    pies: Seq<PieView>,
    m: Map<Seq<char>, BitVec>,
    labels: Seq<Seq<char>>,
)
    requires
        forall|l: Seq<char>| #[trigger] m.contains_key(l) ==> bit_values(m[l]) == label_column(pies, l),
    ensures
        all_labels_known(labels, m) ==> label_lengths_agree(labels, m),
{
    if all_labels_known(labels, m) {
        assert forall|i: int, j: int| 0 <= i < labels.len() && 0 <= j < labels.len() implies bit_values(m[#[trigger] labels[i]]).len()
            == bit_values(m[#[trigger] labels[j]]).len() by {
            assert(m.contains_key(labels[i]));
            assert(m.contains_key(labels[j]));
        }
    }
}

/// Every bit vector of `m` has length `n`.
pub open spec fn all_of_length(m: Map<Seq<char>, BitVec>, n: nat) -> bool {
    forall|l: Seq<char>| #[trigger] m.contains_key(l) ==> bit_values(m[l]).len() == n
}

/// Asking for the same set of labels, in whatever order and with whatever
/// repetition, narrows to the same pies, when the label bit vectors all
/// have one length.
pub proof fn law_flatten_depends_on_label_set(
    labels1: Seq<Seq<char>>,
    labels2: Seq<Seq<char>>,
    m: Map<Seq<char>, BitVec>,
    n: nat,
)
    requires
        labels1.to_set() == labels2.to_set(),
        all_of_length(m, n),
    ensures
        flatten_spec(labels1, m) == flatten_spec(labels2, m),
{
    assert forall|l: Seq<char>| labels1.contains(l) <==> labels2.contains(l) by {
        assert(labels1.to_set().contains(l) == labels1.contains(l));
        assert(labels2.to_set().contains(l) == labels2.contains(l));
    }
    assert(all_labels_known(labels1, m) == all_labels_known(labels2, m)) by {
        if all_labels_known(labels1, m) {
            assert forall|i: int| 0 <= i < labels2.len() implies #[trigger] m.contains_key(labels2[i]) by {
                assert(labels2.contains(labels2[i]));
                let j = choose|j: int| 0 <= j < labels1.len() && labels1[j] == labels2[i];
                assert(m.contains_key(labels1[j]));
            }
        }
        if all_labels_known(labels2, m) {
            assert forall|i: int| 0 <= i < labels1.len() implies #[trigger] m.contains_key(labels1[i]) by {
                assert(labels1.contains(labels1[i]));
                let j = choose|j: int| 0 <= j < labels2.len() && labels2[j] == labels1[i];
                assert(m.contains_key(labels2[j]));
            }
        }
    }
    assert((labels1.len() == 0) == (labels2.len() == 0)) by {
        if labels1.len() > 0 {
            assert(labels1.contains(labels1[0]));
        }
        if labels2.len() > 0 {
            assert(labels2.contains(labels2[0]));
        }
    }
    if all_labels_known(labels1, m) && labels1.len() > 0 {
        assert(m.contains_key(labels1[0]));
        assert(m.contains_key(labels2[0]));
        let f1 = flatten_spec(labels1, m);
        let f2 = flatten_spec(labels2, m);
        assert forall|k: int| 0 <= k < n implies f1[k] == f2[k] by {
            if f1[k] {
                assert forall|i: int| 0 <= i < labels2.len() implies #[trigger] bit_values(m[labels2[i]])[k] by {
                    assert(labels2.contains(labels2[i]));
                    let j = choose|j: int| 0 <= j < labels1.len() && labels1[j] == labels2[i];
                    assert(bit_values(m[labels1[j]])[k]);
                }
            }
            if f2[k] {
                assert forall|i: int| 0 <= i < labels1.len() implies #[trigger] bit_values(m[labels1[i]])[k] by {
                    assert(labels1.contains(labels1[i]));
                    let j = choose|j: int| 0 <= j < labels2.len() && labels2[j] == labels1[i];
                    assert(bit_values(m[labels2[j]])[k]);
                }
            }
        }
        assert(f1 =~= f2);
    }
}

/// A pie is left to recommend only if every requested label is known, at
/// least one is requested, the pie carries them all, and the user's
/// blacklist does not block it.
pub proof fn law_recommendable_pies_fit(
    labels: Seq<Seq<char>>,
    m: Map<Seq<char>, BitVec>,
    blacklist: Seq<bool>,
    k: int,
)
    requires
        label_lengths_agree(labels, m),
        0 <= k < unblocked_spec(flatten_spec(labels, m), blacklist).len(),
        unblocked_spec(flatten_spec(labels, m), blacklist)[k],
    ensures
        all_labels_known(labels, m),
        labels.len() > 0,
        forall|i: int|
            0 <= i < labels.len() ==> k < bit_values(m[labels[i]]).len() && #[trigger] bit_values(
                m[labels[i]],
            )[k],
        !(k < blacklist.len() && blacklist[k]),
{
    let f = flatten_spec(labels, m);
    let n = vstd::math::max(f.len() as int, blacklist.len() as int) as nat;
    assert(padded(f, n)[k]);
    if !all_labels_known(labels, m) || labels.len() == 0 {
        assert(f[k]);
    } else {
        assert forall|i: int| 0 <= i < labels.len() implies k < bit_values(m[labels[i]]).len()
            && #[trigger] bit_values(m[labels[i]])[k] by {
            assert(bit_values(m[labels[i]]).len() == bit_values(m[labels[0]]).len());
            assert(f[k]);
        }
    }
}

} // verus!
