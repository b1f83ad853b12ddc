//! The views of the catalogue that the service builds once at start: the
//! pies by price, the pies by id, and for each label the bits of the pies
//! that carry it.
use crate::pies::{strings_view, Pie, PieView};
use crate::text::str_equal;
use crate::bits::{bit_values, bv_from_elem, bv_set};
use bit_vec::BitVec;
use std::collections::HashMap;
use vstd::hash_map::StringHashMap;
use vstd::prelude::*;
use vstd::set_lib::{lemma_int_range, lemma_map_size, lemma_subset_equality, set_int_range};

verus! {

/// The value order of a price given as the bit pattern of an IEEE double:
/// the magnitude bits with the sign applied, so that both zeros meet and,
/// for every pattern that is not a NaN, a lower double gets a lower value.
pub open spec fn price_order(bits: u64) -> int {
    let magnitude = bits as int % 0x8000_0000_0000_0000;
    if bits >= 0x8000_0000_0000_0000 {
        -magnitude
    } else {
        magnitude
    }
}

/// Whether the bit pattern is a NaN: all exponent bits set and a
/// non-zero fraction.
pub open spec fn is_nan_bits(bits: u64) -> bool {
    bits as int % 0x8000_0000_0000_0000 > 0x7ff0_0000_0000_0000
}

/// The IEEE order of two doubles that are not NaN, read off their bit
/// patterns: a non-negative double (sign bit clear) is ordered by its bits
/// as an unsigned number, a negative one the other way round, every negative
/// double is below every non-negative one, and the two zeros are equal.
pub open spec fn double_less(a: u64, b: u64) -> bool {
    let a_neg = a >= 0x8000_0000_0000_0000;
    let b_neg = b >= 0x8000_0000_0000_0000;
    let a_zero = a == 0 || a == 0x8000_0000_0000_0000;
    let b_zero = b == 0 || b == 0x8000_0000_0000_0000;
    if a_zero && b_zero {
        false
    } else if !a_neg && !b_neg {
        a < b
    } else if a_neg && b_neg {
        a > b
    } else {
        a_neg
    }
}

/// Equality of two doubles that are not NaN: the same bits, or both zeros.
pub open spec fn double_equal(a: u64, b: u64) -> bool {
    a == b || ((a == 0 || a == 0x8000_0000_0000_0000) && (b == 0 || b == 0x8000_0000_0000_0000))
}

/// The price order follows the order of the prices: a lower price gets a
/// lower order, equal prices the same order, for every price that is not a
/// NaN.
pub proof fn law_price_order_follows_prices(a: u64, b: u64)
    requires
        !is_nan_bits(a),
        !is_nan_bits(b),
    ensures
        double_less(a, b) ==> price_order(a) < price_order(b),
        double_equal(a, b) ==> price_order(a) == price_order(b),
        price_order(a) < price_order(b) ==> double_less(a, b),
{
}

/// In a price ordering, a pie never comes before a strictly dearer one.
pub proof fn law_dearer_pies_first(input: Seq<PieView>, output: Seq<PieView>, perm: Seq<int>, k: int, l: int)
    requires
        is_price_ordering(input, output, perm),
        0 <= k < l < output.len(),
        !is_nan_bits(output[k].price_per_slice_bits),
        !is_nan_bits(output[l].price_per_slice_bits),
    ensures
        !double_less(output[k].price_per_slice_bits, output[l].price_per_slice_bits),
        double_equal(output[k].price_per_slice_bits, output[l].price_per_slice_bits) ==> perm[k]
            < perm[l],
{
    law_price_order_follows_prices(output[k].price_per_slice_bits, output[l].price_per_slice_bits);
    law_price_order_follows_prices(output[l].price_per_slice_bits, output[k].price_per_slice_bits);
}

/// The price order of a pie.
pub open spec fn pie_price_order(p: PieView) -> int {
    price_order(p.price_per_slice_bits)
}

/// The price order of a price shifted into the range of a `u64`.
pub fn price_rank(bits: u64) -> (r: u64)
    ensures
        r == price_order(bits) + 0x8000_0000_0000_0000,
{
    if bits >= 0x8000_0000_0000_0000u64 {
        let magnitude = bits - 0x8000_0000_0000_0000u64;
        0x8000_0000_0000_0000u64 - magnitude
    } else {
        bits + 0x8000_0000_0000_0000u64
    }
}

/// The views of a sequence of pies.
pub open spec fn pies_view(s: Seq<Pie>) -> Seq<PieView> {
    s.map_values(|p: Pie| p@)
}

/// `output` is `input` sorted by price, dearest first, pies of equal price
/// in their input order; `perm[k]` is the input position of `output[k]`.
pub open spec fn is_price_ordering(input: Seq<PieView>, output: Seq<PieView>, perm: Seq<int>) -> bool {
    &&& output.len() == input.len()
    &&& perm.len() == input.len()
    &&& forall|k: int|
        0 <= k < perm.len() ==> 0 <= #[trigger] perm[k] < input.len() && output[k]
            == input[perm[k]]
    &&& forall|k: int, l: int| 0 <= k < l < perm.len() ==> #[trigger] perm[k] != #[trigger] perm[l]
    &&& forall|k: int, l: int|
        0 <= k < l < output.len() ==> pie_price_order(#[trigger] output[k]) >= pie_price_order(
            #[trigger] output[l],
        )
    &&& forall|k: int, l: int|
        0 <= k < l < output.len() && pie_price_order(#[trigger] output[k]) == pie_price_order(
            #[trigger] output[l],
        ) ==> perm[k] < perm[l]
}

/// Input position `i` comes before `j` in a price ordering: dearer, or as
/// dear and earlier.
pub open spec fn comes_before(input: Seq<PieView>, i: int, j: int) -> bool {
    ||| pie_price_order(input[i]) > pie_price_order(input[j])
    ||| (pie_price_order(input[i]) == pie_price_order(input[j]) && i < j)
}

proof fn lemma_perm_onto(perm: Seq<int>, n: int, j: int)
    requires
        perm.len() == n,
        forall|k: int| 0 <= k < n ==> 0 <= #[trigger] perm[k] < n,
        forall|k: int, l: int| 0 <= k < l < n ==> #[trigger] perm[k] != #[trigger] perm[l],
        0 <= j < n,
    ensures
        exists|m: int| 0 <= m < n && perm[m] == j,
{
    let dom = set_int_range(0, n);
    let f = |k: int| perm[k];
    lemma_int_range(0, n);
    assert(vstd::relations::injective_on(f, dom)) by {
        assert forall|x: int, y: int| dom.contains(x) && dom.contains(y) && #[trigger] f(x) == #[trigger] f(y) implies x == y by {
            if x < y {
                assert(perm[x] != perm[y]);
            } else if y < x {
                assert(perm[y] != perm[x]);
            }
        }
    }
    let img = dom.map(f);
    lemma_map_size(dom, img, f);
    assert(img.subset_of(dom)) by {
        assert forall|v: int| img.contains(v) implies dom.contains(v) by {
            let k = choose|k: int| dom.contains(k) && f(k) == v;
            assert(0 <= perm[k] < n);
        }
    }
    lemma_subset_equality(img, dom);
    assert(img.contains(j));
    let m = choose|m: int| dom.contains(m) && f(m) == j;
    assert(perm[m] == j);
}

proof fn lemma_orderings_agree_below(
    input: Seq<PieView>,
    out1: Seq<PieView>,
    perm1: Seq<int>,
    out2: Seq<PieView>,
    perm2: Seq<int>,
    k: int,
)
    requires
        is_price_ordering(input, out1, perm1),
        is_price_ordering(input, out2, perm2),
        0 <= k <= input.len(),
    ensures
        forall|m: int| 0 <= m < k ==> perm1[m] == perm2[m],
    decreases k,
{
    if k > 0 {
        lemma_orderings_agree_below(input, out1, perm1, out2, perm2, k - 1);
        let n = input.len() as int;
        let c = k - 1;
        let a = perm1[c];
        let b = perm2[c];
        if a != b {
            if comes_before(input, a, b) {
                lemma_perm_onto(perm2, n, a);
                let m = choose|m: int| 0 <= m < n && perm2[m] == a;
                if m < c {
                    assert(perm1[m] == a);
                    assert(perm1[m] != perm1[c]);
                } else {
                    assert(m > c);
                    assert(out2[c] == input[b]);
                    assert(out2[m] == input[a]);
                    assert(pie_price_order(out2[c]) >= pie_price_order(out2[m]));
                }
            } else {
                lemma_perm_onto(perm1, n, b);
                let m = choose|m: int| 0 <= m < n && perm1[m] == b;
                if m < c {
                    assert(perm2[m] == b);
                    assert(perm2[m] != perm2[c]);
                } else {
                    assert(m > c);
                    assert(out1[c] == input[a]);
                    assert(out1[m] == input[b]);
                    assert(pie_price_order(out1[c]) >= pie_price_order(out1[m]));
                }
            }
        }
    }
}

/// There is one price ordering of a list of pies: any two are equal.
pub proof fn law_price_ordering_unique(
    input: Seq<PieView>,
    out1: Seq<PieView>,
    perm1: Seq<int>,
    out2: Seq<PieView>,
    perm2: Seq<int>,
)
    requires
        is_price_ordering(input, out1, perm1),
        is_price_ordering(input, out2, perm2),
    ensures
        out1 == out2,
{
    lemma_orderings_agree_below(input, out1, perm1, out2, perm2, input.len() as int);
    assert forall|k: int| 0 <= k < out1.len() implies out1[k] == out2[k] by {
        assert(perm1[k] == perm2[k]);
    }
    assert(out1 =~= out2);
}

/// The pies sorted by price per slice, dearest first; pies of equal price
/// keep their order.
pub fn make_price_ordered(pies: &Vec<Pie>) -> (r: Vec<Pie>)
    ensures
        exists|perm: Seq<int>| is_price_ordering(pies_view(pies@), pies_view(r@), perm),
{
    let n = pies.len();
    let mut out: Vec<Pie> = Vec::new();
    let ghost mut perm: Seq<int> = Seq::empty();
    let ghost input = pies_view(pies@);
    let mut i: usize = 0;
    while i < n
        invariant
            n == pies.len(),
            input == pies_view(pies@),
            i <= n,
            out.len() == i,
            perm.len() == i,
            forall|k: int| 0 <= k < i ==> 0 <= #[trigger] perm[k] < i && out[k]@ == input[perm[k]],
            forall|k: int, l: int| 0 <= k < l < i ==> #[trigger] perm[k] != #[trigger] perm[l],
            forall|k: int, l: int|
                0 <= k < l < i ==> pie_price_order(#[trigger] out[k]@) >= pie_price_order(
                    #[trigger] out[l]@,
                ),
            forall|k: int, l: int|
                0 <= k < l < i && pie_price_order(#[trigger] out[k]@) == pie_price_order(
                    #[trigger] out[l]@,
                ) ==> perm[k] < perm[l],
        decreases n - i,
    {
        let p = pies[i].copy();
        let rank = price_rank(p.price_per_slice_bits);
        let mut j: usize = 0;
        while j < out.len() && price_rank(out[j].price_per_slice_bits) >= rank
            invariant
                j <= out.len(),
                rank == pie_price_order(p@) + 0x8000_0000_0000_0000,
                forall|k: int| 0 <= k < j ==> pie_price_order(#[trigger] out[k]@) >= pie_price_order(p@),
            decreases out.len() - j,
        {
            j = j + 1;
        }
        assert(forall|k: int| j <= k < out.len() ==> pie_price_order(#[trigger] out[k]@) < pie_price_order(p@)) by {
            if j < out.len() {
                assert(pie_price_order(out[j as int]@) < pie_price_order(p@));
                assert forall|k: int| j <= k < out.len() implies pie_price_order(#[trigger] out[k]@) < pie_price_order(p@) by {
                    if k > j {
                        assert(pie_price_order(out[j as int]@) >= pie_price_order(out[k]@));
                    }
                }
            }
        }
        let ghost old_out = out@;
        let ghost old_perm = perm;
        out.insert(j, p);
        proof {
            perm = perm.insert(j as int, i as int);
            assert forall|k: int| 0 <= k < i + 1 implies 0 <= #[trigger] perm[k] < i + 1 && out[k]@ == input[perm[k]] by {
                if k < j {
                    assert(out[k] == old_out[k]);
                } else if k > j {
                    assert(out[k] == old_out[k - 1]);
                }
            }
            assert forall|k: int, l: int| 0 <= k < l < i + 1 implies #[trigger] perm[k] != #[trigger] perm[l] by {
                if k != j && l != j {
                    let k0 = if k < j { k } else { k - 1 };
                    let l0 = if l < j { l } else { l - 1 };
                    assert(old_perm[k0] != old_perm[l0]);
                }
            }
            assert forall|k: int, l: int| 0 <= k < l < i + 1 implies pie_price_order(#[trigger] out[k]@) >= pie_price_order(#[trigger] out[l]@) by {
                let k0 = if k < j { k } else { k - 1 };
                let l0 = if l < j { l } else { l - 1 };
                if k != j && l != j {
                    assert(pie_price_order(old_out[k0]@) >= pie_price_order(old_out[l0]@));
                } else if k == j {
                    assert(pie_price_order(old_out[l0]@) < pie_price_order(p@));
                } else {
                    assert(pie_price_order(old_out[k0]@) >= pie_price_order(p@));
                }
            }
            assert forall|k: int, l: int|
                0 <= k < l < i + 1 && pie_price_order(#[trigger] out[k]@) == pie_price_order(
                    #[trigger] out[l]@,
                ) implies perm[k] < perm[l] by {
                let k0 = if k < j { k } else { k - 1 };
                let l0 = if l < j { l } else { l - 1 };
                if k != j && l != j {
                    assert(pie_price_order(old_out[k0]@) == pie_price_order(old_out[l0]@));
                } else if k == j {
                    assert(pie_price_order(old_out[l0]@) < pie_price_order(p@));
                } else {
                    assert(old_perm[k0] < i);
                }
            }
        }
        i = i + 1;
    }
    proof {
        assert(pies_view(out@).len() == n);
        assert forall|k: int| 0 <= k < n implies #[trigger] pies_view(out@)[k] == out[k]@ by {}
        assert(is_price_ordering(input, pies_view(out@), perm));
    }
    out
}


/// The pie at position `i` is the last one of the list with its id.
pub open spec fn last_with_id(pies: Seq<PieView>, i: int) -> bool {
    &&& 0 <= i < pies.len()
    &&& forall|j: int| i < j < pies.len() ==> #[trigger] pies[j].id != pies[i].id
}

/// The index entry of a pie is the last position that holds its id: no
/// later pie has that id, and the entry holds it.
pub proof fn law_index_entry_is_last(pies: Seq<PieView>, i: int, j: int)
    requires
        last_with_id(pies, i),
        0 <= j < pies.len(),
        pies[j].id == pies[i].id,
    ensures
        0 <= i < pies.len(),
        j <= i,
{
}

/// The ids of the pies.
pub open spec fn ids_of(pies: Seq<PieView>) -> Set<u64> {
    Set::new(|id: u64| exists|i: int| 0 <= i < pies.len() && #[trigger] pies[i].id == id)
}

/// Each pie by its id, with its position in the list; where two pies share
/// an id the later one stands.
pub fn make_id_index(pies: &Vec<Pie>) -> (r: HashMap<u64, (Pie, usize)>)
    ensures
        r@.dom() == ids_of(pies_view(pies@)),
        forall|id: u64|
            #[trigger] r@.contains_key(id) ==> {
                let i = r@[id].1 as int;
                &&& last_with_id(pies_view(pies@), i)
                &&& pies[i].id == id
                &&& r@[id].0@ == pies[i]@
            },
{
    broadcast use vstd::std_specs::hash::group_hash_axioms;

    let n = pies.len();
    let ghost input = pies_view(pies@);
    let mut index: HashMap<u64, (Pie, usize)> = HashMap::new();
    let mut i: usize = 0;
    while i < n
        invariant
            n == pies.len(),
            input == pies_view(pies@),
            i <= n,
            index@.dom() == ids_of(input.take(i as int)),
            forall|id: u64|
                #[trigger] index@.contains_key(id) ==> {
                    let k = index@[id].1 as int;
                    &&& last_with_id(input.take(i as int), k)
                    &&& pies[k].id == id
                    &&& index@[id].0@ == pies[k]@
                },
        decreases n - i,
    {
        let id = pies[i].id;
        index.insert(id, (pies[i].copy(), i));
        proof {
            let prev = input.take(i as int);
            let next = input.take(i + 1);
            assert(next == prev.push(input[i as int]));
            assert(index@.dom() =~= ids_of(next)) by {
                assert forall|x: u64| ids_of(next).contains(x) implies index@.dom().contains(x) by {
                    let w = choose|w: int| 0 <= w < next.len() && #[trigger] next[w].id == x;
                    if w < i {
                        assert(prev[w].id == x);
                        assert(ids_of(prev).contains(x));
                    }
                }
                assert forall|x: u64| index@.dom().contains(x) implies ids_of(next).contains(x) by {
                    if x == id {
                        assert(next[i as int].id == x);
                    } else {
                        assert(ids_of(prev).contains(x));
                        let w = choose|w: int| 0 <= w < prev.len() && #[trigger] prev[w].id == x;
                        assert(next[w].id == x);
                    }
                }
            }
            assert forall|x: u64| #[trigger] index@.contains_key(x) implies {
                let k = index@[x].1 as int;
                &&& last_with_id(next, k)
                &&& pies[k].id == x
                &&& index@[x].0@ == pies[k]@
            } by {
                if x != id {
                    let k = index@[x].1 as int;
                    assert(last_with_id(prev, k));
                    assert(pies[k].id == x);
                    assert forall|j: int| k < j < next.len() implies #[trigger] next[j].id != next[k].id by {
                        if j < i {
                            assert(prev[j].id != prev[k].id);
                        }
                    }
                }
            }
        }
        i = i + 1;
    }
    assert(input.take(n as int) =~= input);
    index
}


/// The labels that some pie carries.
pub open spec fn labels_of(pies: Seq<PieView>) -> Set<Seq<char>> {
    Set::new(|l: Seq<char>| exists|i: int| 0 <= i < pies.len() && #[trigger] pies[i].labels.contains(l))
}

/// For each pie, whether it carries `label`.
pub open spec fn label_column(pies: Seq<PieView>, label: Seq<char>) -> Seq<bool> {
    Seq::new(pies.len(), |i: int| pies[i].labels.contains(label))
}

/// The labels of a catalogue are exactly those that some pie carries.
pub proof fn law_labels_of_exact(pies: Seq<PieView>, label: Seq<char>)
    ensures
        labels_of(pies).contains(label) <==> exists|i: int, b: int|
            0 <= i < pies.len() && 0 <= b < pies[i].labels.len() && pies[i].labels[b] == label,
{
    if labels_of(pies).contains(label) {
        let i = choose|i: int| 0 <= i < pies.len() && #[trigger] pies[i].labels.contains(label);
        let b = choose|b: int| 0 <= b < pies[i].labels.len() && pies[i].labels[b] == label;
    }
    if exists|i: int, b: int|
        0 <= i < pies.len() && 0 <= b < pies[i].labels.len() && pies[i].labels[b] == label {
        let (i, b) = choose|i: int, b: int|
            0 <= i < pies.len() && 0 <= b < pies[i].labels.len() && pies[i].labels[b] == label;
        assert(pies[i].labels.contains(label));
    }
}

/// A label's column has one bit per pie, set exactly when one of the pie's
/// labels reads it.
pub proof fn law_label_column_exact(pies: Seq<PieView>, label: Seq<char>)
    ensures
        label_column(pies, label).len() == pies.len(),
        forall|k: int|
            0 <= k < pies.len() ==> (#[trigger] label_column(pies, label)[k] <==> exists|b: int|
                0 <= b < pies[k].labels.len() && pies[k].labels[b] == label),
{
    assert forall|k: int| 0 <= k < pies.len() implies (#[trigger] label_column(pies, label)[k] <==> exists|b: int|
        0 <= b < pies[k].labels.len() && pies[k].labels[b] == label) by {
        if label_column(pies, label)[k] {
            let b = choose|b: int| 0 <= b < pies[k].labels.len() && pies[k].labels[b] == label;
        }
    }
}

/// Whether one of `labels` reads `label`.
pub fn labels_contain(labels: &Vec<String>, label: &str) -> (r: bool)
    ensures
        r == strings_view(labels@).contains(label@),
{
    let mut i: usize = 0;
    while i < labels.len()
        invariant
            i <= labels.len(),
            forall|k: int| 0 <= k < i ==> labels[k]@ != label@,
        decreases labels.len() - i,
    {
        if str_equal(labels[i].as_str(), label) {
            assert(strings_view(labels@)[i as int] == label@);
            return true;
        }
        i = i + 1;
    }
    proof {
        if strings_view(labels@).contains(label@) {
            let k = choose|k: int| 0 <= k < strings_view(labels@).len() && strings_view(labels@)[k] == label@;
            assert(labels[k]@ == label@);
        }
    }
    false
}

/// The bits of the pies that carry `label`, one per pie in list order.
pub fn label_bits(pies: &Vec<Pie>, label: &str) -> (r: BitVec)
    ensures
        bit_values(r) == label_column(pies_view(pies@), label@),
{
    let n = pies.len();
    let mut bv = bv_from_elem(n, false);
    let mut i: usize = 0;
    while i < n
        invariant
            n == pies.len(),
            i <= n,
            bit_values(bv) == Seq::new(n as nat, |k: int| k < i && pies_view(pies@)[k].labels.contains(label@)),
        decreases n - i,
    {
        if labels_contain(&pies[i].labels, label) {
            bv_set(&mut bv, i, true);
        }
        assert(bit_values(bv) =~= Seq::new(n as nat, |k: int| k < i + 1 && pies_view(pies@)[k].labels.contains(label@)));
        i = i + 1;
    }
    assert(bit_values(bv) =~= label_column(pies_view(pies@), label@));
    bv
}

/// The pie with id `id` in the index, with its position; `None` when no pie
/// has that id.
pub fn find_pie(index: &HashMap<u64, (Pie, usize)>, id: u64) -> (r: Option<(Pie, usize)>)
    ensures
        match r {
            Some((p, i)) => index@.contains_key(id) && p@ == index@[id].0@ && i == index@[id].1,
            None => !index@.contains_key(id),
        },
{
    broadcast use vstd::std_specs::hash::group_hash_axioms;

    match index.get(&id) {
        Some(entry) => Some((entry.0.copy(), entry.1)),
        None => None,
    }
}

/// For each label, the bit vector of the pies that carry it.
pub struct LabelBits {
    map: StringHashMap<BitVec>,
}

impl View for LabelBits {
    type V = Map<Seq<char>, BitVec>;

    closed spec fn view(&self) -> Map<Seq<char>, BitVec> {
        self.map@
    }
}

impl LabelBits {
    /// No label yet.
    pub fn new() -> (r: LabelBits)
        ensures
            r@ == Map::<Seq<char>, BitVec>::empty(),
    {
        LabelBits { map: StringHashMap::new() }
    }

    /// Sets the bit vector of `label`.
    pub fn insert(&mut self, label: String, bits: BitVec)
        ensures
            final(self)@ == old(self)@.insert(label@, bits),
    {
        self.map.insert(label, bits);
    }

    /// Whether `label` has a bit vector.
    pub fn contains_key(&self, label: &str) -> (r: bool)
        ensures
            r == self@.contains_key(label@),
    {
        self.map.contains_key(label)
    }

    /// The bit vector of `label`, if it has one.
    pub fn get(&self, label: &str) -> (r: Option<&BitVec>)
        ensures
            match r {
                Some(v) => self@.contains_key(label@) && *v == self@[label@],
                None => !self@.contains_key(label@),
            },
    {
        self.map.get(label)
    }

    /// The number of labels.
    pub fn len(&self) -> (r: usize)
        ensures
            r == self@.len(),
    {
        self.map.len()
    }
}

/// For each label that some pie carries, the bits of the pies that carry it.
pub fn make_label_bitvec(pies: &Vec<Pie>) -> (r: LabelBits)
    ensures
        r@.dom() == labels_of(pies_view(pies@)),
        forall|l: Seq<char>|
            #[trigger] r@.contains_key(l) ==> bit_values(r@[l]) == label_column(
                pies_view(pies@),
                l,
            ),
{
    let n = pies.len();
    let ghost input = pies_view(pies@);
    let mut map = LabelBits::new();
    let mut i: usize = 0;
    while i < n
        invariant
            n == pies.len(),
            input == pies_view(pies@),
            i <= n,
            map@.dom() == labels_of(input.take(i as int)),
            forall|l: Seq<char>|
                #[trigger] map@.contains_key(l) ==> bit_values(map@[l]) == label_column(input, l),
        decreases n - i,
    {
        let labels = &pies[i].labels;
        let mut j: usize = 0;
        while j < labels.len()
            invariant
                n == pies.len(),
                input == pies_view(pies@),
                i < n,
                labels == pies[i as int].labels,
                j <= labels.len(),
                map@.dom() == labels_of(input.take(i as int)).union(
                    strings_view(labels@).take(j as int).to_set(),
                ),
                forall|l: Seq<char>|
                    #[trigger] map@.contains_key(l) ==> bit_values(map@[l]) == label_column(input, l),
            decreases labels.len() - j,
        {
            let label = &labels[j];
            if !map.contains_key(label.as_str()) {
                let bv = label_bits(pies, label.as_str());
                map.insert(label.clone(), bv);
            }
            proof {
                let before = strings_view(labels@).take(j as int);
                let after = strings_view(labels@).take(j + 1);
                assert(after =~= before.push(label@));
                assert forall|x: Seq<char>| after.to_set().contains(x) <==> before.to_set().insert(label@).contains(x) by {
                    if after.contains(x) && x != label@ {
                        let w = choose|w: int| 0 <= w < after.len() && after[w] == x;
                        assert(before[w] == x);
                    }
                    if before.contains(x) {
                        let w = choose|w: int| 0 <= w < before.len() && before[w] == x;
                        assert(after[w] == x);
                    }
                    if x == label@ {
                        assert(after[j as int] == x);
                    }
                }
                assert(after.to_set() =~= before.to_set().insert(label@));
            }
            assert(map@.dom() =~= labels_of(input.take(i as int)).union(
                strings_view(labels@).take(j + 1).to_set(),
            ));
            j = j + 1;
        }
        proof {
            assert(strings_view(labels@).take(j as int) =~= input[i as int].labels);
            assert(map@.dom() =~= labels_of(input.take(i + 1))) by {
                let prev = input.take(i as int);
                let next = input.take(i + 1);
                assert forall|l: Seq<char>| labels_of(next).contains(l) implies map@.dom().contains(l) by {
                    let w = choose|w: int| 0 <= w < next.len() && #[trigger] next[w].labels.contains(l);
                    if w < i {
                        assert(prev[w].labels.contains(l));
                        assert(labels_of(prev).contains(l));
                    } else {
                        assert(input[i as int].labels.contains(l));
                        assert(input[i as int].labels.to_set().contains(l));
                    }
                }
                assert forall|l: Seq<char>| map@.dom().contains(l) implies labels_of(next).contains(l) by {
                    if labels_of(prev).contains(l) {
                        let w = choose|w: int| 0 <= w < prev.len() && #[trigger] prev[w].labels.contains(l);
                        assert(next[w].labels.contains(l));
                    } else {
                        assert(input[i as int].labels.to_set().contains(l));
                        assert(next[i as int].labels.contains(l));
                    }
                }
            }
        }
        i = i + 1;
    }
    assert(input.take(n as int) =~= input);
    map
}

} // verus!
