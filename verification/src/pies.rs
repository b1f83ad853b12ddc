//! The pies on offer and the purchases recorded against them.
use vstd::prelude::*;

verus! {

/// A pie of the catalogue. The price per slice is carried as the bit
/// pattern of the IEEE double the catalogue gives, so that it passes through
/// unchanged and orders as that number does.
#[derive(Clone, Debug)]
pub struct Pie {
    pub id: u64,
    pub name: String,
    pub image_url: String,
    pub price_per_slice_bits: u64,
    pub slices: u64,
    pub labels: Vec<String>,
}

/// What a pie holds, as plain values.
pub struct PieView {
    pub id: u64,
    pub name: Seq<char>,
    pub image_url: Seq<char>,
    pub price_per_slice_bits: u64,
    pub slices: u64,
    pub labels: Seq<Seq<char>>,
}

/// The characters of each string, in order.
pub open spec fn strings_view(v: Seq<String>) -> Seq<Seq<char>> {
    v.map_values(|l: String| l@)
}

impl View for Pie {
    type V = PieView;

    open spec fn view(&self) -> PieView {
        PieView {
            id: self.id,
            name: self.name@,
            image_url: self.image_url@,
            price_per_slice_bits: self.price_per_slice_bits,
            slices: self.slices,
            labels: strings_view(self.labels@),
        }
    }
}

/// A copy of a list of strings.
pub fn copy_strings(v: &Vec<String>) -> (r: Vec<String>)
    ensures
        strings_view(r@) == strings_view(v@),
{
    let mut out: Vec<String> = Vec::new();
    let mut i: usize = 0;
    while i < v.len()
        invariant
            i <= v.len(),
            out.len() == i,
            forall|k: int| 0 <= k < i ==> #[trigger] out[k]@ == v[k]@,
        decreases v.len() - i,
    {
        out.push(v[i].clone());
        i = i + 1;
    }
    assert(strings_view(out@) =~= strings_view(v@));
    out
}

impl Pie {
    /// A copy of this pie.
    pub fn copy(&self) -> (r: Pie)
        ensures
            r@ == self@,
    {
        Pie {
            id: self.id,
            name: self.name.clone(),
            image_url: self.image_url.clone(),
            price_per_slice_bits: self.price_per_slice_bits,
            slices: self.slices,
            labels: copy_strings(&self.labels),
        }
    }
}

/// How many slices of a pie one user has bought.
#[derive(Clone, Debug)]
pub struct Purchase {
    pub username: String,
    pub slices: u64,
}

/// The purchases of a pie, one per user, from the counts that the store
/// holds for it, in the order given.
pub fn purchases_from_counts(counts: Vec<(String, u64)>) -> (r: Vec<Purchase>)
    ensures
        r.len() == counts.len(),
        forall|i: int|
            0 <= i < counts.len() ==> #[trigger] r[i].username@ == counts[i].0@ && r[i].slices
                == counts[i].1,
{
    let mut out: Vec<Purchase> = Vec::new();
    let mut i: usize = 0;
    while i < counts.len()
        invariant
            i <= counts.len(),
            out.len() == i,
            forall|k: int|
                0 <= k < i ==> #[trigger] out[k].username@ == counts[k].0@ && out[k].slices
                    == counts[k].1,
        decreases counts.len() - i,
    {
        let (user, amount) = (&counts[i].0, counts[i].1);
        out.push(Purchase { username: user.clone(), slices: amount });
        i = i + 1;
    }
    out
}

} // verus!
