//! The names under which the request handlers find the shared state: the
//! store's connection pool, the pies by price, the pie ids, the pies by id,
//! and the label bit vectors.
use vstd::prelude::*;

verus! {

/// Names the pool of connections to the store.
#[derive(Clone, Copy, Debug, PartialEq, Eq, Structural)]
pub struct Redis;

/// Names the pies ordered by price, dearest first.
#[derive(Clone, Copy, Debug, PartialEq, Eq, Structural)]
pub struct SortedPies;

/// Names the list of pie ids.
#[derive(Clone, Copy, Debug, PartialEq, Eq, Structural)]
pub struct AllPieId;

/// Names the pies by id, each with its position in the price order.
#[derive(Clone, Copy, Debug, PartialEq, Eq, Structural)]
pub struct IdIndex;

/// Names the bit vectors of the pies that carry each label.
#[derive(Clone, Copy, Debug, PartialEq, Eq, Structural)]
pub struct LabelBitVec;

} // verus!
