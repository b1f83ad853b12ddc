//! Bit vectors of the `bit_vec` crate, as seen by the verified code.
//!
//! A `BitVec` is opaque to Verus; `bit_values` names the bits it holds, and
//! each wrapper below states what the crate's method does to them.
use bit_vec::BitVec;
use vstd::prelude::*;

verus! {

/// Declares `bit_vec::BitVec` so that it may stand in signatures.
#[verifier::external_type_specification]
#[verifier::external_body]
#[verifier::reject_recursive_types(B)]
pub struct ExBitVec<B>(BitVec<B>);

/// The bits a bit vector holds, in order.
pub uninterp spec fn bit_values(b: BitVec) -> Seq<bool>;

/// Bit `k` (0 is the most significant) of a byte.
pub open spec fn byte_bit(byte: u8, k: int) -> bool {
    ((byte as int) / pow2_u8(7 - k)) % 2 == 1
}

/// `2^e` for `0 <= e < 8`.
pub open spec fn pow2_u8(e: int) -> int
    decreases e,
{
    if e <= 0 {
        1
    } else {
        2 * pow2_u8(e - 1)
    }
}

/// The bits of a byte string, each byte most significant bit first.
pub open spec fn bytes_to_bits(bytes: Seq<u8>) -> Seq<bool> {
    Seq::new(8 * bytes.len(), |i: int| byte_bit(bytes[i / 8], i % 8))
}

/// `BitVec::from_elem(n, bit)`: a vector of `n` copies of `bit`.
#[verifier::external_body]
pub(crate) fn bv_from_elem(n: usize, bit: bool) -> (r: BitVec)
    ensures
        bit_values(r) == Seq::new(n as nat, |_i: int| bit),
{
    BitVec::from_elem(n, bit)
}

/// `BitVec::from_bytes`: eight bits per byte, most significant bit first.
/// The crate panics when the bit count overflows `usize`, so that input is
/// left out.
#[verifier::external_body]
pub(crate) fn bv_from_bytes(bytes: &[u8]) -> (r: BitVec)
    requires
        8 * bytes@.len() <= usize::MAX,
    ensures
        bit_values(r) == bytes_to_bits(bytes@),
{
    BitVec::from_bytes(bytes)
}

/// `BitVec::len`: the number of bits held.
#[verifier::external_body]
pub(crate) fn bv_len(b: &BitVec) -> (r: usize)
    ensures
        r == bit_values(*b).len(),
{
    b.len()
}

/// `BitVec::set`: replaces the bit at `i`; the crate panics past the end.
#[verifier::external_body]
pub(crate) fn bv_set(b: &mut BitVec, i: usize, x: bool)
    requires
        i < bit_values(*old(b)).len(),
    ensures
        bit_values(*final(b)) == bit_values(*old(b)).update(i as int, x),
{
    b.set(i, x)
}

/// `BitVec::intersect`: bitwise `and` in place; returns whether a bit
/// changed. The crate panics on vectors of different lengths.
#[verifier::external_body]
#[allow(deprecated)]
pub(crate) fn bv_intersect(b: &mut BitVec, other: &BitVec) -> (r: bool)
    requires
        bit_values(*old(b)).len() == bit_values(*other).len(),
    ensures
        bit_values(*final(b)).len() == bit_values(*old(b)).len(),
        forall|k: int|
            0 <= k < bit_values(*old(b)).len() ==> #[trigger] bit_values(*final(b))[k] == (bit_values(*old(b))[k] && bit_values(*other)[k]),
        r == (exists|k: int|
            0 <= k < bit_values(*old(b)).len() && #[trigger] bit_values(*old(b))[k]
                && !bit_values(*other)[k]),
{
    b.intersect(other)
}

/// `BitVec::negate`: flips every bit.
#[verifier::external_body]
pub(crate) fn bv_negate(b: &mut BitVec)
    ensures
        bit_values(*final(b)).len() == bit_values(*old(b)).len(),
        forall|k: int|
            0 <= k < bit_values(*old(b)).len() ==> #[trigger] bit_values(*final(b))[k]
                == !bit_values(*old(b))[k],
{
    b.negate()
}

/// `BitVec::grow(n, value)`: appends `n` copies of `value`. The crate panics
/// when the new length overflows `usize`, so that input is left out.
#[verifier::external_body]
pub(crate) fn bv_grow(b: &mut BitVec, n: usize, value: bool)
    requires
        bit_values(*old(b)).len() + n <= usize::MAX,
    ensures
        bit_values(*final(b)) == bit_values(*old(b)) + Seq::new(n as nat, |_i: int| value),
{
    b.grow(n, value)
}

/// `BitVec::none`: whether no bit is set.
#[verifier::external_body]
pub(crate) fn bv_none(b: &BitVec) -> (r: bool)
    ensures
        r == (forall|k: int| 0 <= k < bit_values(*b).len() ==> !#[trigger] bit_values(*b)[k]),
{
    b.none()
}

/// `BitVec::clone`: a vector with the same bits.
#[verifier::external_body]
pub(crate) fn bv_clone(b: &BitVec) -> (r: BitVec)
    ensures
        bit_values(r) == bit_values(*b),
{
    b.clone()
}

} // verus!
