use vstd::prelude::*;
use crate::arithmetic::Integer;

verus! {

/// The scalar-field capability a curve backend provides: elements of the
/// integers modulo the curve's group order, built from arbitrary-precision
/// integers by reduction.
pub trait ECScalar: Sized {
    /// The number this scalar stands for.
    spec fn s_val(&self) -> nat;

    /// Validity of the representation.
    spec fn s_wf(&self) -> bool;

    /// The order of the curve's group.
    spec fn order() -> nat;

    /// Maps an integer into the scalar field by reduction modulo the group
    /// order; defined for every non-negative integer, including zero and
    /// values at or above the order.
    fn from_integer(n: &Integer) -> (r: Self)
        requires
            n.wf(),
        ensures
            r.s_wf(),
            r.s_val() == n.value() % Self::order(),
            r.s_val() < Self::order(),
    ;

    /// The scalar read back as an arbitrary-precision integer.
    fn to_big_int(&self) -> (r: Integer)
        requires
            self.s_wf(),
        ensures
            r.wf(),
            r.value() == self.s_val(),
    ;
}

/// The group-element capability a curve backend provides: a point on the
/// curve together with its canonical public-key byte encoding and the curve's
/// fixed reference points.
pub trait ECPoint: Sized {
    type Scalar: ECScalar;

    /// The canonical byte encoding of this point; it depends on the point
    /// alone, never on the call.
    spec fn encoded(&self) -> Seq<u8>;

    /// The encoding of the curve's designated base point.
    spec fn generator_encoding() -> Seq<u8>;

    /// The encoding of the curve's second reference point.
    spec fn second_generator_encoding() -> Seq<u8>;

    /// The canonical public-key byte encoding, as the transcript hashes it.
    fn to_encoded_bytes(&self) -> (r: Vec<u8>)
        ensures
            r@ == self.encoded(),
    ;

    /// The curve's designated base point.
    fn generator() -> (r: Self)
        ensures
            r.encoded() == Self::generator_encoding(),
    ;

    /// A second reference point, chosen so that its discrete-log relation to
    /// the base point stays unknown.
    fn second_generator() -> (r: Self)
        ensures
            r.encoded() == Self::second_generator_encoding(),
    ;
}

} // verus!
