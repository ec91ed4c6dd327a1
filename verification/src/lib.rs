//! Exact serial-manipulator kinematics over a product-of-exponentials chain.
//!
//! Geometry is held in exactly represented rational scalars, so rotation and
//! translation composition, joint elimination and the degeneracy repair are
//! computed and specified without rounding. A joint angle enters the chain
//! only through its cosine and sine, which callers supply as a [`rat::Rat`]
//! pair; numeric front ends convert to and from machine floats outside this
//! crate.

pub mod harness;
pub mod linalg;
pub mod model;
pub mod parse;
pub mod rat;
pub mod reduce;
pub mod robots;

use vstd::prelude::*;

verus! {

/// Faults surfaced by this library.
#[derive(Clone, Copy, Debug, PartialEq, Eq, Structural)]
pub enum KinError {
    /// Malformed geometry configuration text: wrong token count or an
    /// unparseable number.
    ParseError,
    /// The two axes of the degeneracy repair are parallel: the Gram
    /// determinant of the pseudo-inverse solve is exactly zero.
    NumericalDegeneracy,
    /// An exact intermediate left the representable range of the scalars.
    RangeExhausted,
}

/// Lifts a value that is absent only on range exhaustion into a result.
pub fn req<T>(o: Option<T>) -> (r: Result<T, KinError>)
    ensures
        o is Some <==> r is Ok,
        r is Ok ==> r.unwrap() == o.unwrap(),
        r is Err ==> r == Result::<T, KinError>::Err(KinError::RangeExhausted),
{
    match o {
        Some(v) => Ok(v),
        None => Err(KinError::RangeExhausted),
    }
}

} // verus!
