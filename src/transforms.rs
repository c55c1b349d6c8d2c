//! The transform values of the `barnsley` crate, as seen by the verified code.
//!
//! A transform carries floating-point coefficients, so it stays opaque here:
//! the coordination layer only copies transforms around and compares their
//! kinds, which `barnsley` reports as a name.
use vstd::prelude::*;
use barnsley::transform::Transformable;

verus! {

/// `barnsley::transform::Transform`, an enum over the four transform kinds.
#[verifier::external_type_specification]
#[verifier::external_body]
pub struct ExTransform(barnsley::transform::Transform);

/// The kind name that `barnsley` reports for a transform.
pub uninterp spec fn transform_name(t: barnsley::transform::Transform) -> Seq<char>;

/// The four kind names that `barnsley` knows.
pub open spec fn is_kind_name(s: Seq<char>) -> bool {
    ||| s == "LinearTransform"@
    ||| s == "AffineTransform"@
    ||| s == "MoebiusTransform"@
    ||| s == "InverseJuliaTransform"@
}

/// Relies on `Transformable::get_name` of `barnsley::transform::Transform`:
/// each variant returns its fixed kind name, one of the four names above.
#[verifier::external_body]
pub(crate) fn kind_name(t: &barnsley::transform::Transform) -> (r: String)
    ensures
        r@ == transform_name(*t),
        is_kind_name(r@),
{
    t.get_name()
}

/// Relies on `barnsley::transform::transform_from_str`: for a known kind name
/// it returns a transform of that kind with freshly drawn random parameters
/// (it panics on any other name).
#[verifier::external_body]
pub(crate) fn random_of_kind(name: &String) -> (r: barnsley::transform::Transform)
    requires
        is_kind_name(name@),
    ensures
        transform_name(r) == name@,
{
    barnsley::transform::transform_from_str(name.clone())
}

} // verus!
