//! Declarations of std's mutable slice iteration, which the containers hand out.
use vstd::prelude::*;

verus! {

/// Declares std::slice::IterMut, the iterator that `<[X]>::iter_mut` returns;
/// nothing is assumed of its contents.
#[verifier::external_type_specification]
#[verifier::external_body]
#[verifier::reject_recursive_types(E)]
pub struct ExIterMut<'a, E: 'a>(std::slice::IterMut<'a, E>);

/// Relies on `<[X]>::iter_mut` only to borrow the slice; its result is left
/// unspecified.
pub assume_specification<X>[ <[X]>::iter_mut ](s: &mut [X]) -> std::slice::IterMut<'_, X>;

} // verus!
