//! What the library takes on trust: the types and functions of `volatile`
//! and of `core` that it calls and that the verifier cannot look into, each
//! with what is assumed of it.

use crate::buffer::ScreenChar;
use volatile::Volatile;
use vstd::prelude::*;

verus! {

/// `volatile::Volatile<T>`: one value of a `Copy` type, kept where it is
/// only ever read and written with volatile accesses. The verifier sees
/// nothing inside it.
#[verifier::external_type_specification]
#[verifier::external_body]
#[verifier::reject_recursive_types(T)]
pub struct ExVolatile<T: Copy>(Volatile<T>);

/// `core::fmt::Error`, the error of `core::fmt::Result`. It carries nothing.
#[verifier::external_type_specification]
#[verifier::external_body]
pub struct ExFmtError(core::fmt::Error);

/// The cell that a slot of volatile memory holds: what `Volatile::read`
/// returns for it.
pub uninterp spec fn held(slot: Volatile<ScreenChar>) -> ScreenChar;

/// `Volatile::new`: wraps the given value, so the new slot holds `cell`.
#[verifier::external_body]
pub(crate) fn slot_new(cell: ScreenChar) -> (slot: Volatile<ScreenChar>)
    ensures
        held(slot) == cell,
{
    Volatile::new(cell)
}

/// `Volatile::read`: a volatile read that returns a copy of the value the
/// slot holds.
#[verifier::external_body]
pub(crate) fn slot_read(slot: &Volatile<ScreenChar>) -> (cell: ScreenChar)
    ensures
        cell == held(*slot),
{
    slot.read()
}

/// `Volatile::write`: a volatile write that sets the value the slot holds to
/// `cell`. It never panics.
#[verifier::external_body]
pub(crate) fn slot_write(slot: &mut Volatile<ScreenChar>, cell: ScreenChar)
    ensures
        held(*final(slot)) == cell,
    no_unwind
{
    slot.write(cell)
}

/// `core::array::from_fn`: builds an array by calling `f` with each index in
/// turn, so every element is what `f` returns for that element's index.
pub assume_specification<T, const N: usize, F>[ core::array::from_fn::<T, N, F> ](f: F) -> (array:
    [T; N]) where F: FnMut(usize) -> T
    requires
        forall|i: usize| i < N ==> call_requires(f, (i,)),
    ensures
        forall|i: int| 0 <= i < N ==> call_ensures(f, (i as usize,), #[trigger] array[i]),
;

} // verus!
