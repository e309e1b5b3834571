//! Type keys and type-erased references.
//!
//! The world stores values of many component and resource types side by
//! side; telling them apart at run time rests on `std::any::TypeId` and
//! `std::any::Any`, which the items here wrap.  What a downcast yields
//! depends on the dynamic type behind a reference, which these contracts
//! leave unstated.

use vstd::prelude::*;
use std::any::{Any, TypeId};

verus! {

/// `std::any::TypeId`, carried as an opaque key.
#[verifier::external_type_specification]
#[verifier::external_body]
pub struct ExTypeId(TypeId);

/// Calls `TypeId::of::<T>()`.  Nothing is stated of the key it returns.
#[verifier::external_body]
pub(crate) fn type_key<T: ?Sized + 'static>() -> TypeId {
    TypeId::of::<T>()
}

/// Compares two keys with `TypeId`'s derived `==`, which compares the keys'
/// contents; the contract claims that this agrees with equality of the values.
#[verifier::external_body]
pub(crate) fn same_key(a: &TypeId, b: &TypeId) -> (r: bool)
    ensures
        r == (*a == *b),
{
    *a == *b
}

/// A shared reference to a value seen through `dyn Any`.
#[verifier::external_body]
pub struct AnyRef<'a> {
    inner: &'a (dyn Any + Send + Sync),
}

/// An exclusive reference to a value seen through `dyn Any`.
#[verifier::external_body]
pub struct AnyMut<'a> {
    inner: &'a mut (dyn Any + Send + Sync),
}

/// An owned value seen through `dyn Any`.
#[verifier::external_body]
pub struct AnyBox {
    inner: Box<dyn Any + Send + Sync>,
}

/// Coerces a shared reference to `&dyn Any`.
#[verifier::external_body]
pub(crate) fn erase_ref<S: Send + Sync + 'static>(s: &S) -> AnyRef<'_> {
    AnyRef { inner: s }
}

/// Coerces an exclusive reference to `&mut dyn Any`.  Nothing is stated of
/// what is done through it.
#[verifier::external_body]
pub(crate) fn erase_mut<S: Send + Sync + 'static>(s: &mut S) -> AnyMut<'_> {
    AnyMut { inner: s }
}

/// Boxes a value as `Box<dyn Any>`.
#[verifier::external_body]
pub(crate) fn erase_box<S: Send + Sync + 'static>(s: S) -> AnyBox {
    AnyBox { inner: Box::new(s) }
}

/// Calls `<dyn Any>::downcast_ref::<S>()`: `Some` exactly when the value
/// behind the reference has type `S`, which is left unstated here.
#[verifier::external_body]
pub(crate) fn downcast_ref<'a, S: 'static>(a: AnyRef<'a>) -> Option<&'a S> {
    a.inner.downcast_ref::<S>()
}

/// Calls `<dyn Any>::downcast_mut::<S>()`; see `downcast_ref`.
#[verifier::external_body]
pub(crate) fn downcast_mut<'a, S: 'static>(a: AnyMut<'a>) -> Option<&'a mut S> {
    a.inner.downcast_mut::<S>()
}

/// Calls `<dyn Any>::downcast_ref::<S>()` on a boxed value; see `downcast_ref`.
#[verifier::external_body]
pub(crate) fn box_downcast_ref<S: 'static>(b: &AnyBox) -> Option<&S> {
    b.inner.downcast_ref::<S>()
}

/// Calls `<dyn Any>::downcast_mut::<S>()` on a boxed value; see `downcast_ref`.
#[verifier::external_body]
pub(crate) fn box_downcast_mut<S: 'static>(b: &mut AnyBox) -> Option<&mut S> {
    b.inner.downcast_mut::<S>()
}

} // verus!
