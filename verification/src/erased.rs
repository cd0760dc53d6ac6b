//! The trusted boundary around type erasure.
//!
//! Everything the verifier cannot see about runtime types lives here: the
//! runtime type identifier (`std::any::TypeId`) and the type-erased holder
//! (`Box<dyn Any>`).  Each item's contract states no more than the standard
//! library documents.  The rest of the crate is verified against these
//! contracts alone.

use vstd::prelude::*;

verus! {

/// Relies on `std::any::TypeId`: a unique, stable identifier for a static
/// type, generated by the compiler.  The verifier treats a `TypeId` as an
/// opaque value; it can be stored and compared, nothing more.
#[verifier::external_type_specification]
#[verifier::external_body]
pub struct ExTypeId(core::any::TypeId);

/// Relies on `std::any::TypeId::of`: returns the identifier of the type `T`.
///
/// The standard library guarantees that distinct types have distinct
/// identifiers and that repeated calls for one type return equal values.
/// Neither fact can be stated here, because the identifier would have to be
/// a mathematical function of the type itself; callers therefore treat each
/// call as producing some identifier, and every contract downstream is
/// phrased over the identifier value actually obtained.
pub assume_specification<T: ?Sized + 'static>[ core::any::TypeId::of::<T> ]() -> (r:
    core::any::TypeId);

/// Relies on `TypeId`'s `==` (its derived `PartialEq`): two identifiers
/// compare equal exactly when they are the same value.
#[verifier::external_body]
pub(crate) fn type_id_eq(a: &core::any::TypeId, b: &core::any::TypeId) -> (r: bool)
    ensures
        r == (a == b),
{
    a == b
}

/// A type-erased holder: owns exactly one value of some concrete type, with
/// that type forgotten.  The verifier sees a `Slot` as an opaque value; the
/// only way to look inside is through the trusted downcasts below, and the
/// only way to make one is `Slot::erase`.
///
/// Relies on `Box<dyn Any + Send + Sync>` for ownership of the erased value.
#[verifier::external_body]
pub struct Slot {
    inner: Box<dyn core::any::Any + Send + Sync>,
}

impl Slot {
    /// Relies on `Box::new` and the unsizing coercion to `dyn Any`: the
    /// returned holder owns `value` and nothing else.  Which value a `Slot`
    /// holds is not representable in specifications, so nothing is promised
    /// of the result.
    #[verifier::external_body]
    pub(crate) fn erase<T: Send + Sync + 'static>(value: T) -> (r: Slot) {
        Slot { inner: Box::new(value) }
    }

    /// Relies on `Box::<dyn Any>::downcast`: returns the held value when it
    /// is of type `T`, and `None` otherwise, never misreading memory.
    #[verifier::external_body]
    pub(crate) fn downcast_owned<T: 'static>(self) -> (r: Option<T>) {
        (self.inner as Box<dyn core::any::Any>).downcast::<T>().ok().map(|b| *b)
    }

    /// Relies on `<dyn Any>::downcast_ref`: returns a reference to the held
    /// value when it is of type `T`, and `None` otherwise.
    #[verifier::external_body]
    pub(crate) fn downcast_ref<T: 'static>(&self) -> (r: Option<&T>) {
        (*self.inner).downcast_ref::<T>()
    }

    /// Relies on `<dyn Any>::downcast_mut`: returns a mutable reference to
    /// the held value when it is of type `T`, and `None` otherwise.  The
    /// cast itself writes nothing, so a failed cast leaves the holder as it
    /// was; after a successful one the caller may write through the
    /// reference, so nothing is promised of the holder's final contents.
    #[verifier::external_body]
    pub(crate) fn downcast_mut<T: 'static>(&mut self) -> (r: Option<&mut T>)
        ensures
            r is None ==> *final(self) == *old(self),
    {
        (*self.inner).downcast_mut::<T>()
    }
}

} // verus!
