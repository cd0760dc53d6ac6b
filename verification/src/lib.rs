//! A heterogeneous container that stores at most one value per distinct type,
//! keyed by the type's runtime identity.
//!
//! The container itself — lazy allocation of the backing store, lookup,
//! replacement, removal, and the invariant that no two entries share a type
//! identifier — is verified.  The runtime type machinery it is built on
//! (`std::any::TypeId` and `Box<dyn Any>`) lives behind the small trusted
//! boundary in [`erased`].

pub mod erased;
pub mod laws;
pub mod store;
pub mod typemap;

pub use crate::typemap::TypeMap;
