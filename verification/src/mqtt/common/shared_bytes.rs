//! Reference-counted byte buffers (`Arc<[u8]>`), as used for payloads.
use std::sync::Arc;
use vstd::prelude::*;

verus! {

/// Moves the bytes of `v` into a new shared buffer.
///
/// Calls std's `impl From<Vec<T>> for Arc<[T]>`; the contract claims, as its
/// documentation says, that the buffer holds the bytes of `v`.
#[verifier::external_body]
pub(crate) fn arc_from_vec(v: Vec<u8>) -> (r: Arc<[u8]>)
    ensures
        (*r)@ == v@,
{
    Arc::from(v)
}

/// Copies `s` into a new shared buffer.
///
/// Calls std's `impl From<&[T]> for Arc<[T]>`; the contract claims that the buffer
/// holds the bytes of `s`.
#[verifier::external_body]
pub(crate) fn arc_from_slice(s: &[u8]) -> (r: Arc<[u8]>)
    ensures
        (*r)@ == s@,
{
    Arc::from(s)
}

/// Borrows the bytes of a shared buffer.
///
/// Calls std's `<Arc<[u8]> as AsRef<[u8]>>::as_ref`; the contract claims that the
/// slice is the buffer's contents.
#[verifier::external_body]
pub(crate) fn arc_as_slice(a: &Arc<[u8]>) -> (r: &[u8])
    ensures
        r@ == (**a)@,
{
    a.as_ref()
}

/// Another handle to the same shared buffer.
///
/// Calls `<Arc<[u8]> as Clone>::clone`; the contract claims that the new handle
/// sees the same bytes.
#[verifier::external_body]
pub(crate) fn arc_clone(a: &Arc<[u8]>) -> (r: Arc<[u8]>)
    ensures
        (*r)@ == (**a)@,
{
    a.clone()
}

} // verus!
