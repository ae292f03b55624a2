//! Shared state: a value behind a reference count.

use std::sync::Arc;
use vstd::prelude::*;

verus! {

/// `Arc::clone`: another handle on the same value.
#[verifier::external_body]
fn share<T: ?Sized>(handle: &Arc<T>) -> (other: Arc<T>)
    ensures
        other == *handle,
{
    Arc::clone(handle)
}

/// A value that its holders share.
#[derive(Debug)]
pub struct Data<T: ?Sized>(Arc<T>);

impl<T> Data<T> {
    /// Puts a value behind a new handle.
    pub fn new(state: T) -> (data: Data<T>)
        ensures
            *data.get() == state,
    {
        Data(Arc::new(state))
    }
}

impl<T: ?Sized> Data<T> {
    /// The value that the handle shares.
    pub closed spec fn get(&self) -> &T {
        &*self.0
    }

    /// The value that the handle shares.
    pub fn get_ref(&self) -> (state: &T)
        ensures
            state == self.get(),
    {
        &self.0
    }

    /// Gives up the wrapper and keeps the handle.
    pub fn into_inner(self) -> (handle: Arc<T>)
        ensures
            &*handle == self.get(),
    {
        self.0
    }

    /// Wraps a handle.
    pub fn from_arc(value: Arc<T>) -> (data: Self)
        ensures
            data.get() == &*value,
    {
        Data(value)
    }
}

impl<T: ?Sized> Clone for Data<T> {
    fn clone(&self) -> (other: Self)
        ensures
            other.get() == self.get(),
    {
        Data(share(&self.0))
    }
}

} // verus!
