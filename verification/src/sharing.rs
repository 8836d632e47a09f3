//! Sharing and copying values.
use std::sync::Arc;
use vstd::prelude::*;

verus! {

/// `Arc::clone` makes another pointer to the same value.
#[verifier::external_body]
pub(crate) fn share<T>(value: &Arc<T>) -> (other: Arc<T>)
    ensures
        other == *value,
{
    value.clone()
}

/// A value of which a copy can be made.
pub trait Replica: Sized {
    /// Whether another value holds the same.
    spec fn agrees(&self, other: &Self) -> bool;

    /// Another value that holds the same.
    fn replica(&self) -> (r: Self)
        ensures
            self.agrees(&r),
    ;
}

impl Replica for () {
    open spec fn agrees(&self, other: &()) -> bool {
        *self == *other
    }

    fn replica(&self) -> (r: ()) {
        ()
    }
}

impl Replica for i16 {
    open spec fn agrees(&self, other: &i16) -> bool {
        *self == *other
    }

    fn replica(&self) -> (r: i16) {
        *self
    }
}

impl Replica for i32 {
    open spec fn agrees(&self, other: &i32) -> bool {
        *self == *other
    }

    fn replica(&self) -> (r: i32) {
        *self
    }
}

impl Replica for String {
    open spec fn agrees(&self, other: &String) -> bool {
        *self == *other
    }

    fn replica(&self) -> (r: String) {
        self.clone()
    }
}

impl<T> Replica for Arc<T> {
    open spec fn agrees(&self, other: &Arc<T>) -> bool {
        *self == *other
    }

    fn replica(&self) -> (r: Arc<T>) {
        share(self)
    }
}

/// Another pointer to the same value, where there is one.
pub fn share_some<T>(value: &Option<Arc<T>>) -> (other: Option<Arc<T>>)
    ensures
        other == *value,
{
    match value {
        Some(v) => Some(share(v)),
        None => None,
    }
}

} // verus!
