//! The errors of the store.

use vstd::prelude::*;

verus! {

/// Why an operation on the store was refused.
#[derive(Clone, Copy, Debug, PartialEq, Eq, Structural)]
pub enum StoreError {
    /// The component kind was never registered.
    UnregisteredComponent,
    /// The resource was never inserted.
    ResourceMissing,
    /// The handle names no entity of the store.
    StaleEntityHandle,
}

impl StoreError {
    /// The error in words.
    pub fn message(&self) -> (text: &'static str)
        ensures
            text@ == self.spec_message(),
    {
        match self {
            StoreError::UnregisteredComponent => "component kind was never registered",
            StoreError::ResourceMissing => "resource was never inserted",
            StoreError::StaleEntityHandle => "handle names no entity of the store",
        }
    }

    /// The words of `message`.
    pub open spec fn spec_message(&self) -> Seq<char> {
        match self {
            StoreError::UnregisteredComponent => "component kind was never registered"@,
            StoreError::ResourceMissing => "resource was never inserted"@,
            StoreError::StaleEntityHandle => "handle names no entity of the store"@,
        }
    }
}

} // verus!
