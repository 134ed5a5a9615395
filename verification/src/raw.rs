//! A storage that holds one value.

use vstd::prelude::*;

verus! {

/// A value kept as a storage of its own.
pub struct RawStorage<T> {
    pub data: T,
}

/// Wraps `data` as a storage.
pub fn storage<T>(data: T) -> (raw: RawStorage<T>)
    ensures
        raw.data == data,
{
    RawStorage { data }
}

} // verus!
