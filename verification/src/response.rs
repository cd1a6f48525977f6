//! The frame of an answer that carries data.
use vstd::prelude::*;

verus! {

/// An answer to a request that was granted.
pub struct Success<T> {
    pub success: bool,
    pub data: T,
}

impl<T> Success<T> {
    pub fn new(data: T) -> (result: Self)
        ensures
            result == (Success { success: true, data }),
    {
        Success { success: true, data }
    }
}

} // verus!
