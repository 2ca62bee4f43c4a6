use vstd::prelude::*;

use crate::mem::signatures::SignatureError;

verus! {

/// Errors of the memory layer.
#[derive(Debug)]
pub enum MemoryError {
    SignatureError(SignatureError),
}

impl MemoryError {
    /// The error's message: that of the signature error it wraps.
    pub fn message(&self) -> (res: String)
        ensures
            match self {
                MemoryError::SignatureError(e) => res@ == e@,
            },
    {
        match self {
            MemoryError::SignatureError(e) => e.message(),
        }
    }
}

impl From<SignatureError> for MemoryError {
    fn from(e: SignatureError) -> (res: MemoryError) {
        MemoryError::SignatureError(e)
    }
}

impl vstd::std_specs::convert::FromSpecImpl<SignatureError> for MemoryError {
    open spec fn obeys_from_spec() -> bool {
        true
    }

    open spec fn from_spec(e: SignatureError) -> MemoryError {
        MemoryError::SignatureError(e)
    }
}

} // verus!
