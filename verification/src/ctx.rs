//! The execution context: stateless per call, it turns the frame encoder's
//! outcome into the store-bound request and what the store returned into a
//! protocol-level reply. The surrounding server performs the store call
//! itself and owns any transaction handle; this core only classifies the
//! outcomes on either side of it.

use vstd::prelude::*;

use crate::errors::CommandError;
use crate::mix::Frame;

verus! {

/// Routing identifier of the table the mix commands address.
pub const MIX_TABLE_ID: u64 = 153;

/// Stateless execution context for one store-bound command.
#[derive(Debug, Clone)]
pub struct MixCommandCtx {}

impl MixCommandCtx {
    pub fn new() -> (r: MixCommandCtx)
        ensures
            r == (MixCommandCtx {  }),
    {
        MixCommandCtx {  }
    }

    /// Classifies the frame encoder's outcome: an encoded frame passes
    /// through as the store's wire request, an encoder failure becomes
    /// `EncodingError` (deterministic, so never retried).
    pub fn prepare_request(&self, encoded: Result<Vec<u8>, String>) -> (r: Result<
        Vec<u8>,
        CommandError,
    >)
        ensures
            match encoded {
                Ok(b) => r matches Ok(rb) && rb@ == b@,
                Err(m) => (r matches Err(e) && (e matches CommandError::EncodingError(em) && em@
                    == m@)),
            },
    {
        match encoded {
            Ok(b) => Ok(b),
            Err(m) => Err(CommandError::EncodingError(m)),
        }
    }

    /// Classifies what the store call returned: a payload is wrapped as an
    /// opaque raw reply, a store failure is propagated unchanged.
    pub fn finish_response(&self, outcome: Result<Vec<u8>, String>) -> (r: Result<
        Frame,
        CommandError,
    >)
        ensures
            match outcome {
                Ok(v) => (r matches Ok(fr) && (fr matches Frame::Raw(b) && b@ == v@)),
                Err(m) => (r matches Err(e) && (e matches CommandError::StoreError(em) && em@
                    == m@)),
            },
    {
        match outcome {
            Ok(v) => Ok(Frame::Raw(v)),
            Err(m) => Err(CommandError::StoreError(m)),
        }
    }
}

} // verus!
