//! Request validation against the current state.

use vstd::prelude::*;
use crate::high_level::identity::Request;
use crate::machine::state_view::StateView;
use crate::machine::types::Intent;

verus! {

#[derive(Debug, Clone, Copy, PartialEq, Eq, Structural)]
pub enum ErrorCode {
    InvalidJobId,
    InvalidHandle,
    DuplicateProcessAssignment,
    IllegalTransition,
    Unknown,
}

/// A control request or a query names a job the state knows; every other
/// request is valid as it stands.
pub open spec fn request_valid<S: StateView>(req: Request, state: &S) -> bool {
    match req.intent {
        Intent::Control { id, .. } => state.job_view(id) is Some,
        Intent::Query { id } => state.job_view(id) is Some,
        _ => true,
    }
}

pub fn validate_request<S: StateView>(req: &Request, state: &S) -> (r: Result<(), ErrorCode>)
    ensures
        r is Ok <==> request_valid(*req, state),
        r matches Err(e) ==> e == ErrorCode::InvalidJobId,
{
    match &req.intent {
        Intent::Control { id, .. } | Intent::Query { id } => {
            if state.job(*id).is_none() {
                return Err(ErrorCode::InvalidJobId);
            }
        },
        _ => {},
    }
    Ok(())
}

} // verus!
