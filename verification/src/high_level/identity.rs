//! Who asked for an action.

use vstd::prelude::*;
use crate::machine::types::{CauseId, Intent};

verus! {

#[derive(Clone, Copy, Debug, PartialEq, Eq, Hash, Structural)]
pub enum Principal {
    System,
    User(u32),
    Addon(u32),
}

impl Principal {
    /// Uid 0 is the system itself; any other uid is an ordinary user.
    pub fn new_user(uid: u32) -> (r: Self)
        ensures
            r == (if uid == 0 { Principal::System } else { Principal::User(uid) }),
    {
        if uid == 0 {
            Principal::System
        } else {
            Principal::User(uid)
        }
    }
}

pub struct Request {
    pub client_id: Option<u32>,
    pub principal: Principal,
    pub intent: Intent,
    pub cause: CauseId,
}

} // verus!
