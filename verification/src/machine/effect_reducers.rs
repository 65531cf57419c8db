//! Reducers that change no state and only turn actions into effects.

use vstd::prelude::*;
use vstd::string::StringExecFns;
use crate::machine::execution::ExecutionState;
use crate::machine::types::{
    system_service_name, Action, ActionKind, Effect, LogEvent, LogLevel, CORE_OWNER,
};
use crate::text::{decimal_digits, push_decimal};

verus! {

/// The effect an IO action asks for.
pub open spec fn io_effect(a: Action) -> Seq<Effect> {
    match a {
        Action::RegisterInterest { io, stream } => seq![Effect::WatchStream { io, stream }],
        Action::RemoveInterest { io, stream } => seq![Effect::UnwatchStream { io, stream }],
        Action::PerformIo { io } => seq![Effect::PerformIo { io }],
        _ => seq![],
    }
}

/// Turns stream interest and IO requests into reactor effects.
pub struct IoReducer;

impl IoReducer {
    pub fn handles(&self) -> (r: Vec<ActionKind>)
        ensures
            r@ == seq![ActionKind::RegisterInterest, ActionKind::RemoveInterest, ActionKind::PerformIo],
    {
        vec![ActionKind::RegisterInterest, ActionKind::RemoveInterest, ActionKind::PerformIo]
    }

    pub fn apply(&self, state: &mut ExecutionState, action: &Action, effects: &mut Vec<Effect>)
        ensures
            *final(state) == *old(state),
            final(effects)@ == old(effects)@ + io_effect(*action),
    {
        match action {
            Action::RegisterInterest { io, stream } => {
                effects.push(Effect::WatchStream { io: *io, stream: *stream });
            },
            Action::RemoveInterest { io, stream } => {
                effects.push(Effect::UnwatchStream { io: *io, stream: *stream });
            },
            Action::PerformIo { io } => {
                effects.push(Effect::PerformIo { io: *io });
            },
            _ => {},
        }
        assert(final(effects)@ =~= old(effects)@ + io_effect(*action));
    }
}

/// The effect a log action asks for.
pub open spec fn log_effect(a: Action) -> Seq<Effect> {
    match a {
        Action::EmitLog { owner, level, event } => seq![Effect::Log { owner, level, event }],
        _ => seq![],
    }
}

/// Turns log requests into log effects.
pub struct LogReducer;

impl LogReducer {
    pub fn handles(&self) -> (r: Vec<ActionKind>)
        ensures
            r@ == seq![ActionKind::EmitLog],
    {
        vec![ActionKind::EmitLog]
    }

    pub fn apply(&self, state: &mut ExecutionState, action: &Action, effects: &mut Vec<Effect>)
        ensures
            *final(state) == *old(state),
            final(effects)@ == old(effects)@ + log_effect(*action),
    {
        if let Action::EmitLog { owner, level, event } = action {
            effects.push(Effect::Log { owner: *owner, level: *level, event: event.clone() });
        }
        assert(final(effects)@ =~= old(effects)@ + log_effect(*action));
    }
}

/// The log text for a failed addon task.
pub open spec fn addon_failure_text(addon_id: u32, key: Seq<char>, err: Seq<char>) -> Seq<char> {
    "Addon "@ + decimal_digits(addon_id as nat) + " key "@ + key + " failed: "@ + err
}

/// The log text for a failed system request.
pub open spec fn system_failure_text(kind: crate::machine::types::SystemService, err: Seq<char>) -> Seq<char> {
    "SystemRequest "@ + system_service_name(kind) + " failed: "@ + err
}

/// How many effects an addon action asks for.
pub open spec fn addon_effect_count(a: Action) -> nat {
    match a {
        Action::AddonTask { .. } => 1,
        Action::AddonLog { .. } => 1,
        Action::EmitLog { .. } => 1,
        Action::SystemRequest { .. } => 1,
        Action::HandleAddonFailure { .. } => 1,
        Action::HandleSystemFailure { .. } => 1,
        _ => 0,
    }
}

/// The effect an addon action asks for; payloads are compared by their bytes.
pub open spec fn addon_effect_ok(e: Effect, a: Action) -> bool {
    match a {
        Action::AddonTask { addon_id, key, payload } => e matches Effect::AddonTask { addon_id: x, key: k, payload: p }
            && x == addon_id && k == key && p@ == payload@,
        Action::AddonLog { addon_id, level, msg } => e == (Effect::AddonLog { addon_id, level, msg }),
        Action::EmitLog { owner, level, event } => e == (Effect::Log { owner, level, event }),
        Action::SystemRequest { request_id, kind, payload } => e matches Effect::SystemRequest {
            request_id: r,
            kind: k,
            payload: p,
        } && r == request_id && k == kind && p@ == payload@,
        Action::HandleAddonFailure { addon_id, key, err } => e matches Effect::Log {
            owner,
            level,
            event: LogEvent::Error { id, err: m },
        } && owner == addon_id && level == LogLevel::Error && id == 0 && m@ == addon_failure_text(
            addon_id,
            key@,
            err@,
        ),
        Action::HandleSystemFailure { request_id, kind, err } => e matches Effect::Log {
            owner,
            level,
            event: LogEvent::Error { id, err: m },
        } && owner == CORE_OWNER && level == LogLevel::Error && id == request_id && m@ == system_failure_text(
            kind,
            err@,
        ),
        _ => false,
    }
}

/// Turns addon and system requests, and their failures, into effects.
pub struct AddonReducer;

fn copy_bytes(v: &Vec<u8>) -> (r: Vec<u8>)
    ensures
        r@ == v@,
{
    let r = v.clone();
    assert(r@ =~= v@);
    r
}

impl AddonReducer {
    pub fn handles(&self) -> (r: Vec<ActionKind>)
        ensures
            r@ == seq![
                ActionKind::AddonTask,
                ActionKind::AddonEvent,
                ActionKind::SystemRequest,
                ActionKind::HandleAddonFailure,
                ActionKind::HandleSystemFailure,
            ],
    {
        vec![
            ActionKind::AddonTask,
            ActionKind::AddonEvent,
            ActionKind::SystemRequest,
            ActionKind::HandleAddonFailure,
            ActionKind::HandleSystemFailure,
        ]
    }

    pub fn apply(&self, state: &mut ExecutionState, action: &Action, effects: &mut Vec<Effect>)
        ensures
            *final(state) == *old(state),
            final(effects)@.len() == old(effects)@.len() + addon_effect_count(*action),
            final(effects)@.take(old(effects)@.len() as int) == old(effects)@,
            addon_effect_count(*action) == 1 ==> addon_effect_ok(final(effects)@.last(), *action),
    {
        match action {
            Action::AddonTask { addon_id, key, payload } => {
                effects.push(Effect::AddonTask { addon_id: *addon_id, key: key.clone(), payload: copy_bytes(payload) });
            },
            Action::AddonLog { addon_id, level, msg } => {
                effects.push(Effect::AddonLog { addon_id: *addon_id, level: *level, msg: msg.clone() });
            },
            Action::AddonEvent { .. } => {},
            Action::EmitLog { owner, level, event } => {
                effects.push(Effect::Log { owner: *owner, level: *level, event: event.clone() });
            },
            Action::SystemRequest { request_id, kind, payload } => {
                effects.push(
                    Effect::SystemRequest { request_id: *request_id, kind: *kind, payload: copy_bytes(payload) },
                );
            },
            Action::HandleAddonFailure { addon_id, key, err } => {
                let mut m = String::from_str("Addon ");
                push_decimal(&mut m, *addon_id as u64);
                m.append(" key ");
                m.append(key.as_str());
                m.append(" failed: ");
                m.append(err.as_str());
                proof {
                    assert(m@ =~= addon_failure_text(*addon_id, key@, err@));
                }
                effects.push(
                    Effect::Log { owner: *addon_id, level: LogLevel::Error, event: LogEvent::Error { id: 0, err: m } },
                );
            },
            Action::HandleSystemFailure { request_id, kind, err } => {
                let mut m = String::from_str("SystemRequest ");
                m.append(kind.name());
                m.append(" failed: ");
                m.append(err.as_str());
                proof {
                    assert(m@ =~= system_failure_text(*kind, err@));
                }
                effects.push(
                    Effect::Log {
                        owner: CORE_OWNER,
                        level: LogLevel::Error,
                        event: LogEvent::Error { id: *request_id, err: m },
                    },
                );
            },
            _ => {},
        }
        assert(final(effects)@.take(old(effects)@.len() as int) =~= old(effects)@);
    }
}

} // verus!
