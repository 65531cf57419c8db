//! The pure state machine layer: events, actions, reducers and state.

pub mod core_state;
pub mod effect_reducers;
pub mod engine;
pub mod execution;
pub mod io;
pub mod job_table;
pub mod lifecycle;
pub mod policy;
pub mod process;
pub mod reducer;
pub mod result;
pub mod routing;
pub mod scheduler;
pub mod state;
pub mod state_view;
pub mod store_reducers;
pub mod types;
pub mod validation;
pub mod verify;
pub mod warmup;
