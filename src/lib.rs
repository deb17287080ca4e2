//! Shared state with change notification: cells with observers, a registry
//! of named cells, a store with one instance per type, reactive signals, and
//! an id-keyed manager with whole-value notification.
//!
//! Each piece is single-owner bookkeeping: the caller keeps it behind its
//! locks, performs the observer calls that a release hands back, and does so
//! only after giving up the value's lock.
mod assoc;
pub mod container;
pub mod global_state;
pub mod notify;
pub mod signal;
pub mod state;
pub mod state_manager;

pub use container::GlobalStateContainer;
pub use global_state::{
    get_global_state, register_global_state, unregister_global_state, GlobalState,
    GlobalStateRegistry, GlobalStateWriteGuard,
};
pub use notify::Notification;
pub use signal::{Signal, SignalChange};
pub use state::{AutoState, StateWrapper};
pub use state_manager::{State, StateManager, StateReadGuard, StateWriteGuard};
