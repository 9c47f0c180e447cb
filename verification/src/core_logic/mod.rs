//! Backend-neutral core: configuration types, logging levels, retry state,
//! config adaptation and the controller state machine.
pub mod config;
pub mod logging;
pub mod paths;
pub mod recovery;
pub mod time;
pub mod adaptation;
pub mod state_machine;
