//! Core of an in-browser voice recorder: the list of live audio processors,
//! the record-state token kept on a trigger, the codec snapshot and the
//! start/stop state machine of a trigger.

pub mod handles;
pub mod state;
pub mod codec;
pub mod recorder;
