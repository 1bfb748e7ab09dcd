//! Core logic of a one-button melody appliance.
//!
//! A noisy digital input is debounced into clean press/release events; a
//! press toggles an indicator output and arms or disarms a playback
//! sequencer that walks a cyclic stream of tone commands, one step per
//! timer tick. All state transitions happen through a single tick entry
//! point, mirroring a firmware design where one periodic interrupt owns
//! every piece of mutable state.

pub mod button;
pub mod device;
pub mod playback;
