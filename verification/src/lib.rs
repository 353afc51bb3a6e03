//! A verified CHIP-8 interpreter core: a 16-bit instruction decoder and a
//! single-step execution engine over the machine state (registers, memory,
//! stack, timers, framebuffer).
//!
//! The rendering, audio and input backends are collaborators that a driver
//! supplies through the traits below; the core itself never performs I/O.

use vstd::prelude::*;

use std::collections::HashMap;

pub mod chip8;
pub mod instruction;
pub mod lemmas;
pub mod opcode;

verus! {

/// Whether the driver loop should keep running, as reported by the input
/// collaborator.
pub enum ApplicationState {
    Running,
    Stopping,
}

/// A rendering/audio collaborator: receives the snapshot that each step
/// returns and is solely responsible for pixels and tone playback.
pub trait StateHandler {
    fn handle_state(&mut self, state: crate::chip8::State);
}

/// An input collaborator: supplies the pressed/released state of the 16-key
/// pad, an optional just-pressed key, and whether to keep running.
pub trait KeyboardHandler {
    fn handle_keyboard(&mut self) -> (&HashMap<u8, bool>, Option<u8>, ApplicationState);
}

} // verus!
