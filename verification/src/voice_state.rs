//! The state of the voice assistant, as the interface shows it.
use vstd::prelude::*;

verus! {

/// What the voice assistant is doing.
#[derive(Debug, Clone, Copy, PartialEq, Eq, Structural)]
pub enum VoiceState {
    Off,
    WaitingForWakeWord,
    Listening,
    Analyzing,
    Error,
}

/// Holds the current voice state. Shared use goes through a lock held by
/// the caller.
#[derive(Debug)]
pub struct VoiceStateManager {
    state: VoiceState,
}

impl View for VoiceStateManager {
    type V = VoiceState;

    closed spec fn view(&self) -> VoiceState {
        self.state
    }
}

impl VoiceStateManager {
    /// The assistant starts switched off.
    pub fn new() -> (r: Self)
        ensures
            r@ == VoiceState::Off,
    {
        VoiceStateManager { state: VoiceState::Off }
    }

    /// The current state.
    pub fn get(&self) -> (r: VoiceState)
        ensures
            r == self@,
    {
        self.state
    }

    /// Replaces the current state.
    pub fn set(&mut self, state: VoiceState)
        ensures
            final(self)@ == state,
    {
        self.state = state;
    }
}

} // verus!
