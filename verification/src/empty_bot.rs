//! A decision logic that stands still and says `Test` once every thousand
//! steps.

use vstd::prelude::*;
use crate::game::{HQMGameState, HQMMessage, HQMPlayerInput, idle_input};
use crate::session::HQMBotLogic;

verus! {

/// The step, within every thousand, at which `EmptyBot` speaks.
pub const CHAT_STEP: u32 = 700;

/// A decision logic without state.
pub struct EmptyBot {}

/// Whether `EmptyBot` speaks at a step.
pub open spec fn speaks_at(step: u32) -> bool {
    step % 1000 == CHAT_STEP
}

impl HQMBotLogic for EmptyBot {
    fn new_game(&mut self) {
    }

    fn tick(&mut self, state: &HQMGameState, messages: &[HQMMessage]) -> (r: (
        HQMPlayerInput,
        Option<String>,
    ))
        ensures
            r.0 == idle_input(),
            r.1 is Some <==> speaks_at(state.step),
            r.1 is Some ==> r.1->0@ == "Test"@,
    {
        let input: HQMPlayerInput = HQMPlayerInput::default();
        let chat: Option<String> = if state.step % 1000 == CHAT_STEP {
            Some("Test".to_owned())
        } else {
            None
        };
        (input, chat)
    }
}

} // verus!
