//! Round-based game state: the score counter and the single authoritative
//! outcome flag with its one-way terminal latch.

use vstd::prelude::*;

verus! {

/// Outcome of a round. Once a round leaves `InProgress` it never changes
/// again: the terminal transition is applied exactly once per session.
#[derive(Clone, Copy, PartialEq, Eq, Structural, Debug)]
pub enum GameOutcome {
    InProgress,
    Won,
    Lost,
}

impl GameOutcome {
    /// The round has ended, one way or the other.
    pub open spec fn is_terminal(self) -> bool {
        self != GameOutcome::InProgress
    }
}

/// The game-state machine: the count of collected objects together with the
/// authoritative outcome flag that guards every terminal transition.
#[derive(Clone, Copy, PartialEq, Eq, Structural, Debug)]
pub struct GameState {
    pub score: u32,
    pub outcome: GameOutcome,
}

impl GameState {
    /// A fresh round: nothing collected, nothing decided.
    pub fn new() -> (r: GameState)
        ensures
            r.score == 0,
            r.outcome == GameOutcome::InProgress,
    {
        GameState { score: 0, outcome: GameOutcome::InProgress }
    }

    /// Records one collected object. Counts only while the round is still in
    /// progress; after a terminal transition the score is frozen.
    pub fn record_score(&mut self)
        requires
            old(self).score < u32::MAX,
        ensures
            final(self).outcome == old(self).outcome,
            old(self).outcome is InProgress ==> final(self).score == old(self).score + 1,
            old(self).outcome.is_terminal() ==> *final(self) == *old(self),
    {
        if matches!(self.outcome, GameOutcome::InProgress) {
            self.score = self.score + 1;
        }
    }

    /// Applies a terminal transition, latching it: the first call while the
    /// round is in progress decides the outcome, and every later call is a
    /// no-op, whatever result it carries.
    pub fn try_finish(&mut self, result: GameOutcome)
        requires
            result.is_terminal(),
        ensures
            final(self).score == old(self).score,
            old(self).outcome is InProgress ==> final(self).outcome == result,
            old(self).outcome.is_terminal() ==> *final(self) == *old(self),
    {
        if matches!(self.outcome, GameOutcome::InProgress) {
            self.outcome = result;
        }
    }

    /// The banner the host should display once the round has ended: the
    /// player wins by reaching the goal, the chaser wins by catching the
    /// player. While the round is in progress there is no banner and the
    /// host shows the live score instead.
    pub fn outcome_text(&self) -> (r: Option<&'static str>)
        ensures
            self.outcome is Won ==> (r matches Some(t) && t@ == "ASTRONAUT WINS"@),
            self.outcome is Lost ==> (r matches Some(t) && t@ == "ALIEN WINS"@),
            self.outcome is InProgress ==> r is None,
    {
        match self.outcome {
            GameOutcome::InProgress => None,
            GameOutcome::Won => Some("ASTRONAUT WINS"),
            GameOutcome::Lost => Some("ALIEN WINS"),
        }
    }
}

} // verus!
