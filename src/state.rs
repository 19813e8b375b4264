use vstd::prelude::*;

use crate::errors::PanchoGameError;

verus! {

/// The per-player game record: how many plays have been accepted so far.
#[derive(Clone, Copy, Debug, PartialEq, Eq, Structural)]
pub struct Game {
    pub counter: u8,
}

/// Accepted plays after which a game is finished.
pub const WINNING_NUMBER: u8 = 10;

/// Units of reward handed out when a game is won.
pub const REWARD_AMOUNT: u64 = 1;

/// Stored size of a record: an eight-byte account tag and the counter byte.
pub const GAME_LEN: usize = 8 + 1;

impl Game {
    /// A game is finished once its counter has reached the winning number.
    pub open spec fn is_finished(self) -> bool {
        self.counter >= WINNING_NUMBER
    }

    /// What one play does to a record: the error, or whether the play won
    /// together with the record after it.
    pub open spec fn play_spec(self) -> (Result<bool, PanchoGameError>, Game) {
        if self.is_finished() {
            (Err(PanchoGameError::GameIsOver), self)
        } else {
            let next = Game { counter: (self.counter + 1) as u8 };
            (Ok(next.counter == WINNING_NUMBER), next)
        }
    }

    /// A fresh record, in progress with no play accepted.
    pub fn new() -> (g: Game)
        ensures
            g.counter == 0,
            !g.is_finished(),
    {
        Game { counter: 0 }
    }

    pub fn is_over(&self) -> (r: bool)
        ensures
            r == self.is_finished(),
    {
        self.counter >= WINNING_NUMBER
    }

    /// Accepts one play: the counter goes up by one, and the result tells
    /// whether this play reached the winning number. A finished record
    /// refuses the play and stays as it is.
    pub fn play(&mut self) -> (r: Result<bool, PanchoGameError>)
        ensures
            (r, *final(self)) == old(self).play_spec(),
            old(self).is_finished() ==> r == Err::<bool, PanchoGameError>(
                PanchoGameError::GameIsOver,
            ) && *final(self) == *old(self),
            !old(self).is_finished() ==> final(self).counter == old(self).counter + 1
                && r == Ok::<bool, PanchoGameError>(final(self).counter == WINNING_NUMBER),
    {
        if self.counter >= WINNING_NUMBER {
            return Err(PanchoGameError::GameIsOver);
        }
        self.counter = self.counter + 1;
        Ok(self.counter == WINNING_NUMBER)
    }
}

} // verus!
