use vstd::prelude::*;

use crate::authority::{
    authority_check, check_authority, game_address, game_seeds, minter_seeds, pda_minter,
    program_address, Address,
};
use crate::errors::PanchoGameError;
use crate::state::{Game, REWARD_AMOUNT, WINNING_NUMBER};
use crate::table::Table;

verus! {

/// What a deployment holds, as values: the program's identity, the authority
/// bound to the reward source, the game records by slot address, and the
/// reward balances by owner.
pub struct LedgerView {
    pub program_id: Seq<u8>,
    pub authority: Option<Seq<u8>>,
    pub games: Map<Seq<u8>, Game>,
    pub balances: Map<Seq<u8>, u64>,
}

impl LedgerView {
    /// The record of `player`, if one was created.
    pub open spec fn game_of(self, player: Seq<u8>) -> Option<Game> {
        match program_address(game_seeds(player), self.program_id) {
            None => None,
            Some(p) => if self.games.contains_key(p.0) {
                Some(self.games[p.0])
            } else {
                None
            },
        }
    }

    /// The reward units that `owner` holds.
    pub open spec fn balance_of(self, owner: Seq<u8>) -> nat {
        if self.balances.contains_key(owner) {
            self.balances[owner] as nat
        } else {
            0
        }
    }

    /// Binding the delegated signer as the reward source's sole authority.
    pub open spec fn initialize_spec(self) -> (Result<(), PanchoGameError>, LedgerView) {
        if self.authority is Some {
            (Err(PanchoGameError::AlreadyInitialized), self)
        } else {
            match program_address(minter_seeds(), self.program_id) {
                None => (Err(PanchoGameError::AddressDerivationFailed), self),
                Some(p) => (Ok(()), LedgerView { authority: Some(p.0), ..self }),
            }
        }
    }

    /// Creating `player`'s record in its derived slot, which must be free.
    pub open spec fn create_game_spec(self, player: Seq<u8>) -> (Result<(), PanchoGameError>, LedgerView) {
        match program_address(game_seeds(player), self.program_id) {
            None => (Err(PanchoGameError::AddressDerivationFailed), self),
            Some(p) => if self.games.contains_key(p.0) {
                (Err(PanchoGameError::AlreadyExists), self)
            } else {
                (Ok(()), LedgerView { games: self.games.insert(p.0, Game { counter: 0 }), ..self })
            },
        }
    }

    /// One play by `player`: the record advances, and the play that reaches
    /// the winning number credits the reward in the same step. Every failure
    /// leaves the whole view as it was.
    pub open spec fn play_game_spec(self, player: Seq<u8>) -> (Result<bool, PanchoGameError>, LedgerView) {
        match program_address(game_seeds(player), self.program_id) {
            None => (Err(PanchoGameError::AddressDerivationFailed), self),
            Some(p) => if !self.games.contains_key(p.0) {
                (Err(PanchoGameError::GameNotFound), self)
            } else {
                let next = self.games[p.0].play_spec();
                match next.0 {
                    Err(e) => (Err(e), self),
                    Ok(won) => if !won {
                        (Ok(false), LedgerView { games: self.games.insert(p.0, next.1), ..self })
                    } else {
                        match self.authority {
                            None => (Err(PanchoGameError::NotInitialized), self),
                            Some(a) => match authority_check(self.program_id, a) {
                                Err(e) => (Err(e), self),
                                Ok(_) => if self.balance_of(player) + REWARD_AMOUNT > u64::MAX {
                                    (Err(PanchoGameError::RewardDeliveryFailed), self)
                                } else {
                                    (
                                        Ok(true),
                                        LedgerView {
                                            games: self.games.insert(p.0, next.1),
                                            balances: self.balances.insert(
                                                player,
                                                (self.balance_of(player) + REWARD_AMOUNT) as u64,
                                            ),
                                            ..self
                                        },
                                    )
                                },
                            },
                        }
                    },
                }
            },
        }
    }
}

/// One deployment of the game: the records of its players, the reward
/// source's authority, and the reward balances it has credited. Each action
/// either applies in full or changes nothing.
pub struct Ledger {
    program_id: Address,
    authority: Option<Address>,
    games: Table<Game>,
    balances: Table<u64>,
}

impl View for Ledger {
    type V = LedgerView;

    closed spec fn view(&self) -> LedgerView {
        LedgerView {
            program_id: self.program_id@,
            authority: match self.authority {
                None => None,
                Some(a) => Some(a@),
            },
            games: self.games@,
            balances: self.balances@,
        }
    }
}

impl Ledger {
    pub closed spec fn wf(&self) -> bool {
        self.games.wf() && self.balances.wf()
    }

    /// A deployment of the program `program_id` with no record, no balance,
    /// and a reward source not yet bound.
    pub fn new(program_id: Address) -> (l: Ledger)
        ensures
            l.wf(),
            l@.program_id == program_id@,
            l@.authority is None,
            l@.games == Map::<Seq<u8>, Game>::empty(),
            l@.balances == Map::<Seq<u8>, u64>::empty(),
    {
        Ledger { program_id, authority: None, games: Table::new(), balances: Table::new() }
    }

    /// The program's identity.
    pub fn program_id(&self) -> (r: Address)
        ensures
            r@ == self@.program_id,
    {
        self.program_id
    }

    /// The authority currently registered on the reward source.
    pub fn reward_authority(&self) -> (r: Option<Address>)
        ensures
            match r {
                None => self@.authority is None,
                Some(a) => self@.authority == Some(a@),
            },
    {
        self.authority
    }

    /// Binds the program's delegated signer as the reward source's sole
    /// authority; a second call is refused.
    pub fn initialize(&mut self) -> (r: Result<(), PanchoGameError>)
        requires
            old(self).wf(),
        ensures
            final(self).wf(),
            (r, final(self)@) == old(self)@.initialize_spec(),
    {
        if self.authority.is_some() {
            return Err(PanchoGameError::AlreadyInitialized);
        }
        match pda_minter(&self.program_id) {
            Err(e) => Err(e),
            Ok((minter, _bump)) => {
                self.authority = Some(minter);
                assert(self@ =~= old(self)@.initialize_spec().1);
                Ok(())
            },
        }
    }

    /// Replaces the reward source's authority, as its current authority may
    /// do outside this program. After this, rewards owed are refused unless
    /// `authority` is the delegated signer.
    pub fn set_reward_authority(&mut self, authority: Address)
        requires
            old(self).wf(),
        ensures
            final(self).wf(),
            final(self)@ == (LedgerView { authority: Some(authority@), ..old(self)@ }),
    {
        self.authority = Some(authority);
        assert(self@ =~= (LedgerView { authority: Some(authority@), ..old(self)@ }));
    }

    /// Creates `player`'s game record, in progress at zero, in the slot derived
    /// from the player; fails when that slot is taken.
    pub fn create_game(&mut self, player: &Address) -> (r: Result<(), PanchoGameError>)
        requires
            old(self).wf(),
        ensures
            final(self).wf(),
            (r, final(self)@) == old(self)@.create_game_spec(player@),
    {
        match game_address(&self.program_id, player) {
            Err(e) => Err(e),
            Ok((slot, _bump)) => {
                if self.games.get(&slot).is_some() {
                    return Err(PanchoGameError::AlreadyExists);
                }
                self.games.set(&slot, Game::new());
                assert(self@ =~= old(self)@.create_game_spec(player@).1);
                Ok(())
            },
        }
    }

    /// The record of `player`, if one was created.
    pub fn game(&self, player: &Address) -> (r: Option<Game>)
        requires
            self.wf(),
        ensures
            r == self@.game_of(player@),
    {
        match game_address(&self.program_id, player) {
            Err(_) => None,
            Ok((slot, _bump)) => self.games.get(&slot),
        }
    }

    /// The reward units that `owner` holds.
    pub fn balance(&self, owner: &Address) -> (r: u64)
        requires
            self.wf(),
        ensures
            r == self@.balance_of(owner@),
    {
        match self.balances.get(owner) {
            None => 0,
            Some(b) => b,
        }
    }

    /// One play by `player`. The counter goes up by one; the play that
    /// reaches the winning number is told so and credits the player one
    /// reward unit, authorised by the delegated signer. A finished game, a
    /// foreign authority or a reward that cannot be credited fails the play,
    /// and then nothing changes.
    pub fn play_game(&mut self, player: &Address) -> (r: Result<bool, PanchoGameError>)
        requires
            old(self).wf(),
        ensures
            final(self).wf(),
            (r, final(self)@) == old(self)@.play_game_spec(player@),
    {
        let slot = match game_address(&self.program_id, player) {
            Err(e) => {
                return Err(e);
            },
            Ok((slot, _bump)) => slot,
        };
        let mut game = match self.games.get(&slot) {
            None => {
                return Err(PanchoGameError::GameNotFound);
            },
            Some(g) => g,
        };
        let won = match game.play() {
            Err(e) => {
                return Err(e);
            },
            Ok(won) => won,
        };
        if !won {
            self.games.set(&slot, game);
            assert(self@ =~= old(self)@.play_game_spec(player@).1);
            return Ok(false);
        }
        let authority = match self.authority {
            None => {
                return Err(PanchoGameError::NotInitialized);
            },
            Some(a) => a,
        };
        match check_authority(&self.program_id, &authority) {
            Err(e) => {
                return Err(e);
            },
            Ok(_bump) => {},
        }
        let held = self.balance(player);
        let credited = match held.checked_add(REWARD_AMOUNT) {
            None => {
                return Err(PanchoGameError::RewardDeliveryFailed);
            },
            Some(c) => c,
        };
        self.games.set(&slot, game);
        self.balances.set(player, credited);
        assert(self@ =~= old(self)@.play_game_spec(player@).1);
        Ok(true)
    }
}

} // verus!
