use vstd::prelude::*;

use crate::errors::PanchoGameError;
use crate::ledger::LedgerView;
use crate::state::{Game, WINNING_NUMBER};

verus! {

/// `n` plays by `player` in a row from `v`: whether every one of them
/// succeeded, and the view after the last.
pub open spec fn plays(v: LedgerView, player: Seq<u8>, n: nat) -> (bool, LedgerView)
    decreases n,
{
    if n == 0 {
        (true, v)
    } else {
        let before = plays(v, player, (n - 1) as nat);
        let step = before.1.play_game_spec(player);
        (before.0 && step.0 is Ok, step.1)
    }
}

/// A play either fails and changes nothing, or advances the player's record
/// by one and credits exactly one unit to the player precisely when the
/// record reaches the winning number, and says so. No other record or
/// balance changes, and the reward source's authority stays.
pub proof fn lemma_play_atomic(v: LedgerView, player: Seq<u8>)
    ensures
        ({
            let (r, w) = v.play_game_spec(player);
            &&& r is Err ==> w == v
            &&& r is Ok ==> {
                &&& v.game_of(player) is Some
                &&& v.game_of(player)->0.counter < WINNING_NUMBER
                &&& w.game_of(player) == Some(
                    Game { counter: (v.game_of(player)->0.counter + 1) as u8 },
                )
                &&& r == Ok::<bool, PanchoGameError>(w.game_of(player)->0.counter == WINNING_NUMBER)
                &&& w.balance_of(player) == v.balance_of(player) + if r == Ok::<bool, PanchoGameError>(
                    true,
                ) {
                    1nat
                } else {
                    0nat
                }
                &&& w.program_id == v.program_id
                &&& w.authority == v.authority
                &&& forall|o: Seq<u8>| o != player ==> #[trigger] w.balance_of(o) == v.balance_of(o)
            }
        }),
{
}

/// Once the winning number is reached, every further play fails with
/// `GameIsOver` and changes nothing, balances included.
pub proof fn lemma_finished_game_refuses_play(v: LedgerView, player: Seq<u8>)
    requires
        v.game_of(player) is Some,
        v.game_of(player)->0.is_finished(),
    ensures
        v.play_game_spec(player) == (Err::<bool, PanchoGameError>(PanchoGameError::GameIsOver), v),
{
}

/// A player's record is created at most once: after a successful creation,
/// creating it again fails with `AlreadyExists`, also after any number of
/// plays in between.
pub proof fn lemma_create_game_once(v: LedgerView, player: Seq<u8>, n: nat)
    requires
        v.create_game_spec(player).0 is Ok,
    ensures
        plays(v.create_game_spec(player).1, player, n).1.create_game_spec(player).0
            == Err::<(), PanchoGameError>(PanchoGameError::AlreadyExists),
    decreases n,
{
    let w = v.create_game_spec(player).1;
    lemma_plays_keep_record(w, player, n);
}

/// Plays keep the program's identity, and never take a record away.
pub proof fn lemma_plays_keep_record(v: LedgerView, player: Seq<u8>, n: nat)
    ensures
        plays(v, player, n).1.program_id == v.program_id,
        forall|k: Seq<u8>| v.games.contains_key(k) ==> #[trigger] plays(v, player, n).1.games.contains_key(k),
    decreases n,
{
    if n > 0 {
        lemma_plays_keep_record(v, player, (n - 1) as nat);
    }
}

/// From a fresh record, `n` successful plays leave the counter at `n`; the
/// player's balance is unchanged before the winning number and one unit
/// higher once it is reached, when the game is finished.
pub proof fn lemma_reward_at_threshold(v: LedgerView, player: Seq<u8>, n: nat)
    requires
        v.game_of(player) == Some(Game { counter: 0 }),
        n <= WINNING_NUMBER,
        plays(v, player, n).0,
    ensures
        plays(v, player, n).1.game_of(player) == Some(Game { counter: n as u8 }),
        plays(v, player, n).1.balance_of(player) == v.balance_of(player) + if n == WINNING_NUMBER {
            1nat
        } else {
            0nat
        },
        n == WINNING_NUMBER ==> plays(v, player, n).1.game_of(player)->0.is_finished(),
    decreases n,
{
    if n > 0 {
        let m = (n - 1) as nat;
        lemma_reward_at_threshold(v, player, m);
        lemma_play_atomic(plays(v, player, m).1, player);
    }
}

} // verus!
