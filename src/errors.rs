use vstd::prelude::*;

verus! {

/// Every way an action of the game can fail. Each failure aborts the whole
/// action: no record and no balance is changed by a failed action.
#[derive(Clone, Copy, Debug, PartialEq, Eq, Structural)]
pub enum PanchoGameError {
    /// A play was attempted on a finished game.
    GameIsOver,
    /// A game record already occupies the player's derived slot.
    AlreadyExists,
    /// The deployment's reward source was already bound to an authority.
    AlreadyInitialized,
    /// The deployment has no reward source yet.
    NotInitialized,
    /// No game record exists for the player.
    GameNotFound,
    /// No program-derived address exists for the requested seeds.
    AddressDerivationFailed,
    /// The reward source's authority is not the program's delegated signer.
    AuthorityMismatch,
    /// The reward could not be credited to the player's holding.
    RewardDeliveryFailed,
}

} // verus!
