use vstd::prelude::*;

use anchor_lang::prelude::Pubkey;

use crate::errors::PanchoGameError;

verus! {

/// A 32-byte identity on the ledger: a player, a program or a derived address.
pub type Address = [u8; 32];

/// The address and bump seed that the ledger derives for `seeds` under
/// `program_id`, or none where no bump seed gives an address off the curve.
pub uninterp spec fn program_address(seeds: Seq<Seq<u8>>, program_id: Seq<u8>) -> Option<(Seq<u8>, u8)>;

/// An executable derivation result agrees with the derivation it stands for.
pub open spec fn agrees_with(r: Option<(Address, u8)>, d: Option<(Seq<u8>, u8)>) -> bool {
    match d {
        None => r is None,
        Some(p) => match r {
            None => false,
            Some((a, b)) => a@ == p.0 && b == p.1,
        },
    }
}

/// Relies on anchor_lang's `Pubkey::try_find_program_address` (solana-program):
/// the derived address and bump seed are a function of the seeds and the
/// program id alone, and the call returns `None` instead of panicking.
#[verifier::external_body]
fn find_address(seeds: &Vec<Vec<u8>>, program_id: &Address) -> (r: Option<(Address, u8)>)
    ensures
        agrees_with(r, program_address(seeds.deep_view(), program_id@)),
{
    let slices: Vec<&[u8]> = seeds.iter().map(|s| s.as_slice()).collect();
    Pubkey::try_find_program_address(&slices, &Pubkey::new_from_array(*program_id))
        .map(|(key, bump)| (key.to_bytes(), bump))
}

/// Tag of the delegated signer that holds the reward source's authority.
pub open spec fn minter_tag() -> Seq<u8> {
    seq![112u8, 100u8, 97u8, 45u8, 109u8, 105u8, 110u8, 116u8, 101u8, 114u8]
}

/// Tag of the per-player game records.
pub open spec fn game_tag() -> Seq<u8> {
    seq![103u8, 97u8, 109u8, 101u8]
}

/// Seeds of the delegated signer: the tag alone.
pub open spec fn minter_seeds() -> Seq<Seq<u8>> {
    seq![minter_tag()]
}

/// Seeds of a player's game record: the tag, then the player's identity.
pub open spec fn game_seeds(player: Seq<u8>) -> Seq<Seq<u8>> {
    seq![game_tag(), player]
}

/// The outcome of a derivation as the library reports it.
pub open spec fn derived(d: Option<(Seq<u8>, u8)>, r: Result<(Address, u8), PanchoGameError>) -> bool {
    match d {
        None => r == Err::<(Address, u8), PanchoGameError>(PanchoGameError::AddressDerivationFailed),
        Some(p) => match r {
            Err(_) => false,
            Ok((a, b)) => a@ == p.0 && b == p.1,
        },
    }
}

/// What checking a reward source's authority gives: the delegated signer's
/// bump seed when the authority is that signer.
pub open spec fn authority_check(program_id: Seq<u8>, authority: Seq<u8>) -> Result<u8, PanchoGameError> {
    match program_address(minter_seeds(), program_id) {
        None => Err(PanchoGameError::AddressDerivationFailed),
        Some(p) => if p.0 == authority {
            Ok(p.1)
        } else {
            Err(PanchoGameError::AuthorityMismatch)
        },
    }
}

/// The bytes of "pda-minter".
fn minter_tag_bytes() -> (v: Vec<u8>)
    ensures
        v@ == minter_tag(),
{
    let v = vec![112u8, 100u8, 97u8, 45u8, 109u8, 105u8, 110u8, 116u8, 101u8, 114u8];
    assert(v@ =~= minter_tag());
    v
}

/// The bytes of "game".
fn game_tag_bytes() -> (v: Vec<u8>)
    ensures
        v@ == game_tag(),
{
    let v = vec![103u8, 97u8, 109u8, 101u8];
    assert(v@ =~= game_tag());
    v
}

proof fn lemma_bytes_deep_view(v: Vec<u8>)
    ensures
        v.deep_view() == v@,
{
    assert(v.deep_view() =~= v@);
}

/// The bytes of an address, in order.
pub fn address_bytes(a: &Address) -> (v: Vec<u8>)
    ensures
        v@ == a@,
{
    let mut v: Vec<u8> = Vec::new();
    let mut i: usize = 0;
    while i < 32
        invariant
            i <= 32,
            v@ == a@.subrange(0, i as int),
        decreases 32 - i,
    {
        v.push(a[i]);
        i = i + 1;
        assert(v@ =~= a@.subrange(0, i as int));
    }
    assert(a@.subrange(0, 32) =~= a@);
    v
}

/// Whether two addresses are the same identity.
pub fn same_address(a: &Address, b: &Address) -> (r: bool)
    ensures
        r == (a@ == b@),
{
    let mut i: usize = 0;
    while i < 32
        invariant
            i <= 32,
            forall|j: int| 0 <= j < i ==> a@[j] == b@[j],
        decreases 32 - i,
    {
        if a[i] != b[i] {
            return false;
        }
        i = i + 1;
    }
    assert(a@ =~= b@);
    true
}

/// Derives the delegated signer of `program_id`: the address that alone may
/// authorise movement of the reward, and the bump seed that proves it.
pub fn pda_minter(program_id: &Address) -> (r: Result<(Address, u8), PanchoGameError>)
    ensures
        derived(program_address(minter_seeds(), program_id@), r),
{
    let seeds = vec![minter_tag_bytes()];
    proof {
        lemma_bytes_deep_view(seeds[0]);
    }
    assert(seeds.deep_view() =~= minter_seeds());
    match find_address(&seeds, program_id) {
        None => Err(PanchoGameError::AddressDerivationFailed),
        Some(p) => Ok(p),
    }
}

/// Derives the slot of `player`'s game record under `program_id`.
pub fn game_address(program_id: &Address, player: &Address) -> (r: Result<(Address, u8), PanchoGameError>)
    ensures
        derived(program_address(game_seeds(player@), program_id@), r),
{
    let seeds = vec![game_tag_bytes(), address_bytes(player)];
    proof {
        lemma_bytes_deep_view(seeds[0]);
        lemma_bytes_deep_view(seeds[1]);
    }
    assert(seeds.deep_view() =~= game_seeds(player@));
    match find_address(&seeds, program_id) {
        None => Err(PanchoGameError::AddressDerivationFailed),
        Some(p) => Ok(p),
    }
}

/// Checks that `authority` is the delegated signer of `program_id`, and gives
/// the signer's bump seed, which the signed reward instruction carries.
pub fn check_authority(program_id: &Address, authority: &Address) -> (r: Result<u8, PanchoGameError>)
    ensures
        r == authority_check(program_id@, authority@),
{
    match pda_minter(program_id) {
        Err(e) => Err(e),
        Ok((minter, bump)) => {
            if same_address(&minter, authority) {
                Ok(bump)
            } else {
                Err(PanchoGameError::AuthorityMismatch)
            }
        },
    }
}

/// The seeds with which the program signs as its delegated signer: the tag,
/// then the bump seed.
pub fn minter_signer_seeds(bump: u8) -> (v: Vec<Vec<u8>>)
    ensures
        v.deep_view() == minter_seeds().push(seq![bump]),
{
    let v = vec![minter_tag_bytes(), vec![bump]];
    proof {
        lemma_bytes_deep_view(v[0]);
        lemma_bytes_deep_view(v[1]);
        assert(v[1]@ =~= seq![bump]);
    }
    assert(v.deep_view() =~= minter_seeds().push(seq![bump]));
    v
}

} // verus!
