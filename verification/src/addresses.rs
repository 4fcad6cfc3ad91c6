//! Where the records live on chain: every profile, every receipt and the
//! mint authority has the address that the chain derives from its seeds
//! under the program's identity.
//!
//! The derivation digests the seeds one after the other, so two sets of
//! seeds that run together into the same bytes would share an address. The
//! seeds chosen here never do: see the laws at the end.

use vstd::prelude::*;
use crate::identity::Identity;
use crate::token::{mint_authority_seed, mint_authority_seed_spec, MintAuthority};

verus! {

/// The address and the bump that the chain derives from `seeds` under the
/// program `program`, where it derives any.
pub uninterp spec fn program_address(seeds: Seq<Seq<u8>>, program: Seq<u8>) -> Option<(Seq<u8>, u8)>;

/// A derived address and bump, as plain values.
pub open spec fn derived_view(found: Option<(Identity, u8)>) -> Option<(Seq<u8>, u8)> {
    match found {
        Some((address, bump)) => Some((address@, bump)),
        None => None,
    }
}

/// Calls `Pubkey::try_find_program_address` of solana-program, as
/// anchor-lang hands it on. That function tries the bumps from 255
/// downwards and returns the first address, with its bump, that is no point
/// of the curve; it returns nothing where there are too many seeds, a seed
/// is too long, or no bump gives such an address. It reads nothing but its
/// arguments, so the contract only gives its result a name.
#[verifier::external_body]
fn try_find_program_address(seeds: &Vec<Vec<u8>>, program: &Identity) -> (found: Option<(Identity, u8)>)
    ensures
        derived_view(found) == program_address(seeds.deep_view(), program@),
{
    let parts: Vec<&[u8]> = seeds.iter().map(|seed| seed.as_slice()).collect();
    let program = anchor_lang::prelude::Pubkey::new_from_array(program.bytes);
    anchor_lang::prelude::Pubkey::try_find_program_address(&parts, &program).map(
        |(address, bump)| (Identity { bytes: address.to_bytes() }, bump),
    )
}

/// The seed that opens the seeds of every reward profile.
pub open spec fn profile_seed_spec() -> Seq<u8> {
    seq![112u8, 114u8, 111u8, 102u8, 105u8, 108u8, 101u8]
}

/// The bytes of `profile`.
pub fn profile_seed() -> (seed: Vec<u8>)
    ensures
        seed@ == profile_seed_spec(),
{
    let seed = vec![112u8, 114u8, 111u8, 102u8, 105u8, 108u8, 101u8];
    assert(seed@ =~= profile_seed_spec());
    seed
}

/// Seeds of the reward profile of `owner`: the profile seed, then the
/// owner.
pub open spec fn profile_seeds_spec(owner: Identity) -> Seq<Seq<u8>> {
    seq![profile_seed_spec(), owner@]
}

/// Seeds of the receipt of `voter` for the submission stored at
/// `submission`: the voter, then the submission.
pub open spec fn receipt_seeds_spec(voter: Identity, submission: Identity) -> Seq<Seq<u8>> {
    seq![voter@, submission@]
}

/// Seeds of the mint authority: the one fixed seed.
pub open spec fn mint_authority_seeds_spec() -> Seq<Seq<u8>> {
    seq![mint_authority_seed_spec()]
}

/// The seeds of the reward profile of `owner`.
pub fn profile_seeds(owner: &Identity) -> (seeds: Vec<Vec<u8>>)
    ensures
        seeds.deep_view() == profile_seeds_spec(*owner),
{
    let mut seeds: Vec<Vec<u8>> = Vec::new();
    seeds.push(profile_seed());
    seeds.push(owner.to_vec());
    assert(seeds.deep_view() =~= profile_seeds_spec(*owner)) by {
        assert(seeds.deep_view().len() == 2);
        assert(seeds.deep_view()[0] =~= seeds[0]@);
        assert(seeds.deep_view()[1] =~= seeds[1]@);
    }
    seeds
}

/// The seeds of the receipt of `voter` for the submission stored at
/// `submission`.
pub fn receipt_seeds(voter: &Identity, submission: &Identity) -> (seeds: Vec<Vec<u8>>)
    ensures
        seeds.deep_view() == receipt_seeds_spec(*voter, *submission),
{
    let mut seeds: Vec<Vec<u8>> = Vec::new();
    seeds.push(voter.to_vec());
    seeds.push(submission.to_vec());
    assert(seeds.deep_view() =~= receipt_seeds_spec(*voter, *submission)) by {
        assert(seeds.deep_view().len() == 2);
        assert(seeds.deep_view()[0] =~= seeds[0]@);
        assert(seeds.deep_view()[1] =~= seeds[1]@);
    }
    seeds
}

/// The seeds of the mint authority.
pub fn mint_authority_seeds() -> (seeds: Vec<Vec<u8>>)
    ensures
        seeds.deep_view() == mint_authority_seeds_spec(),
{
    let mut seeds: Vec<Vec<u8>> = Vec::new();
    seeds.push(mint_authority_seed());
    assert(seeds.deep_view() =~= mint_authority_seeds_spec()) by {
        assert(seeds.deep_view().len() == 1);
        assert(seeds.deep_view()[0] =~= seeds[0]@);
    }
    seeds
}

/// Address and bump of the reward profile of `owner` under `program`.
pub fn profile_address(owner: &Identity, program: &Identity) -> (found: Option<(Identity, u8)>)
    ensures
        derived_view(found) == program_address(profile_seeds_spec(*owner), program@),
{
    try_find_program_address(&profile_seeds(owner), program)
}

/// Address and bump of the receipt of `voter` for the submission stored at
/// `submission`, under `program`.
pub fn receipt_address(
    voter: &Identity,
    submission: &Identity,
    program: &Identity,
) -> (found: Option<(Identity, u8)>)
    ensures
        derived_view(found) == program_address(
            receipt_seeds_spec(*voter, *submission),
            program@,
        ),
{
    try_find_program_address(&receipt_seeds(voter, submission), program)
}

impl MintAuthority {
    /// The mint authority that a derivation found, if it found one.
    pub fn from_derived(found: Option<(Identity, u8)>) -> (authority: Option<MintAuthority>)
        ensures
            authority == (match found {
                Some((address, bump)) => Some(MintAuthority { address, bump }),
                None => None,
            }),
    {
        match found {
            Some((address, bump)) => Some(MintAuthority { address, bump }),
            None => None,
        }
    }

    /// The mint authority of `program`: the address derived from the fixed
    /// seed, with its bump.
    pub fn derive(program: &Identity) -> (authority: Option<MintAuthority>)
        ensures
            match authority {
                Some(a) => program_address(mint_authority_seeds_spec(), program@) == Some(
                    (a.address@, a.bump),
                ),
                None => program_address(mint_authority_seeds_spec(), program@).is_none(),
            },
    {
        MintAuthority::from_derived(try_find_program_address(&mint_authority_seeds(), program))
    }
}

/// The seeds that sign for the mint authority are the seeds it is derived
/// from, then its bump.
pub proof fn law_signer_seeds_are_derivation_seeds_and_bump(authority: MintAuthority)
    ensures
        authority.signer_seeds_spec() == mint_authority_seeds_spec().push(seq![authority.bump]),
{
    assert(authority.signer_seeds_spec() =~= mint_authority_seeds_spec().push(
        seq![authority.bump],
    ));
}

/// What the derivation digests of two seeds: the one, then the other.
proof fn lemma_two_seeds_digested(a: Seq<u8>, b: Seq<u8>)
    ensures
        seq![a, b].flatten() == a + b,
{
    let both = seq![a, b];
    assert(both.drop_first() =~= seq![b]);
    seq![b].lemma_flatten_one_element();
    assert(both.flatten() =~= both.first() + both.drop_first().flatten());
}

/// The receipts of two different pairs of voter and submission are derived
/// from different bytes.
pub proof fn law_receipt_seeds_tell_pairs_apart(
    voter: Identity,
    submission: Identity,
    other_voter: Identity,
    other_submission: Identity,
)
    requires
        receipt_seeds_spec(voter, submission).flatten() == receipt_seeds_spec(
            other_voter,
            other_submission,
        ).flatten(),
    ensures
        voter == other_voter,
        submission == other_submission,
{
    lemma_two_seeds_digested(voter@, submission@);
    lemma_two_seeds_digested(other_voter@, other_submission@);
    let one = voter@ + submission@;
    let two = other_voter@ + other_submission@;
    assert forall|i: int| 0 <= i < 32 implies voter.bytes[i] == other_voter.bytes[i] by {
        assert(one[i] == voter@[i]);
        assert(two[i] == other_voter@[i]);
    }
    assert forall|i: int| 0 <= i < 32 implies submission.bytes[i] == other_submission.bytes[i] by {
        assert(one[32 + i] == submission@[i]);
        assert(two[32 + i] == other_submission@[i]);
    }
    assert(voter.bytes =~= other_voter.bytes);
    assert(submission.bytes =~= other_submission.bytes);
}

/// The profiles of two different identities are derived from different
/// bytes.
pub proof fn law_profile_seeds_tell_owners_apart(owner: Identity, other: Identity)
    requires
        profile_seeds_spec(owner).flatten() == profile_seeds_spec(other).flatten(),
    ensures
        owner == other,
{
    lemma_two_seeds_digested(profile_seed_spec(), owner@);
    lemma_two_seeds_digested(profile_seed_spec(), other@);
    let one = profile_seed_spec() + owner@;
    let two = profile_seed_spec() + other@;
    assert forall|i: int| 0 <= i < 32 implies owner.bytes[i] == other.bytes[i] by {
        assert(one[7 + i] == owner@[i]);
        assert(two[7 + i] == other@[i]);
    }
    assert(owner.bytes =~= other.bytes);
}

/// A receipt, a profile and the mint authority are never derived from the
/// same bytes: what is digested for them differs in length.
pub proof fn law_kinds_of_record_never_share_seeds(
    voter: Identity,
    submission: Identity,
    owner: Identity,
)
    ensures
        receipt_seeds_spec(voter, submission).flatten().len() == 64,
        profile_seeds_spec(owner).flatten().len() == 39,
        mint_authority_seeds_spec().flatten().len() == 14,
{
    lemma_two_seeds_digested(voter@, submission@);
    lemma_two_seeds_digested(profile_seed_spec(), owner@);
    mint_authority_seeds_spec().lemma_flatten_one_element();
}

} // verus!
