//! What the ledger asks of the token service, and how reward units become
//! base units of the token.

use vstd::prelude::*;
use vstd::arithmetic::power::{pow, lemma_pow0, lemma_pow_increases, lemma_pow_positive};
use crate::error::ErrorCode;
use crate::identity::Identity;

verus! {

/// Reward units credited to the performer for one vote.
pub const VOTE_REWARD: u64 = 3;

/// The token mint as the ledger sees it: who may mint, and how many decimal
/// places one whole token has.
#[derive(Clone, Copy, Debug, PartialEq, Eq)]
pub struct Mint {
    pub mint_authority: Option<Identity>,
    pub decimals: u8,
}

/// The derived signing capability under which rewards are minted: its
/// address and the bump that completes its seeds.
#[derive(Clone, Copy, Debug, PartialEq, Eq)]
pub struct MintAuthority {
    pub address: Identity,
    pub bump: u8,
}

/// An order to mint `amount` base units to `recipient`, signed by
/// `authority`.
#[derive(Clone, Copy, Debug, PartialEq, Eq)]
pub struct MintTo {
    pub recipient: Identity,
    pub amount: u64,
    pub authority: MintAuthority,
}

/// An order to hand the right to mint from `current_authority` to
/// `new_authority`.
#[derive(Clone, Copy, Debug, PartialEq, Eq)]
pub struct SetAuthority {
    pub current_authority: Identity,
    pub new_authority: Identity,
}

/// What the token service answered to an order.
#[derive(Clone, Copy, Debug, PartialEq, Eq, Structural)]
pub enum ServiceReply {
    Confirmed,
    Failed,
}

/// The fixed seed from which the mint authority is derived.
pub open spec fn mint_authority_seed_spec() -> Seq<u8> {
    seq![109u8, 105u8, 110u8, 116u8, 95u8, 97u8, 117u8, 116u8, 104u8, 111u8, 114u8, 105u8, 116u8, 121u8]
}

/// The bytes of `mint_authority`.
pub fn mint_authority_seed() -> (seed: Vec<u8>)
    ensures
        seed@ == mint_authority_seed_spec(),
{
    let seed = vec![109u8, 105u8, 110u8, 116u8, 95u8, 97u8, 117u8, 116u8, 104u8, 111u8, 114u8, 105u8, 116u8, 121u8];
    assert(seed@ =~= mint_authority_seed_spec());
    seed
}

impl MintAuthority {
    /// The seeds that sign for this authority: the fixed seed, then the bump.
    pub open spec fn signer_seeds_spec(&self) -> Seq<Seq<u8>> {
        seq![mint_authority_seed_spec(), seq![self.bump]]
    }

    pub fn signer_seeds(&self) -> (seeds: Vec<Vec<u8>>)
        ensures
            seeds.deep_view() == self.signer_seeds_spec(),
    {
        let bump = vec![self.bump];
        assert(bump@ =~= seq![self.bump]);
        let mut seeds: Vec<Vec<u8>> = Vec::new();
        seeds.push(mint_authority_seed());
        seeds.push(bump);
        assert(seeds.deep_view() =~= self.signer_seeds_spec()) by {
            assert(seeds.deep_view().len() == 2);
            assert(seeds.deep_view()[0] =~= seeds[0]@);
            assert(seeds.deep_view()[1] =~= seeds[1]@);
        }
        seeds
    }
}

/// `units` whole reward units expressed in base units of a token with
/// `decimals` decimal places: `units * 10^decimals`.
pub open spec fn base_units(units: nat, decimals: nat) -> nat {
    units * (pow(10, decimals) as nat)
}

/// `Some(10^decimals)` when that fits in 64 bits.
pub fn checked_unit_factor(decimals: u8) -> (factor: Option<u64>)
    ensures
        factor == (if pow(10, decimals as nat) <= u64::MAX {
            Some(pow(10, decimals as nat) as u64)
        } else {
            None
        }),
{
    let mut factor: u64 = 1;
    let mut i: u8 = 0;
    proof {
        lemma_pow0(10);
    }
    while i < decimals
        invariant
            0 <= i <= decimals,
            factor == pow(10, i as nat),
        decreases decimals - i,
    {
        proof {
            vstd::arithmetic::power::lemma_pow_adds(10, i as nat, 1);
            vstd::arithmetic::power::lemma_pow1(10);
        }
        match factor.checked_mul(10) {
            Some(next) => {
                factor = next;
            },
            None => {
                proof {
                    lemma_pow_increases(10, (i + 1) as nat, decimals as nat);
                }
                return None;
            },
        }
        i = i + 1;
    }
    Some(factor)
}

/// `units * 10^decimals` when that fits in 64 bits.
pub fn checked_base_units(units: u64, decimals: u8) -> (amount: Option<u64>)
    ensures
        amount == (if base_units(units as nat, decimals as nat) <= u64::MAX {
            Some(base_units(units as nat, decimals as nat) as u64)
        } else {
            None
        }),
{
    proof {
        lemma_pow_positive(10, decimals as nat);
    }
    if units == 0 {
        assert(base_units(0, decimals as nat) == 0) by (nonlinear_arith);
        return Some(0);
    }
    match checked_unit_factor(decimals) {
        Some(factor) => units.checked_mul(factor),
        None => {
            assert(base_units(units as nat, decimals as nat) > u64::MAX) by (nonlinear_arith)
                requires
                    units >= 1,
                    pow(10, decimals as nat) > u64::MAX,
                    base_units(units as nat, decimals as nat) == units * (pow(10, decimals as nat) as nat),
            ;
            None
        },
    }
}

/// `(a + b) * 10^d` is `a * 10^d + b * 10^d`.
pub proof fn lemma_base_units_add(a: nat, b: nat, decimals: nat)
    ensures
        base_units(a + b, decimals) == base_units(a, decimals) + base_units(b, decimals),
{
    lemma_pow_positive(10, decimals);
    let f = pow(10, decimals) as nat;
    assert((a + b) * f == a * f + b * f) by (nonlinear_arith);
}

/// Turns the token service's answer to a mint order into the operation's
/// result.
pub fn settle_mint(order: MintTo, reply: ServiceReply) -> (res: Result<MintTo, ErrorCode>)
    ensures
        res == (match reply {
            ServiceReply::Confirmed => Ok::<MintTo, ErrorCode>(order),
            ServiceReply::Failed => Err::<MintTo, ErrorCode>(ErrorCode::ExternalMintFailure),
        }),
{
    match reply {
        ServiceReply::Confirmed => Ok(order),
        ServiceReply::Failed => Err(ErrorCode::ExternalMintFailure),
    }
}

/// Turns the token service's answer to a transfer order into the
/// operation's result.
pub fn settle_transfer(order: SetAuthority, reply: ServiceReply) -> (res: Result<
    SetAuthority,
    ErrorCode,
>)
    ensures
        res == (match reply {
            ServiceReply::Confirmed => Ok::<SetAuthority, ErrorCode>(order),
            ServiceReply::Failed => Err::<SetAuthority, ErrorCode>(ErrorCode::ExternalMintFailure),
        }),
{
    match reply {
        ServiceReply::Confirmed => Ok(order),
        ServiceReply::Failed => Err(ErrorCode::ExternalMintFailure),
    }
}

} // verus!
