//! The five operations, each on the records that one request touches.
//!
//! A request is resolved into a context of plain records before its
//! operation runs. The operation either refuses, and then the context is as
//! it was, or changes the context and, where tokens are due, hands back the
//! order for the token service.

use vstd::prelude::*;
use crate::accounts::{
    check_strings, check_strings_spec, SubmissionAccount, SubmissionView, UserProfile,
    VoteReceipt,
};
use crate::error::ErrorCode;
use crate::identity::Identity;
use crate::token::{
    base_units, checked_base_units, Mint, MintAuthority, MintTo, SetAuthority, VOTE_REWARD,
};

verus! {

/// What a vote touches: the submission, the receipt found at the address
/// derived from this voter and submission (none, for a first vote), the
/// profiles of voter and performer, the mint and the authority that signs
/// for it.
///
/// Where voter and performer are one identity, both profile fields hold
/// that identity's profile, and the performer's is the one to keep.
#[derive(Clone, Debug, PartialEq, Eq)]
pub struct Vote {
    pub submission: SubmissionAccount,
    pub vote_receipt: Option<VoteReceipt>,
    pub user_profile: UserProfile,
    pub performer: Identity,
    pub performer_profile: UserProfile,
    pub peg_mint: Mint,
    pub mint_authority: MintAuthority,
    pub user: Identity,
}

impl Vote {
    /// Whether the vote goes through, and if not, why.
    pub open spec fn check(self) -> Result<(), ErrorCode> {
        if self.vote_receipt.is_some() {
            Err(ErrorCode::AlreadyVoted)
        } else if self.performer != self.submission.contestant {
            Err(ErrorCode::PerformerMismatch)
        } else if self.submission.vote_count + 1 > u64::MAX || self.performer_profile.peg_balance
            + VOTE_REWARD > u64::MAX || base_units(
            VOTE_REWARD as nat,
            self.peg_mint.decimals as nat,
        ) > u64::MAX {
            Err(ErrorCode::Overflow)
        } else {
            Ok(())
        }
    }

    /// The context after a vote that went through: the receipt created, one
    /// more vote counted, both profiles bound, the performer credited.
    pub open spec fn applied(self) -> Vote {
        Vote {
            vote_receipt: Some(VoteReceipt {  }),
            submission: SubmissionAccount {
                vote_count: (self.submission.vote_count + 1) as u64,
                ..self.submission
            },
            user_profile: self.user_profile.bound_to(self.user),
            performer_profile: self.performer_profile.bound_to(
                self.submission.contestant,
            ).credited(VOTE_REWARD),
            ..self
        }
    }

    /// The mint that pays for a vote that went through.
    pub open spec fn order(self) -> MintTo {
        MintTo {
            recipient: self.performer,
            amount: base_units(VOTE_REWARD as nat, self.peg_mint.decimals as nat) as u64,
            authority: self.mint_authority,
        }
    }
}

/// Creates the receipt, counts one vote for the submission and credits its
/// performer. Refuses with `AlreadyVoted` where the receipt exists.
pub fn vote(ctx: &mut Vote) -> (res: Result<MintTo, ErrorCode>)
    ensures
        match old(ctx).check() {
            Ok(_) => res == Ok::<MintTo, ErrorCode>(old(ctx).order()) && *final(ctx) == old(
                ctx,
            ).applied(),
            Err(e) => res == Err::<MintTo, ErrorCode>(e) && *final(ctx) == *old(ctx),
        },
{
    if ctx.vote_receipt.is_some() {
        return Err(ErrorCode::AlreadyVoted);
    }
    if !ctx.performer.same(&ctx.submission.contestant) {
        return Err(ErrorCode::PerformerMismatch);
    }
    let mut user_profile = ctx.user_profile;
    user_profile.bind(ctx.user);
    let votes = match ctx.submission.vote_count.checked_add(1) {
        Some(votes) => votes,
        None => {
            return Err(ErrorCode::Overflow);
        },
    };
    let mut performer_profile = ctx.performer_profile;
    performer_profile.bind(ctx.submission.contestant);
    match performer_profile.credit(VOTE_REWARD) {
        Ok(_) => {},
        Err(e) => {
            return Err(e);
        },
    }
    let amount = match checked_base_units(VOTE_REWARD, ctx.peg_mint.decimals) {
        Some(amount) => amount,
        None => {
            return Err(ErrorCode::Overflow);
        },
    };
    ctx.vote_receipt = Some(VoteReceipt {  });
    ctx.submission.vote_count = votes;
    ctx.user_profile = user_profile;
    ctx.performer_profile = performer_profile;
    Ok(MintTo { recipient: ctx.performer, amount, authority: ctx.mint_authority })
}

/// What a backfill touches: the submission, its performer's profile, the
/// mint and the authority that signs for it.
#[derive(Clone, Debug, PartialEq, Eq)]
pub struct BackfillTokens {
    pub submission: SubmissionAccount,
    pub performer: Identity,
    pub performer_profile: UserProfile,
    pub peg_mint: Mint,
    pub mint_authority: MintAuthority,
    pub payer: Identity,
}

impl BackfillTokens {
    /// Reward units owed for the votes the submission has.
    pub open spec fn owed(self) -> nat {
        (self.submission.vote_count * VOTE_REWARD) as nat
    }

    /// Whether the backfill goes through, and if not, why.
    pub open spec fn check(self) -> Result<(), ErrorCode> {
        if self.performer != self.submission.contestant {
            Err(ErrorCode::PerformerMismatch)
        } else if self.submission.backfilled {
            Err(ErrorCode::AlreadyBackfilled)
        } else if self.owed() > u64::MAX || self.performer_profile.peg_balance + self.owed()
            > u64::MAX || base_units(self.owed(), self.peg_mint.decimals as nat) > u64::MAX {
            Err(ErrorCode::Overflow)
        } else {
            Ok(())
        }
    }

    /// The context after a backfill that went through: the performer
    /// credited with what was owed, the submission marked.
    pub open spec fn applied(self) -> BackfillTokens {
        BackfillTokens {
            submission: SubmissionAccount { backfilled: true, ..self.submission },
            performer_profile: self.performer_profile.bound_to(
                self.submission.contestant,
            ).credited(self.owed() as u64),
            ..self
        }
    }

    /// The mint that pays for a backfill that went through.
    pub open spec fn order(self) -> MintTo {
        MintTo {
            recipient: self.performer,
            amount: base_units(self.owed(), self.peg_mint.decimals as nat) as u64,
            authority: self.mint_authority,
        }
    }
}

/// Credits the performer for the votes the submission already has, once.
pub fn backfill_tokens(ctx: &mut BackfillTokens) -> (res: Result<MintTo, ErrorCode>)
    ensures
        match old(ctx).check() {
            Ok(_) => res == Ok::<MintTo, ErrorCode>(old(ctx).order()) && *final(ctx) == old(
                ctx,
            ).applied(),
            Err(e) => res == Err::<MintTo, ErrorCode>(e) && *final(ctx) == *old(ctx),
        },
{
    if !ctx.performer.same(&ctx.submission.contestant) {
        return Err(ErrorCode::PerformerMismatch);
    }
    if ctx.submission.backfilled {
        return Err(ErrorCode::AlreadyBackfilled);
    }
    let mut performer_profile = ctx.performer_profile;
    performer_profile.bind(ctx.submission.contestant);
    let owed = match ctx.submission.vote_count.checked_mul(VOTE_REWARD) {
        Some(owed) => owed,
        None => {
            return Err(ErrorCode::Overflow);
        },
    };
    let amount = match checked_base_units(owed, ctx.peg_mint.decimals) {
        Some(amount) => amount,
        None => {
            return Err(ErrorCode::Overflow);
        },
    };
    match performer_profile.credit(owed) {
        Ok(_) => {},
        Err(e) => {
            return Err(e);
        },
    }
    ctx.submission.backfilled = true;
    ctx.performer_profile = performer_profile;
    Ok(MintTo { recipient: ctx.performer, amount, authority: ctx.mint_authority })
}

/// What a transfer of the right to mint touches: the mint, the signer who
/// claims to hold that right, and the derived authority that is to get it.
#[derive(Clone, Copy, Debug, PartialEq, Eq)]
pub struct TransferMintAuthority {
    pub peg_mint: Mint,
    pub current_authority: Identity,
    pub mint_authority: MintAuthority,
}

impl TransferMintAuthority {
    /// Whether the signer holds the right to mint.
    pub open spec fn signer_is_authority(self) -> bool {
        self.peg_mint.mint_authority == Some(self.current_authority)
    }

    /// The order that moves the right to the derived authority.
    pub open spec fn order(self) -> SetAuthority {
        SetAuthority {
            current_authority: self.current_authority,
            new_authority: self.mint_authority.address,
        }
    }
}

/// Orders the right to mint moved from the signer to the derived authority.
pub fn transfer_mint_authority(ctx: &TransferMintAuthority) -> (res: Result<SetAuthority, ErrorCode>)
    ensures
        res == (if ctx.signer_is_authority() {
            Ok::<SetAuthority, ErrorCode>(ctx.order())
        } else {
            Err::<SetAuthority, ErrorCode>(ErrorCode::NotAuthority)
        }),
{
    let holds = match ctx.peg_mint.mint_authority {
        Some(holder) => holder.same(&ctx.current_authority),
        None => false,
    };
    if holds {
        Ok(
            SetAuthority {
                current_authority: ctx.current_authority,
                new_authority: ctx.mint_authority.address,
            },
        )
    } else {
        Err(ErrorCode::NotAuthority)
    }
}

/// What creating a submission touches: the freshly allocated record and the
/// signer who becomes its contestant.
#[derive(Clone, Debug, PartialEq, Eq)]
pub struct CreateSubmission {
    pub submission: SubmissionAccount,
    pub user: Identity,
}

/// Fills the new record: the signer as contestant, the two strings, no
/// votes. Refuses strings that do not fit the record.
pub fn create_submission(
    ctx: &mut CreateSubmission,
    title: String,
    youtube_id: String,
) -> (res: Result<(), ErrorCode>)
    ensures
        res == check_strings_spec(title@, youtube_id@),
        res.is_ok() ==> final(ctx).user == old(ctx).user && final(ctx).submission@ == (
        SubmissionView {
            contestant: old(ctx).user,
            title: title@,
            youtube_id: youtube_id@,
            vote_count: 0,
            backfilled: false,
        }),
        res.is_err() ==> *final(ctx) == *old(ctx),
{
    match check_strings(&title, &youtube_id) {
        Ok(_) => {},
        Err(e) => {
            return Err(e);
        },
    }
    ctx.submission.contestant = ctx.user;
    ctx.submission.title = title;
    ctx.submission.youtube_id = youtube_id;
    ctx.submission.vote_count = 0;
    ctx.submission.backfilled = false;
    Ok(())
}

/// What updating a submission touches: the record and the signer.
#[derive(Clone, Debug, PartialEq, Eq)]
pub struct UpdateSubmission {
    pub submission: SubmissionAccount,
    pub user: Identity,
}

/// Whether an update by `user` of a submission of `contestant` goes
/// through, and if not, why: the signer is looked at before the strings.
pub open spec fn check_update_spec(
    contestant: Identity,
    user: Identity,
    new_title: Seq<char>,
    new_youtube_id: Seq<char>,
) -> Result<(), ErrorCode> {
    if contestant != user {
        Err(ErrorCode::NotContestant)
    } else {
        check_strings_spec(new_title, new_youtube_id)
    }
}

/// Overwrites title and video reference, for the contestant alone.
pub fn update_submission(
    ctx: &mut UpdateSubmission,
    new_title: String,
    new_youtube_id: String,
) -> (res: Result<(), ErrorCode>)
    ensures
        res == check_update_spec(
            old(ctx).submission.contestant,
            old(ctx).user,
            new_title@,
            new_youtube_id@,
        ),
        res.is_ok() ==> final(ctx).user == old(ctx).user && final(ctx).submission@ == (
        SubmissionView { title: new_title@, youtube_id: new_youtube_id@, ..old(ctx).submission@ }),
        res.is_err() ==> *final(ctx) == *old(ctx),
{
    if !ctx.submission.contestant.same(&ctx.user) {
        return Err(ErrorCode::NotContestant);
    }
    match check_strings(&new_title, &new_youtube_id) {
        Ok(_) => {},
        Err(e) => {
            return Err(e);
        },
    }
    ctx.submission.title = new_title;
    ctx.submission.youtube_id = new_youtube_id;
    Ok(())
}

/// What bookkeeping on one identity's rewards touches: its profile and the
/// signer.
#[derive(Clone, Copy, Debug, PartialEq, Eq)]
pub struct ManagePegs {
    pub user_profile: UserProfile,
    pub user: Identity,
}

impl ManagePegs {
    /// Binds the profile to the signer if it is bound to nobody, then adds
    /// `amount` reward units; `Overflow`, and nothing changed, when the
    /// balance would not fit in 64 bits.
    pub fn credit(&mut self, amount: u64) -> (res: Result<(), ErrorCode>)
        ensures
            old(self).user_profile.peg_balance + amount <= u64::MAX ==> res == Ok::<(), ErrorCode>(
                (),
            ) && *final(self) == (ManagePegs {
                user_profile: old(self).user_profile.bound_to(old(self).user).credited(amount),
                user: old(self).user,
            }),
            old(self).user_profile.peg_balance + amount > u64::MAX ==> res == Err::<
                (),
                ErrorCode,
            >(ErrorCode::Overflow) && *final(self) == *old(self),
    {
        let mut profile = self.user_profile;
        profile.bind(self.user);
        match profile.credit(amount) {
            Ok(_) => {
                self.user_profile = profile;
                Ok(())
            },
            Err(e) => Err(e),
        }
    }
}

} // verus!
