//! What holds of the ledger whatever is asked of it, in whatever order.

use vstd::prelude::*;
use crate::error::ErrorCode;
use crate::identity::Identity;
use crate::model::{
    lemma_backfill_keeps_inv, lemma_create_keeps_inv, lemma_empty_inv, lemma_transfer_keeps_inv,
    lemma_update_keeps_inv, lemma_vote_keeps_inv, LedgerState, ReceiptAddress, Request,
};
use crate::token::{
    base_units, lemma_base_units_add, Mint, MintAuthority, MintTo, ServiceReply, SetAuthority,
    VOTE_REWARD,
};

verus! {

/// No request breaks a ledger that adds up.
pub proof fn law_step_keeps_inv(s: LedgerState, request: Request)
    requires
        s.inv(),
    ensures
        s.step(request).inv(),
{
    match request {
        Request::CreateSubmission { creator, title, youtube_id } => {
            if s.create_result(title, youtube_id).is_ok() {
                lemma_create_keeps_inv(s, creator, title, youtube_id);
            }
        },
        Request::UpdateSubmission { requester, submission, new_title, new_youtube_id } => {
            if s.update_result(requester, submission, new_title, new_youtube_id).is_ok() {
                lemma_update_keeps_inv(s, requester, submission, new_title, new_youtube_id);
            }
        },
        Request::Vote { voter, submission, reply } => {
            if s.vote_result(voter, submission, reply).is_ok() {
                lemma_vote_keeps_inv(s, voter, submission);
            }
        },
        Request::BackfillTokens { submission, payer, reply } => {
            if s.backfill_result(submission, reply).is_ok() {
                lemma_backfill_keeps_inv(s, submission);
            }
        },
        Request::TransferMintAuthority { signer, reply } => {
            if s.transfer_result(signer, reply).is_ok() {
                lemma_transfer_keeps_inv(s);
            }
        },
    }
}

/// No sequence of requests breaks a ledger that adds up.
pub proof fn law_run_keeps_inv(s: LedgerState, requests: Seq<Request>)
    requires
        s.inv(),
    ensures
        s.run(requests).inv(),
    decreases requests.len(),
{
    if requests.len() > 0 {
        law_run_keeps_inv(s, requests.drop_last());
        law_step_keeps_inv(s.run(requests.drop_last()), requests.last());
    }
}

/// After any sequence of requests against an empty ledger, every
/// submission's vote count is the number of distinct identities that hold a
/// receipt for it.
pub proof fn law_vote_count_is_number_of_voters(
    peg_mint: Mint,
    mint_authority: MintAuthority,
    requests: Seq<Request>,
    submission: usize,
)
    requires
        submission < LedgerState::empty(peg_mint, mint_authority).run(requests).submissions.len(),
    ensures
        ({
            let s = LedgerState::empty(peg_mint, mint_authority).run(requests);
            s.voters(submission).finite() && s.submissions[submission as int].vote_count
                == s.voters(submission).len()
        }),
{
    lemma_empty_inv(peg_mint, mint_authority);
    law_run_keeps_inv(LedgerState::empty(peg_mint, mint_authority), requests);
}

/// The identities that hold a receipt for a submission are those whose vote
/// for it went through: a vote that goes through adds its voter, and no
/// other request changes them.
pub proof fn law_voters_are_those_whose_vote_went_through(
    s: LedgerState,
    request: Request,
    submission: usize,
)
    ensures
        s.step(request).voters(submission) == (match request {
            Request::Vote { voter, submission: target, reply } => if target == submission
                && s.vote_result(voter, target, reply).is_ok() {
                s.voters(submission).insert(voter)
            } else {
                s.voters(submission)
            },
            _ => s.voters(submission),
        }),
{
    let t = s.step(request);
    match request {
        Request::Vote { voter, submission: target, reply } => {
            if target == submission && s.vote_result(voter, target, reply).is_ok() {
                assert(t.voters(submission) =~= s.voters(submission).insert(voter));
            } else {
                assert(t.voters(submission) =~= s.voters(submission));
            }
        },
        _ => {
            assert(t.voters(submission) =~= s.voters(submission));
        },
    }
}

/// The receipts that count for a performer are those of the votes for its
/// submissions that went through: such a vote adds its receipt, and no
/// other request changes them.
pub proof fn law_received_are_the_votes_that_went_through(
    s: LedgerState,
    request: Request,
    performer: Identity,
)
    requires
        s.inv(),
    ensures
        s.step(request).received(performer) == (match request {
            Request::Vote { voter, submission, reply } => if s.vote_result(
                voter,
                submission,
                reply,
            ).is_ok() && s.submissions[submission as int].contestant == performer {
                s.received(performer).insert(ReceiptAddress { voter, submission })
            } else {
                s.received(performer)
            },
            _ => s.received(performer),
        }),
        match request {
            Request::Vote { voter, submission, reply } => s.vote_result(voter, submission, reply).is_ok()
                ==> !s.received(performer).contains(ReceiptAddress { voter, submission }),
            _ => true,
        },
{
    let t = s.step(request);
    match request {
        Request::Vote { voter, submission, reply } => {
            if s.vote_result(voter, submission, reply).is_ok()
                && s.submissions[submission as int].contestant == performer {
                assert(t.received(performer) =~= s.received(performer).insert(
                    ReceiptAddress { voter, submission },
                ));
            } else {
                assert(t.received(performer) =~= s.received(performer));
            }
        },
        _ => {
            assert(t.received(performer) =~= s.received(performer));
        },
    }
}

/// A second vote by the same identity for the same submission is refused
/// with `AlreadyVoted`, and changes nothing.
pub proof fn law_second_vote_is_refused(
    s: LedgerState,
    voter: Identity,
    submission: usize,
    first: ServiceReply,
    second: ServiceReply,
)
    requires
        s.vote_result(voter, submission, first).is_ok(),
    ensures
        s.vote(voter, submission, first).vote_result(voter, submission, second) == Err::<MintTo, ErrorCode>(
            ErrorCode::AlreadyVoted,
        ),
        s.vote(voter, submission, first).vote(voter, submission, second) == s.vote(
            voter,
            submission,
            first,
        ),
{
}

/// A receipt, once it exists, exists after every further request.
pub proof fn law_receipts_are_permanent(
    s: LedgerState,
    requests: Seq<Request>,
    voter: Identity,
    submission: usize,
)
    requires
        s.has_voted(voter, submission),
    ensures
        s.run(requests).has_voted(voter, submission),
    decreases requests.len(),
{
    if requests.len() > 0 {
        law_receipts_are_permanent(s, requests.drop_last(), voter, submission);
    }
}

/// Whoever has voted for a submission is refused with `AlreadyVoted` ever
/// after, whatever was asked of the ledger in between.
pub proof fn law_voted_once_refused_ever_after(
    s: LedgerState,
    requests: Seq<Request>,
    voter: Identity,
    submission: usize,
    reply: ServiceReply,
)
    requires
        s.inv(),
        s.has_voted(voter, submission),
    ensures
        s.run(requests).vote_result(voter, submission, reply) == Err::<MintTo, ErrorCode>(
            ErrorCode::AlreadyVoted,
        ),
        s.run(requests).vote(voter, submission, reply) == s.run(requests),
{
    law_receipts_are_permanent(s, requests, voter, submission);
    law_run_keeps_inv(s, requests);
}

/// An update asked by anyone but the contestant is refused with
/// `NotContestant`, and changes nothing.
pub proof fn law_update_by_another_is_refused(
    s: LedgerState,
    requester: Identity,
    submission: usize,
    new_title: Seq<char>,
    new_youtube_id: Seq<char>,
)
    requires
        submission < s.submissions.len(),
        requester != s.submissions[submission as int].contestant,
    ensures
        s.update_result(requester, submission, new_title, new_youtube_id) == Err::<(), ErrorCode>(
            ErrorCode::NotContestant,
        ),
        s.update(requester, submission, new_title, new_youtube_id) == s,
{
}

/// No request removes a submission, changes its contestant or lowers its
/// vote count.
pub proof fn law_submissions_only_grow(s: LedgerState, request: Request, submission: usize)
    requires
        submission < s.submissions.len(),
    ensures
        submission < s.step(request).submissions.len(),
        s.step(request).submissions[submission as int].contestant
            == s.submissions[submission as int].contestant,
        s.step(request).submissions[submission as int].vote_count
            >= s.submissions[submission as int].vote_count,
{
}

/// After any sequence of requests against an empty ledger, the reward
/// balance of every identity is three units for each receipt for one of its
/// submissions, plus what backfills have credited it; and the token service
/// has been asked to issue it exactly that balance in base units of the
/// token.
pub proof fn law_balances_mirror_votes(
    peg_mint: Mint,
    mint_authority: MintAuthority,
    requests: Seq<Request>,
    who: Identity,
)
    ensures
        ({
            let s = LedgerState::empty(peg_mint, mint_authority).run(requests);
            &&& s.balance_of(who) == VOTE_REWARD * s.received(who).len() + s.adjusted_of(who)
            &&& s.minted_to(who) == base_units(s.balance_of(who) as nat, s.decimals())
        }),
{
    lemma_empty_inv(peg_mint, mint_authority);
    law_run_keeps_inv(LedgerState::empty(peg_mint, mint_authority), requests);
    let s = LedgerState::empty(peg_mint, mint_authority).run(requests);
    assert(s.balance_of(who) == VOTE_REWARD * s.received(who).len() + s.adjusted_of(who));
    assert(s.minted_to(who) == base_units(s.balance_of(who) as nat, s.decimals()));
}

/// Every credit is paired with one mint of the same worth: whatever a
/// request adds to an identity's reward balance, scaled to base units, is
/// what it adds to the base units issued to that identity; and for a vote
/// or a backfill that went through, that is the amount of the order, to
/// the order's recipient and to nobody else.
pub proof fn law_every_credit_is_minted(s: LedgerState, request: Request, who: Identity)
    requires
        s.inv(),
    ensures
        s.step(request).balance_of(who) >= s.balance_of(who),
        s.step(request).minted_to(who) - s.minted_to(who) == base_units(
            (s.step(request).balance_of(who) - s.balance_of(who)) as nat,
            s.decimals(),
        ),
        match request {
            Request::Vote { voter, submission, reply } => match s.vote_result(
                voter,
                submission,
                reply,
            ) {
                Ok(order) => s.step(request).minted_to(who) - s.minted_to(who) == (if who
                    == order.recipient {
                    order.amount as int
                } else {
                    0
                }),
                Err(_) => s.step(request).minted_to(who) == s.minted_to(who),
            },
            Request::BackfillTokens { submission, payer, reply } => match s.backfill_result(
                submission,
                reply,
            ) {
                Ok(order) => s.step(request).minted_to(who) - s.minted_to(who) == (if who
                    == order.recipient {
                    order.amount as int
                } else {
                    0
                }),
                Err(_) => s.step(request).minted_to(who) == s.minted_to(who),
            },
            _ => s.step(request).minted_to(who) == s.minted_to(who),
        },
{
    let t = s.step(request);
    law_step_keeps_inv(s, request);
    assert(s.minted_to(who) == base_units(s.balance_of(who) as nat, s.decimals()));
    assert(t.minted_to(who) == base_units(t.balance_of(who) as nat, t.decimals()));
    assert(t.decimals() == s.decimals());
    assert(t.balance_of(who) >= s.balance_of(who));
    lemma_base_units_add(
        s.balance_of(who) as nat,
        (t.balance_of(who) - s.balance_of(who)) as nat,
        s.decimals(),
    );
}

/// Where no backfill was asked for, nothing was credited by backfill.
pub proof fn law_no_backfill_no_adjustment(s: LedgerState, requests: Seq<Request>, who: Identity)
    requires
        forall|i: int| 0 <= i < requests.len() ==> !(#[trigger] requests[i] is BackfillTokens),
    ensures
        s.run(requests).adjusted_of(who) == s.adjusted_of(who),
    decreases requests.len(),
{
    if requests.len() > 0 {
        assert(!(requests[requests.len() - 1] is BackfillTokens));
        assert forall|i: int| 0 <= i < requests.drop_last().len() implies !(
        #[trigger] requests.drop_last()[i] is BackfillTokens) by {
            assert(requests.drop_last()[i] == requests[i]);
        }
        law_no_backfill_no_adjustment(s, requests.drop_last(), who);
    }
}

/// After votes alone, and whatever else but backfills, a performer's reward
/// balance is three units for each vote received, and the token service has
/// been asked to issue it that many units scaled to base units.
pub proof fn law_three_units_per_vote(
    peg_mint: Mint,
    mint_authority: MintAuthority,
    requests: Seq<Request>,
    performer: Identity,
)
    requires
        forall|i: int| 0 <= i < requests.len() ==> !(#[trigger] requests[i] is BackfillTokens),
    ensures
        ({
            let s = LedgerState::empty(peg_mint, mint_authority).run(requests);
            &&& s.balance_of(performer) == 3 * s.received(performer).len()
            &&& s.minted_to(performer) == base_units(3 * s.received(performer).len(), s.decimals())
        }),
{
    law_balances_mirror_votes(peg_mint, mint_authority, requests, performer);
    law_no_backfill_no_adjustment(
        LedgerState::empty(peg_mint, mint_authority),
        requests,
        performer,
    );
}

/// A second backfill of the same submission is refused with
/// `AlreadyBackfilled`, and changes nothing.
pub proof fn law_second_backfill_is_refused(
    s: LedgerState,
    submission: usize,
    first: ServiceReply,
    second: ServiceReply,
)
    requires
        s.backfill_result(submission, first).is_ok(),
    ensures
        s.backfill(submission, first).backfill_result(submission, second) == Err::<MintTo, ErrorCode>(
            ErrorCode::AlreadyBackfilled,
        ),
        s.backfill(submission, first).backfill(submission, second) == s.backfill(submission, first),
{
}

/// A submission, once backfilled, is refused a backfill ever after, whatever
/// was asked of the ledger in between.
pub proof fn law_backfilled_once_refused_ever_after(
    s: LedgerState,
    requests: Seq<Request>,
    submission: usize,
    reply: ServiceReply,
)
    requires
        submission < s.submissions.len(),
        s.submissions[submission as int].backfilled,
    ensures
        submission < s.run(requests).submissions.len(),
        s.run(requests).submissions[submission as int].backfilled,
        s.run(requests).backfill_result(submission, reply) == Err::<MintTo, ErrorCode>(
            ErrorCode::AlreadyBackfilled,
        ),
        s.run(requests).backfill(submission, reply) == s.run(requests),
    decreases requests.len(),
{
    if requests.len() > 0 {
        law_backfilled_once_refused_ever_after(s, requests.drop_last(), submission, reply);
    }
}

/// A vote whose reward would overflow the performer's balance is refused
/// with `Overflow`, and credits nothing.
pub proof fn law_overflowing_vote_credits_nothing(
    s: LedgerState,
    voter: Identity,
    submission: usize,
    reply: ServiceReply,
)
    requires
        submission < s.submissions.len(),
        !s.has_voted(voter, submission),
        s.balance_of(s.submissions[submission as int].contestant) + VOTE_REWARD > u64::MAX,
    ensures
        s.vote_result(voter, submission, reply) == Err::<MintTo, ErrorCode>(
            ErrorCode::Overflow,
        ),
        s.vote(voter, submission, reply) == s,
{
}

/// A backfill that would overflow the performer's balance is refused with
/// `Overflow`, and credits nothing.
pub proof fn law_overflowing_backfill_credits_nothing(
    s: LedgerState,
    submission: usize,
    reply: ServiceReply,
)
    requires
        submission < s.submissions.len(),
        !s.submissions[submission as int].backfilled,
        s.balance_of(s.submissions[submission as int].contestant) + s.owed(submission) > u64::MAX,
    ensures
        s.backfill_result(submission, reply) == Err::<MintTo, ErrorCode>(
            ErrorCode::Overflow,
        ),
        s.backfill(submission, reply) == s,
{
}

/// Where the token service does not carry out the mint, the vote is refused
/// and nothing of it is recorded.
pub proof fn law_failed_mint_records_nothing(s: LedgerState, voter: Identity, submission: usize)
    ensures
        s.vote_result(voter, submission, ServiceReply::Failed).is_err(),
        s.vote(voter, submission, ServiceReply::Failed) == s,
        s.backfill_result(submission, ServiceReply::Failed).is_err(),
        s.backfill(submission, ServiceReply::Failed) == s,
{
}

/// Once the right to mint has moved to the derived authority, the signer
/// who gave it away is refused with `NotAuthority`.
pub proof fn law_transfer_is_one_way(
    s: LedgerState,
    signer: Identity,
    first: ServiceReply,
    second: ServiceReply,
)
    requires
        s.transfer_result(signer, first).is_ok(),
        signer != s.mint_authority.address,
    ensures
        s.transfer(signer, first).transfer_result(signer, second) == Err::<SetAuthority, ErrorCode>(
            ErrorCode::NotAuthority,
        ),
{
}

} // verus!
