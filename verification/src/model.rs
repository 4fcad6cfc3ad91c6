//! The ledger as a mathematical state, the five operations as transitions
//! on it, and what holds of every state that the operations can reach.

use vstd::prelude::*;
use crate::accounts::{check_strings_spec, SubmissionView};
use crate::error::ErrorCode;
use crate::identity::Identity;
use crate::instructions::check_update_spec;
use crate::token::{
    base_units, lemma_base_units_add, Mint, MintAuthority, MintTo, ServiceReply, SetAuthority,
    VOTE_REWARD,
};

verus! {

/// Where the receipt of one voter for one submission lives. The address is
/// the pair itself, so two receipts share an address exactly when they are
/// for the same voter and the same submission.
#[derive(Clone, Copy, Debug, PartialEq, Eq)]
pub struct ReceiptAddress {
    pub voter: Identity,
    pub submission: usize,
}

impl ReceiptAddress {
    /// Whether two addresses are the same address.
    pub fn same(&self, other: &ReceiptAddress) -> (b: bool)
        ensures
            b == (*self == *other),
    {
        self.submission == other.submission && self.voter.same(&other.voter)
    }
}

/// Everything the ledger records.
#[verifier::ext_equal]
pub struct LedgerState {
    /// The submissions; a submission's identifier is its position.
    pub submissions: Seq<SubmissionView>,
    /// The addresses at which a vote receipt exists.
    pub receipts: Set<ReceiptAddress>,
    /// The reward balance of each identity that has a profile.
    pub balances: Map<Identity, u64>,
    /// Base units of the token that confirmed mints have issued to each
    /// identity.
    pub minted: Map<Identity, nat>,
    /// Reward units that backfills have credited to each identity.
    pub adjusted: Map<Identity, nat>,
    pub peg_mint: Mint,
    pub mint_authority: MintAuthority,
}

impl LedgerState {
    /// A ledger with no submissions, receipts or profiles.
    pub open spec fn empty(peg_mint: Mint, mint_authority: MintAuthority) -> LedgerState {
        LedgerState {
            submissions: Seq::empty(),
            receipts: Set::empty(),
            balances: Map::empty(),
            minted: Map::empty(),
            adjusted: Map::empty(),
            peg_mint,
            mint_authority,
        }
    }

    /// Reward balance of `who`: zero for an identity without a profile.
    pub open spec fn balance_of(self, who: Identity) -> u64 {
        if self.balances.contains_key(who) {
            self.balances[who]
        } else {
            0
        }
    }

    /// Base units issued to `who` so far.
    pub open spec fn minted_to(self, who: Identity) -> nat {
        if self.minted.contains_key(who) {
            self.minted[who]
        } else {
            0
        }
    }

    /// Reward units that backfills have credited to `who` so far.
    pub open spec fn adjusted_of(self, who: Identity) -> nat {
        if self.adjusted.contains_key(who) {
            self.adjusted[who]
        } else {
            0
        }
    }

    /// Decimal places of one whole token.
    pub open spec fn decimals(self) -> nat {
        self.peg_mint.decimals as nat
    }

    /// Whether `voter` holds a receipt for `submission`.
    pub open spec fn has_voted(self, voter: Identity, submission: usize) -> bool {
        self.receipts.contains(ReceiptAddress { voter, submission })
    }

    /// The identities that hold a receipt for `submission`.
    pub open spec fn voters(self, submission: usize) -> Set<Identity> {
        Set::new(|voter: Identity| self.has_voted(voter, submission))
    }

    /// The receipts for submissions whose contestant is `who`.
    pub open spec fn received(self, who: Identity) -> Set<ReceiptAddress> {
        self.receipts.filter(
            |r: ReceiptAddress| self.submissions[r.submission as int].contestant == who,
        )
    }

    /// Every stored string fits the space reserved for it.
    pub open spec fn strings_fit(self) -> bool {
        forall|i: int| 0 <= i < self.submissions.len() ==> (#[trigger] self.submissions[i]).fits()
    }

    /// There are finitely many receipts, each for a submission that exists.
    pub open spec fn receipts_are_for_submissions(self) -> bool {
        &&& self.receipts.finite()
        &&& forall|r: ReceiptAddress| #[trigger]
            self.receipts.contains(r) ==> r.submission < self.submissions.len()
    }

    /// Each submission's vote count is the number of identities that hold a
    /// receipt for it.
    pub open spec fn counts_match_receipts(self) -> bool {
        forall|i: usize|
            i < self.submissions.len() ==> (#[trigger] self.voters(i)).finite()
                && self.submissions[i as int].vote_count == self.voters(i).len()
    }

    /// Each identity's reward balance is the reward for every receipt for
    /// one of its submissions, plus what backfills have credited it.
    pub open spec fn balances_match_votes(self) -> bool {
        forall|who: Identity| #[trigger]
            self.balance_of(who) == VOTE_REWARD * self.received(who).len() + self.adjusted_of(who)
    }

    /// Each identity has been issued exactly its reward balance, in base
    /// units of the token.
    pub open spec fn mints_match_balances(self) -> bool {
        forall|who: Identity| #[trigger]
            self.minted_to(who) == base_units(self.balance_of(who) as nat, self.decimals())
    }

    /// What holds of every state the operations can reach: everything the
    /// ledger records adds up.
    pub open spec fn inv(self) -> bool {
        &&& self.strings_fit()
        &&& self.receipts_are_for_submissions()
        &&& self.counts_match_receipts()
        &&& self.balances_match_votes()
        &&& self.mints_match_balances()
    }

    // ----- vote -----

    /// What a vote by `voter` for `submission` returns when the token
    /// service answers `reply` to its mint order.
    pub open spec fn vote_result(self, voter: Identity, submission: usize, reply: ServiceReply) -> Result<
        MintTo,
        ErrorCode,
    > {
        if submission >= self.submissions.len() {
            Err(ErrorCode::UnknownSubmission)
        } else if self.has_voted(voter, submission) {
            Err(ErrorCode::AlreadyVoted)
        } else if self.submissions[submission as int].vote_count + 1 > u64::MAX || self.balance_of(
            self.submissions[submission as int].contestant,
        ) + VOTE_REWARD > u64::MAX || base_units(VOTE_REWARD as nat, self.decimals()) > u64::MAX {
            Err(ErrorCode::Overflow)
        } else if reply == ServiceReply::Failed {
            Err(ErrorCode::ExternalMintFailure)
        } else {
            Ok(
                MintTo {
                    recipient: self.submissions[submission as int].contestant,
                    amount: base_units(VOTE_REWARD as nat, self.decimals()) as u64,
                    authority: self.mint_authority,
                },
            )
        }
    }

    /// The state after a vote that went through: the receipt exists, the
    /// submission has one more vote, voter and performer have profiles, and
    /// the performer has the reward in both balances.
    pub open spec fn after_vote(self, voter: Identity, submission: usize) -> LedgerState {
        let entry = self.submissions[submission as int];
        let performer = entry.contestant;
        LedgerState {
            submissions: self.submissions.update(
                submission as int,
                SubmissionView { vote_count: (entry.vote_count + 1) as u64, ..entry },
            ),
            receipts: self.receipts.insert(ReceiptAddress { voter, submission }),
            balances: self.balances.insert(voter, self.balance_of(voter)).insert(
                performer,
                (self.balance_of(performer) + VOTE_REWARD) as u64,
            ),
            minted: self.minted.insert(
                performer,
                self.minted_to(performer) + base_units(VOTE_REWARD as nat, self.decimals()),
            ),
            ..self
        }
    }

    /// The ledger after the vote: changed when it went through, else as it
    /// was.
    pub open spec fn vote(self, voter: Identity, submission: usize, reply: ServiceReply) -> LedgerState {
        if self.vote_result(voter, submission, reply).is_ok() {
            self.after_vote(voter, submission)
        } else {
            self
        }
    }

    // ----- backfill_tokens -----

    /// Reward units owed for the votes that `submission` has.
    pub open spec fn owed(self, submission: usize) -> nat {
        (self.submissions[submission as int].vote_count * VOTE_REWARD) as nat
    }

    /// What a backfill of `submission` returns when the token service
    /// answers `reply` to its mint order.
    pub open spec fn backfill_result(self, submission: usize, reply: ServiceReply) -> Result<
        MintTo,
        ErrorCode,
    > {
        if submission >= self.submissions.len() {
            Err(ErrorCode::UnknownSubmission)
        } else if self.submissions[submission as int].backfilled {
            Err(ErrorCode::AlreadyBackfilled)
        } else if self.owed(submission) > u64::MAX || self.balance_of(
            self.submissions[submission as int].contestant,
        ) + self.owed(submission) > u64::MAX || base_units(self.owed(submission), self.decimals())
            > u64::MAX {
            Err(ErrorCode::Overflow)
        } else if reply == ServiceReply::Failed {
            Err(ErrorCode::ExternalMintFailure)
        } else {
            Ok(
                MintTo {
                    recipient: self.submissions[submission as int].contestant,
                    amount: base_units(self.owed(submission), self.decimals()) as u64,
                    authority: self.mint_authority,
                },
            )
        }
    }

    /// The state after a backfill that went through: the submission is
    /// marked, and its performer has what was owed in both balances.
    pub open spec fn after_backfill(self, submission: usize) -> LedgerState {
        let entry = self.submissions[submission as int];
        let performer = entry.contestant;
        let owed = self.owed(submission);
        LedgerState {
            submissions: self.submissions.update(
                submission as int,
                SubmissionView { backfilled: true, ..entry },
            ),
            balances: self.balances.insert(performer, (self.balance_of(performer) + owed) as u64),
            adjusted: self.adjusted.insert(performer, self.adjusted_of(performer) + owed),
            minted: self.minted.insert(
                performer,
                self.minted_to(performer) + base_units(owed, self.decimals()),
            ),
            ..self
        }
    }

    /// The ledger after the backfill: changed when it went through, else as
    /// it was.
    pub open spec fn backfill(self, submission: usize, reply: ServiceReply) -> LedgerState {
        if self.backfill_result(submission, reply).is_ok() {
            self.after_backfill(submission)
        } else {
            self
        }
    }

    // ----- transfer_mint_authority -----

    /// What a transfer of the right to mint returns when `signer` asks for it
    /// and the token service answers `reply`.
    pub open spec fn transfer_result(self, signer: Identity, reply: ServiceReply) -> Result<
        SetAuthority,
        ErrorCode,
    > {
        if self.peg_mint.mint_authority != Some(signer) {
            Err(ErrorCode::NotAuthority)
        } else if reply == ServiceReply::Failed {
            Err(ErrorCode::ExternalMintFailure)
        } else {
            Ok(
                SetAuthority {
                    current_authority: signer,
                    new_authority: self.mint_authority.address,
                },
            )
        }
    }

    /// The state after a transfer that went through: the derived authority
    /// holds the right to mint.
    pub open spec fn after_transfer(self) -> LedgerState {
        LedgerState {
            peg_mint: Mint {
                mint_authority: Some(self.mint_authority.address),
                decimals: self.peg_mint.decimals,
            },
            ..self
        }
    }

    /// The ledger after the transfer: changed when it went through, else as
    /// it was.
    pub open spec fn transfer(self, signer: Identity, reply: ServiceReply) -> LedgerState {
        if self.transfer_result(signer, reply).is_ok() {
            self.after_transfer()
        } else {
            self
        }
    }

    // ----- create_submission -----

    /// What creating a submission returns: the new identifier, or why the
    /// strings were refused.
    pub open spec fn create_result(self, title: Seq<char>, youtube_id: Seq<char>) -> Result<
        usize,
        ErrorCode,
    > {
        match check_strings_spec(title, youtube_id) {
            Ok(_) => Ok(self.submissions.len() as usize),
            Err(e) => Err(e),
        }
    }

    /// The state after a creation that went through: one more submission,
    /// owned by `creator`, without votes.
    pub open spec fn after_create(
        self,
        creator: Identity,
        title: Seq<char>,
        youtube_id: Seq<char>,
    ) -> LedgerState {
        LedgerState {
            submissions: self.submissions.push(
                SubmissionView {
                    contestant: creator,
                    title,
                    youtube_id,
                    vote_count: 0,
                    backfilled: false,
                },
            ),
            ..self
        }
    }

    /// The ledger after the creation: changed when it went through, else as
    /// it was.
    pub open spec fn create(self, creator: Identity, title: Seq<char>, youtube_id: Seq<char>) -> LedgerState {
        if self.create_result(title, youtube_id).is_ok() {
            self.after_create(creator, title, youtube_id)
        } else {
            self
        }
    }

    // ----- update_submission -----

    /// What an update of `submission` by `requester` returns.
    pub open spec fn update_result(
        self,
        requester: Identity,
        submission: usize,
        new_title: Seq<char>,
        new_youtube_id: Seq<char>,
    ) -> Result<(), ErrorCode> {
        if submission >= self.submissions.len() {
            Err(ErrorCode::UnknownSubmission)
        } else {
            check_update_spec(
                self.submissions[submission as int].contestant,
                requester,
                new_title,
                new_youtube_id,
            )
        }
    }

    /// The state after an update that went through: the two strings
    /// overwritten, all else as it was.
    pub open spec fn after_update(
        self,
        submission: usize,
        new_title: Seq<char>,
        new_youtube_id: Seq<char>,
    ) -> LedgerState {
        LedgerState {
            submissions: self.submissions.update(
                submission as int,
                SubmissionView {
                    title: new_title,
                    youtube_id: new_youtube_id,
                    ..self.submissions[submission as int]
                },
            ),
            ..self
        }
    }

    /// The ledger after the update: changed when it went through, else as
    /// it was.
    pub open spec fn update(
        self,
        requester: Identity,
        submission: usize,
        new_title: Seq<char>,
        new_youtube_id: Seq<char>,
    ) -> LedgerState {
        if self.update_result(requester, submission, new_title, new_youtube_id).is_ok() {
            self.after_update(submission, new_title, new_youtube_id)
        } else {
            self
        }
    }
}

/// One request against the ledger, with the token service's answer where
/// the operation asks the token service for something.
pub enum Request {
    CreateSubmission { creator: Identity, title: Seq<char>, youtube_id: Seq<char> },
    UpdateSubmission {
        requester: Identity,
        submission: usize,
        new_title: Seq<char>,
        new_youtube_id: Seq<char>,
    },
    Vote { voter: Identity, submission: usize, reply: ServiceReply },
    BackfillTokens { submission: usize, payer: Identity, reply: ServiceReply },
    TransferMintAuthority { signer: Identity, reply: ServiceReply },
}

impl LedgerState {
    /// The ledger after `request`.
    pub open spec fn step(self, request: Request) -> LedgerState {
        match request {
            Request::CreateSubmission { creator, title, youtube_id } => self.create(
                creator,
                title,
                youtube_id,
            ),
            Request::UpdateSubmission {
                requester,
                submission,
                new_title,
                new_youtube_id,
            } => self.update(requester, submission, new_title, new_youtube_id),
            Request::Vote { voter, submission, reply } => self.vote(voter, submission, reply),
            Request::BackfillTokens { submission, payer, reply } => self.backfill(submission, reply),
            Request::TransferMintAuthority { signer, reply } => self.transfer(signer, reply),
        }
    }

    /// The ledger after `requests`, one after the other.
    pub open spec fn run(self, requests: Seq<Request>) -> LedgerState
        decreases requests.len(),
    {
        if requests.len() == 0 {
            self
        } else {
            self.run(requests.drop_last()).step(requests.last())
        }
    }
}

/// An empty ledger adds up.
pub proof fn lemma_empty_inv(peg_mint: Mint, mint_authority: MintAuthority)
    ensures
        LedgerState::empty(peg_mint, mint_authority).inv(),
{
    let s = LedgerState::empty(peg_mint, mint_authority);
    assert forall|who: Identity| #[trigger]
        s.balance_of(who) == VOTE_REWARD * s.received(who).len() + s.adjusted_of(who) by {
        assert(s.received(who) =~= Set::empty());
    }
    assert forall|who: Identity| #[trigger]
        s.minted_to(who) == base_units(s.balance_of(who) as nat, s.decimals()) by {
        assert(base_units(0, s.decimals()) == 0) by (nonlinear_arith);
    }
}

/// A vote that goes through leaves a state in which everything still adds
/// up.
pub proof fn lemma_vote_keeps_inv(s: LedgerState, voter: Identity, submission: usize)
    requires
        s.inv(),
        s.vote_result(voter, submission, ServiceReply::Confirmed).is_ok(),
    ensures
        s.after_vote(voter, submission).inv(),
{
    let t = s.after_vote(voter, submission);
    let address = ReceiptAddress { voter, submission };
    let performer = s.submissions[submission as int].contestant;
    assert forall|i: usize| i < t.submissions.len() implies (#[trigger] t.voters(i)).finite()
        && t.submissions[i as int].vote_count == t.voters(i).len() by {
        assert(s.voters(i).finite());
        if i == submission {
            assert(t.voters(i) =~= s.voters(i).insert(voter));
            assert(!s.voters(i).contains(voter));
        } else {
            assert(t.voters(i) =~= s.voters(i));
        }
    }
    assert forall|who: Identity| #[trigger]
        t.balance_of(who) == VOTE_REWARD * t.received(who).len() + t.adjusted_of(who) by {
        assert(s.balance_of(who) == VOTE_REWARD * s.received(who).len() + s.adjusted_of(who));
        assert(s.received(who).finite());
        if who == performer {
            assert(t.received(who) =~= s.received(who).insert(address));
            assert(!s.received(who).contains(address));
        } else {
            assert(t.received(who) =~= s.received(who));
        }
    }
    assert forall|who: Identity| #[trigger]
        t.minted_to(who) == base_units(t.balance_of(who) as nat, t.decimals()) by {
        assert(s.minted_to(who) == base_units(s.balance_of(who) as nat, s.decimals()));
        if who == performer {
            lemma_base_units_add(s.balance_of(who) as nat, VOTE_REWARD as nat, s.decimals());
        }
    }
}

/// A backfill that goes through leaves a state in which everything still
/// adds up.
pub proof fn lemma_backfill_keeps_inv(s: LedgerState, submission: usize)
    requires
        s.inv(),
        s.backfill_result(submission, ServiceReply::Confirmed).is_ok(),
    ensures
        s.after_backfill(submission).inv(),
{
    let t = s.after_backfill(submission);
    let performer = s.submissions[submission as int].contestant;
    assert forall|i: usize| i < t.submissions.len() implies (#[trigger] t.voters(i)).finite()
        && t.submissions[i as int].vote_count == t.voters(i).len() by {
        assert(s.voters(i).finite());
        assert(t.voters(i) =~= s.voters(i));
    }
    assert forall|who: Identity| #[trigger]
        t.balance_of(who) == VOTE_REWARD * t.received(who).len() + t.adjusted_of(who) by {
        assert(s.balance_of(who) == VOTE_REWARD * s.received(who).len() + s.adjusted_of(who));
        assert(t.received(who) =~= s.received(who));
    }
    assert forall|who: Identity| #[trigger]
        t.minted_to(who) == base_units(t.balance_of(who) as nat, t.decimals()) by {
        assert(s.minted_to(who) == base_units(s.balance_of(who) as nat, s.decimals()));
        if who == performer {
            lemma_base_units_add(s.balance_of(who) as nat, s.owed(submission), s.decimals());
        }
    }
}

/// A transfer of the right to mint leaves a state in which everything still
/// adds up.
pub proof fn lemma_transfer_keeps_inv(s: LedgerState)
    requires
        s.inv(),
    ensures
        s.after_transfer().inv(),
{
    let t = s.after_transfer();
    assert forall|i: usize| i < t.submissions.len() implies (#[trigger] t.voters(i)).finite()
        && t.submissions[i as int].vote_count == t.voters(i).len() by {
        assert(s.voters(i).finite());
        assert(t.voters(i) =~= s.voters(i));
    }
    assert forall|who: Identity| #[trigger]
        t.balance_of(who) == VOTE_REWARD * t.received(who).len() + t.adjusted_of(who) by {
        assert(s.balance_of(who) == VOTE_REWARD * s.received(who).len() + s.adjusted_of(who));
        assert(t.received(who) =~= s.received(who));
    }
    assert forall|who: Identity| #[trigger]
        t.minted_to(who) == base_units(t.balance_of(who) as nat, t.decimals()) by {
        assert(s.minted_to(who) == base_units(s.balance_of(who) as nat, s.decimals()));
    }
}

/// A creation that goes through leaves a state in which everything still
/// adds up.
pub proof fn lemma_create_keeps_inv(
    s: LedgerState,
    creator: Identity,
    title: Seq<char>,
    youtube_id: Seq<char>,
)
    requires
        s.inv(),
        s.create_result(title, youtube_id).is_ok(),
    ensures
        s.after_create(creator, title, youtube_id).inv(),
{
    let t = s.after_create(creator, title, youtube_id);
    assert forall|i: usize| i < t.submissions.len() implies (#[trigger] t.voters(i)).finite()
        && t.submissions[i as int].vote_count == t.voters(i).len() by {
        if i < s.submissions.len() {
            assert(s.voters(i).finite());
            assert(t.voters(i) =~= s.voters(i));
        } else {
            assert(t.voters(i) =~= Set::empty());
        }
    }
    assert forall|who: Identity| #[trigger]
        t.balance_of(who) == VOTE_REWARD * t.received(who).len() + t.adjusted_of(who) by {
        assert(s.balance_of(who) == VOTE_REWARD * s.received(who).len() + s.adjusted_of(who));
        assert(t.received(who) =~= s.received(who));
    }
    assert forall|who: Identity| #[trigger]
        t.minted_to(who) == base_units(t.balance_of(who) as nat, t.decimals()) by {
        assert(s.minted_to(who) == base_units(s.balance_of(who) as nat, s.decimals()));
    }
}

/// An update that goes through leaves a state in which everything still adds
/// up.
pub proof fn lemma_update_keeps_inv(
    s: LedgerState,
    requester: Identity,
    submission: usize,
    new_title: Seq<char>,
    new_youtube_id: Seq<char>,
)
    requires
        s.inv(),
        s.update_result(requester, submission, new_title, new_youtube_id).is_ok(),
    ensures
        s.after_update(submission, new_title, new_youtube_id).inv(),
{
    let t = s.after_update(submission, new_title, new_youtube_id);
    assert forall|i: usize| i < t.submissions.len() implies (#[trigger] t.voters(i)).finite()
        && t.submissions[i as int].vote_count == t.voters(i).len() by {
        assert(s.voters(i).finite());
        assert(t.voters(i) =~= s.voters(i));
    }
    assert forall|who: Identity| #[trigger]
        t.balance_of(who) == VOTE_REWARD * t.received(who).len() + t.adjusted_of(who) by {
        assert(s.balance_of(who) == VOTE_REWARD * s.received(who).len() + s.adjusted_of(who));
        assert(t.received(who) =~= s.received(who));
    }
    assert forall|who: Identity| #[trigger]
        t.minted_to(who) == base_units(t.balance_of(who) as nat, t.decimals()) by {
        assert(s.minted_to(who) == base_units(s.balance_of(who) as nat, s.decimals()));
    }
}

} // verus!
