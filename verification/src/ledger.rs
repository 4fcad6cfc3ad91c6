//! The ledger in memory: the store of all records, and the five operations
//! as requests against it.
//!
//! A request is resolved into the records it touches, the operation runs on
//! copies of them, and only when it and the token service have both agreed
//! are the copies written back together. A refused request leaves the store
//! as it was.
//!
//! The ledger takes requests one at a time: an operation holds it
//! exclusively from start to end, so no request sees another half done.

use vstd::prelude::*;
use crate::accounts::{SubmissionAccount, UserProfile, VoteReceipt};
use crate::addresses::{mint_authority_seeds_spec, program_address};
use crate::error::ErrorCode;
use crate::identity::Identity;
use crate::instructions::{
    BackfillTokens, CreateSubmission, TransferMintAuthority, UpdateSubmission, Vote,
};
use crate::model::{
    lemma_backfill_keeps_inv, lemma_create_keeps_inv, lemma_empty_inv, lemma_transfer_keeps_inv,
    lemma_update_keeps_inv, lemma_vote_keeps_inv, LedgerState, ReceiptAddress,
};
use crate::token::{
    settle_mint, settle_transfer, Mint, MintAuthority, MintTo, ServiceReply, SetAuthority,
    VOTE_REWARD,
};

verus! {

/// The store of all records. Its mathematical content is its view, a
/// `LedgerState`.
pub struct Ledger {
    submissions: Vec<SubmissionAccount>,
    receipts: Vec<ReceiptAddress>,
    profiles: Vec<UserProfile>,
    peg_mint: Mint,
    mint_authority: MintAuthority,
    state: Ghost<LedgerState>,
}

/// The stored profiles are those of `balances`: one per identity, each with
/// that identity's balance.
spec fn profiles_hold(profiles: Seq<UserProfile>, balances: Map<Identity, u64>) -> bool {
    &&& forall|j: int|
        0 <= j < profiles.len() ==> balances.contains_key((#[trigger] profiles[j]).authority)
            && balances[profiles[j].authority] == profiles[j].peg_balance
    &&& forall|who: Identity| #[trigger]
        balances.contains_key(who) ==> exists|j: int|
            0 <= j < profiles.len() && (#[trigger] profiles[j]).authority == who
    &&& forall|i: int, j: int|
        0 <= i < j < profiles.len() ==> (#[trigger] profiles[i]).authority != (
        #[trigger] profiles[j]).authority
}

/// The stored submissions are those of `views`, in order.
spec fn submissions_hold(
    submissions: Seq<SubmissionAccount>,
    views: Seq<crate::accounts::SubmissionView>,
) -> bool {
    &&& submissions.len() == views.len()
    &&& forall|i: int| 0 <= i < submissions.len() ==> (#[trigger] submissions[i])@ == views[i]
}

/// The stored receipt addresses are those of `set`.
spec fn receipts_hold(receipts: Seq<ReceiptAddress>, set: Set<ReceiptAddress>) -> bool {
    forall|r: ReceiptAddress| receipts.contains(r) <==> set.contains(r)
}

/// Storing one more address stores one more receipt.
proof fn lemma_receipt_stored(
    receipts: Seq<ReceiptAddress>,
    set: Set<ReceiptAddress>,
    address: ReceiptAddress,
)
    requires
        receipts_hold(receipts, set),
    ensures
        receipts_hold(receipts.push(address), set.insert(address)),
{
    let after = receipts.push(address);
    assert forall|r: ReceiptAddress| after.contains(r) <==> set.insert(address).contains(r) by {
        if after.contains(r) {
            let i = choose|i: int| 0 <= i < after.len() && after[i] == r;
            if i < receipts.len() {
                assert(receipts[i] == r);
                assert(receipts.contains(r));
            }
        }
        if set.insert(address).contains(r) {
            if r == address {
                assert(after[receipts.len() as int] == r);
            } else {
                assert(receipts.contains(r));
                let i = choose|i: int| 0 <= i < receipts.len() && receipts[i] == r;
                assert(after[i] == r);
            }
        }
    }
}

/// Position of the profile of `who`, if one is stored.
fn find_profile(profiles: &Vec<UserProfile>, who: &Identity) -> (found: Option<usize>)
    ensures
        match found {
            Some(j) => j < profiles.len() && profiles[j as int].authority == *who,
            None => forall|j: int|
                0 <= j < profiles.len() ==> (#[trigger] profiles[j]).authority != *who,
        },
{
    let mut j: usize = 0;
    while j < profiles.len()
        invariant
            0 <= j <= profiles.len(),
            forall|k: int| 0 <= k < j ==> (#[trigger] profiles[k]).authority != *who,
        decreases profiles.len() - j,
    {
        if profiles[j].authority.same(who) {
            return Some(j);
        }
        j = j + 1;
    }
    None
}

/// The profile of `who` as a request finds it: the stored one, or a freshly
/// allocated one where none is stored.
fn resolve_profile(
    profiles: &Vec<UserProfile>,
    who: &Identity,
    Ghost(balances): Ghost<Map<Identity, u64>>,
) -> (profile: UserProfile)
    requires
        profiles_hold(profiles@, balances),
    ensures
        balances.contains_key(*who) ==> profile == (UserProfile {
            authority: *who,
            peg_balance: balances[*who],
        }),
        !balances.contains_key(*who) ==> profile.authority.is_unset_spec() && profile.peg_balance
            == 0,
{
    match find_profile(profiles, who) {
        Some(j) => profiles[j],
        None => UserProfile::vacant(),
    }
}

/// Writes `profile` back: over the stored profile of its identity, or as a
/// new one.
fn store_profile(
    profiles: &mut Vec<UserProfile>,
    profile: UserProfile,
    Ghost(balances): Ghost<Map<Identity, u64>>,
)
    requires
        profiles_hold(old(profiles)@, balances),
    ensures
        profiles_hold(final(profiles)@, balances.insert(profile.authority, profile.peg_balance)),
{
    let ghost before = profiles@;
    match find_profile(profiles, &profile.authority) {
        Some(j) => {
            profiles[j] = profile;
            assert forall|who: Identity| #[trigger]
                balances.insert(profile.authority, profile.peg_balance).contains_key(
                    who,
                ) implies exists|k: int|
                0 <= k < profiles@.len() && (#[trigger] profiles@[k]).authority == who by {
                if who == profile.authority {
                    assert(profiles@[j as int].authority == who);
                } else {
                    let k = choose|k: int|
                        0 <= k < before.len() && (#[trigger] before[k]).authority == who;
                    assert(profiles@[k].authority == who);
                }
            }
        },
        None => {
            profiles.push(profile);
            assert forall|who: Identity| #[trigger]
                balances.insert(profile.authority, profile.peg_balance).contains_key(
                    who,
                ) implies exists|k: int|
                0 <= k < profiles@.len() && (#[trigger] profiles@[k]).authority == who by {
                if who == profile.authority {
                    assert(profiles@[before.len() as int].authority == who);
                } else {
                    let k = choose|k: int|
                        0 <= k < before.len() && (#[trigger] before[k]).authority == who;
                    assert(profiles@[k].authority == who);
                }
            }
        },
    }
}

/// Whether a receipt is stored at `address`.
fn holds_receipt(receipts: &Vec<ReceiptAddress>, address: &ReceiptAddress) -> (held: bool)
    ensures
        held == receipts@.contains(*address),
{
    let mut j: usize = 0;
    while j < receipts.len()
        invariant
            0 <= j <= receipts.len(),
            forall|k: int| 0 <= k < j ==> receipts[k] != *address,
        decreases receipts.len() - j,
    {
        if receipts[j].same(address) {
            return true;
        }
        j = j + 1;
    }
    false
}

impl View for Ledger {
    type V = LedgerState;

    closed spec fn view(&self) -> LedgerState {
        self.state@
    }
}

impl Ledger {
    /// The store holds exactly what its view says, and the view adds up.
    pub closed spec fn wf(&self) -> bool {
        &&& self.state@.inv()
        &&& submissions_hold(self.submissions@, self.state@.submissions)
        &&& receipts_hold(self.receipts@, self.state@.receipts)
        &&& profiles_hold(self.profiles@, self.state@.balances)
        &&& self.peg_mint == self.state@.peg_mint
        &&& self.mint_authority == self.state@.mint_authority
    }

    /// What a well-formed ledger records adds up: counts match receipts,
    /// balances match counts, and mints match balances.
    pub proof fn lemma_wf_adds_up(&self)
        requires
            self.wf(),
        ensures
            self@.inv(),
    {
    }

    /// An empty ledger for rewards in `peg_mint`, minted under
    /// `mint_authority`.
    pub fn new(peg_mint: Mint, mint_authority: MintAuthority) -> (ledger: Ledger)
        ensures
            ledger.wf(),
            ledger@ == LedgerState::empty(peg_mint, mint_authority),
    {
        proof {
            lemma_empty_inv(peg_mint, mint_authority);
        }
        Ledger {
            submissions: Vec::new(),
            receipts: Vec::new(),
            profiles: Vec::new(),
            peg_mint,
            mint_authority,
            state: Ghost(LedgerState::empty(peg_mint, mint_authority)),
        }
    }

    /// An empty ledger of the program `program`, for rewards in `peg_mint`
    /// minted under the authority derived for that program; none where no
    /// authority can be derived for it.
    pub fn for_program(peg_mint: Mint, program: &Identity) -> (ledger: Option<Ledger>)
        ensures
            match ledger {
                Some(l) => {
                    &&& l.wf()
                    &&& l@ == LedgerState::empty(peg_mint, l@.mint_authority)
                    &&& program_address(mint_authority_seeds_spec(), program@) == Some(
                        (l@.mint_authority.address@, l@.mint_authority.bump),
                    )
                },
                None => program_address(mint_authority_seeds_spec(), program@).is_none(),
            },
    {
        match MintAuthority::derive(program) {
            Some(mint_authority) => Some(Ledger::new(peg_mint, mint_authority)),
            None => None,
        }
    }

    /// Resolves the records a vote touches and runs the vote on them,
    /// without writing anything back.
    fn stage_vote(&self, voter: Identity, submission: usize) -> (res: Result<(Vote, MintTo), ErrorCode>)
        requires
            self.wf(),
        ensures
            match res {
                Ok((ctx, order)) => {
                    &&& self@.vote_result(voter, submission, ServiceReply::Confirmed) == Ok::<
                        MintTo,
                        ErrorCode,
                    >(order)
                    &&& ctx.submission@ == self@.after_vote(voter, submission).submissions[submission as int]
                    &&& ctx.user_profile == (UserProfile {
                        authority: voter,
                        peg_balance: self@.balance_of(voter),
                    })
                    &&& ctx.performer_profile == (UserProfile {
                        authority: self@.submissions[submission as int].contestant,
                        peg_balance: (self@.balance_of(self@.submissions[submission as int].contestant)
                            + VOTE_REWARD) as u64,
                    })
                },
                Err(e) => e != ErrorCode::ExternalMintFailure && forall|reply: ServiceReply|
                    #[trigger] self@.vote_result(voter, submission, reply) == Err::<MintTo, ErrorCode>(
                        e,
                    ),
            },
    {
        if submission >= self.submissions.len() {
            return Err(ErrorCode::UnknownSubmission);
        }
        let address = ReceiptAddress { voter, submission };
        let vote_receipt = if holds_receipt(&self.receipts, &address) {
            Some(VoteReceipt {  })
        } else {
            None
        };
        let performer = self.submissions[submission].contestant;
        let mut ctx = Vote {
            submission: self.submissions[submission].clone(),
            vote_receipt,
            user_profile: resolve_profile(&self.profiles, &voter, Ghost(self.state@.balances)),
            performer,
            performer_profile: resolve_profile(
                &self.profiles,
                &performer,
                Ghost(self.state@.balances),
            ),
            peg_mint: self.peg_mint,
            mint_authority: self.mint_authority,
            user: voter,
        };
        match crate::instructions::vote(&mut ctx) {
            Ok(order) => Ok((ctx, order)),
            Err(e) => Err(e),
        }
    }

    /// The mint order that a vote of `voter` for `submission` would place,
    /// or why the vote would be refused before the token service is asked.
    /// The ledger is not changed.
    pub fn plan_vote(&self, voter: Identity, submission: usize) -> (res: Result<MintTo, ErrorCode>)
        requires
            self.wf(),
        ensures
            res == self@.vote_result(voter, submission, ServiceReply::Confirmed),
    {
        match self.stage_vote(voter, submission) {
            Ok((_, order)) => Ok(order),
            Err(e) => Err(e),
        }
    }

    /// Records the vote of `voter` for `submission`, given the token
    /// service's answer to the mint order that `plan_vote` returns for it.
    /// Either the receipt, the count and the reward are all recorded, or
    /// nothing is.
    pub fn vote(&mut self, voter: Identity, submission: usize, reply: ServiceReply) -> (res: Result<
        MintTo,
        ErrorCode,
    >)
        requires
            old(self).wf(),
        ensures
            final(self).wf(),
            res == old(self)@.vote_result(voter, submission, reply),
            final(self)@ == old(self)@.vote(voter, submission, reply),
    {
        let (ctx, order) = match self.stage_vote(voter, submission) {
            Ok(staged) => staged,
            Err(e) => {
                return Err(e);
            },
        };
        let order = match settle_mint(order, reply) {
            Ok(order) => order,
            Err(e) => {
                return Err(e);
            },
        };
        let ghost before = self.state@;
        let ghost touched = before.balances.insert(voter, before.balance_of(voter));
        let address = ReceiptAddress { voter, submission };
        proof {
            lemma_vote_keeps_inv(before, voter, submission);
            lemma_receipt_stored(self.receipts@, before.receipts, address);
        }
        self.receipts.push(address);
        self.submissions[submission] = ctx.submission;
        store_profile(&mut self.profiles, ctx.user_profile, Ghost(before.balances));
        store_profile(&mut self.profiles, ctx.performer_profile, Ghost(touched));
        self.state = Ghost(before.after_vote(voter, submission));
        Ok(order)
    }

    /// Resolves the records a backfill touches and runs the backfill on
    /// them, without writing anything back.
    fn stage_backfill(&self, submission: usize, payer: Identity) -> (res: Result<
        (BackfillTokens, MintTo),
        ErrorCode,
    >)
        requires
            self.wf(),
        ensures
            match res {
                Ok((ctx, order)) => {
                    &&& self@.backfill_result(submission, ServiceReply::Confirmed) == Ok::<
                        MintTo,
                        ErrorCode,
                    >(order)
                    &&& ctx.submission@ == self@.after_backfill(submission).submissions[submission as int]
                    &&& ctx.performer_profile == (UserProfile {
                        authority: self@.submissions[submission as int].contestant,
                        peg_balance: (self@.balance_of(self@.submissions[submission as int].contestant)
                            + self@.owed(submission)) as u64,
                    })
                },
                Err(e) => e != ErrorCode::ExternalMintFailure && forall|reply: ServiceReply|
                    #[trigger] self@.backfill_result(submission, reply) == Err::<MintTo, ErrorCode>(e),
            },
    {
        if submission >= self.submissions.len() {
            return Err(ErrorCode::UnknownSubmission);
        }
        let performer = self.submissions[submission].contestant;
        let mut ctx = BackfillTokens {
            submission: self.submissions[submission].clone(),
            performer,
            performer_profile: resolve_profile(
                &self.profiles,
                &performer,
                Ghost(self.state@.balances),
            ),
            peg_mint: self.peg_mint,
            mint_authority: self.mint_authority,
            payer,
        };
        match crate::instructions::backfill_tokens(&mut ctx) {
            Ok(order) => Ok((ctx, order)),
            Err(e) => Err(e),
        }
    }

    /// The mint order that a backfill of `submission` would place, or why it
    /// would be refused before the token service is asked. The ledger is not
    /// changed.
    pub fn plan_backfill(&self, submission: usize, payer: Identity) -> (res: Result<
        MintTo,
        ErrorCode,
    >)
        requires
            self.wf(),
        ensures
            res == self@.backfill_result(submission, ServiceReply::Confirmed),
    {
        match self.stage_backfill(submission, payer) {
            Ok((_, order)) => Ok(order),
            Err(e) => Err(e),
        }
    }

    /// Credits the performer of `submission` for the votes it already has,
    /// once, given the token service's answer to the mint order that
    /// `plan_backfill` returns for it.
    pub fn backfill_tokens(
        &mut self,
        submission: usize,
        payer: Identity,
        reply: ServiceReply,
    ) -> (res: Result<MintTo, ErrorCode>)
        requires
            old(self).wf(),
        ensures
            final(self).wf(),
            res == old(self)@.backfill_result(submission, reply),
            final(self)@ == old(self)@.backfill(submission, reply),
    {
        let (ctx, order) = match self.stage_backfill(submission, payer) {
            Ok(staged) => staged,
            Err(e) => {
                return Err(e);
            },
        };
        let order = match settle_mint(order, reply) {
            Ok(order) => order,
            Err(e) => {
                return Err(e);
            },
        };
        let ghost before = self.state@;
        proof {
            lemma_backfill_keeps_inv(before, submission);
        }
        self.submissions[submission] = ctx.submission;
        store_profile(&mut self.profiles, ctx.performer_profile, Ghost(before.balances));
        self.state = Ghost(before.after_backfill(submission));
        Ok(order)
    }

    /// Moves the right to mint from `signer` to the derived authority, given
    /// the token service's answer to the transfer order.
    pub fn transfer_mint_authority(&mut self, signer: Identity, reply: ServiceReply) -> (res: Result<
        SetAuthority,
        ErrorCode,
    >)
        requires
            old(self).wf(),
        ensures
            final(self).wf(),
            res == old(self)@.transfer_result(signer, reply),
            final(self)@ == old(self)@.transfer(signer, reply),
    {
        let ctx = TransferMintAuthority {
            peg_mint: self.peg_mint,
            current_authority: signer,
            mint_authority: self.mint_authority,
        };
        let order = match crate::instructions::transfer_mint_authority(&ctx) {
            Ok(order) => order,
            Err(e) => {
                return Err(e);
            },
        };
        let order = match settle_transfer(order, reply) {
            Ok(order) => order,
            Err(e) => {
                return Err(e);
            },
        };
        let ghost before = self.state@;
        proof {
            lemma_transfer_keeps_inv(before);
        }
        self.peg_mint = Mint {
            mint_authority: Some(self.mint_authority.address),
            decimals: self.peg_mint.decimals,
        };
        self.state = Ghost(before.after_transfer());
        Ok(order)
    }

    /// Stores a new submission of `creator` and returns its identifier.
    pub fn create_submission(
        &mut self,
        creator: Identity,
        title: String,
        youtube_id: String,
    ) -> (res: Result<usize, ErrorCode>)
        requires
            old(self).wf(),
        ensures
            final(self).wf(),
            res == old(self)@.create_result(title@, youtube_id@),
            final(self)@ == old(self)@.create(creator, title@, youtube_id@),
    {
        let ghost before = self.state@;
        let ghost title_view = title@;
        let ghost youtube_id_view = youtube_id@;
        let mut ctx = CreateSubmission { submission: SubmissionAccount::vacant(), user: creator };
        match crate::instructions::create_submission(&mut ctx, title, youtube_id) {
            Ok(_) => {},
            Err(e) => {
                return Err(e);
            },
        }
        proof {
            lemma_create_keeps_inv(before, creator, title_view, youtube_id_view);
        }
        let id = self.submissions.len();
        self.submissions.push(ctx.submission);
        self.state = Ghost(before.after_create(creator, title_view, youtube_id_view));
        Ok(id)
    }

    /// Overwrites title and video reference of `submission`, for its
    /// contestant alone.
    pub fn update_submission(
        &mut self,
        requester: Identity,
        submission: usize,
        new_title: String,
        new_youtube_id: String,
    ) -> (res: Result<(), ErrorCode>)
        requires
            old(self).wf(),
        ensures
            final(self).wf(),
            res == old(self)@.update_result(requester, submission, new_title@, new_youtube_id@),
            final(self)@ == old(self)@.update(requester, submission, new_title@, new_youtube_id@),
    {
        if submission >= self.submissions.len() {
            return Err(ErrorCode::UnknownSubmission);
        }
        let ghost before = self.state@;
        let ghost title_view = new_title@;
        let ghost youtube_id_view = new_youtube_id@;
        let mut ctx = UpdateSubmission {
            submission: self.submissions[submission].clone(),
            user: requester,
        };
        match crate::instructions::update_submission(&mut ctx, new_title, new_youtube_id) {
            Ok(_) => {},
            Err(e) => {
                return Err(e);
            },
        }
        proof {
            lemma_update_keeps_inv(before, requester, submission, title_view, youtube_id_view);
        }
        self.submissions[submission] = ctx.submission;
        self.state = Ghost(before.after_update(submission, title_view, youtube_id_view));
        Ok(())
    }

    /// Number of submissions stored.
    pub fn submission_count(&self) -> (count: usize)
        requires
            self.wf(),
        ensures
            count == self@.submissions.len(),
    {
        self.submissions.len()
    }

    /// The submission with identifier `submission`, if there is one.
    pub fn submission(&self, submission: usize) -> (found: Option<&SubmissionAccount>)
        requires
            self.wf(),
        ensures
            found.is_some() == (submission < self@.submissions.len()),
            found.is_some() ==> found.unwrap()@ == self@.submissions[submission as int],
    {
        if submission < self.submissions.len() {
            Some(&self.submissions[submission])
        } else {
            None
        }
    }

    /// Whether `voter` holds a receipt for `submission`.
    pub fn has_voted(&self, voter: Identity, submission: usize) -> (voted: bool)
        requires
            self.wf(),
        ensures
            voted == self@.has_voted(voter, submission),
    {
        holds_receipt(&self.receipts, &ReceiptAddress { voter, submission })
    }

    /// The reward profile of `who`, if it has one.
    pub fn profile(&self, who: Identity) -> (found: Option<UserProfile>)
        requires
            self.wf(),
        ensures
            found == (if self@.balances.contains_key(who) {
                Some(UserProfile { authority: who, peg_balance: self@.balances[who] })
            } else {
                None
            }),
    {
        match find_profile(&self.profiles, &who) {
            Some(j) => Some(self.profiles[j]),
            None => None,
        }
    }

    /// The reward balance of `who`: zero where it has no profile.
    pub fn reward_balance(&self, who: Identity) -> (balance: u64)
        requires
            self.wf(),
        ensures
            balance == self@.balance_of(who),
    {
        match find_profile(&self.profiles, &who) {
            Some(j) => self.profiles[j].peg_balance,
            None => 0,
        }
    }

    /// The mint as the ledger last saw it.
    pub fn peg_mint(&self) -> (mint: Mint)
        requires
            self.wf(),
        ensures
            mint == self@.peg_mint,
    {
        self.peg_mint
    }

    /// The derived authority under which rewards are minted.
    pub fn mint_authority(&self) -> (authority: MintAuthority)
        requires
            self.wf(),
        ensures
            authority == self@.mint_authority,
    {
        self.mint_authority
    }
}

} // verus!
