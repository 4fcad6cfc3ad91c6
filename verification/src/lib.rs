//! A contest-voting ledger: contestants submit entries, every identity may
//! vote once for each entry, and each vote credits the performer with
//! reward units that an outside token service mints.
//!
//! * [`identity`]: the 32-byte identities of contestants and voters.
//! * [`accounts`]: the records kept: submissions, reward profiles, vote
//!   receipts.
//! * [`addresses`]: where those records live on chain.
//! * [`token`]: the orders placed with the token service, and the scaling
//!   of reward units to base units of the token.
//! * [`instructions`]: the five operations, each on the records that one
//!   request touches.
//! * [`ledger`]: the store of all records, and the operations as requests
//!   against it.
//! * [`model`]: the ledger as a mathematical state with the operations as
//!   transitions, and what every reachable state satisfies.
//! * [`laws`]: what follows for every sequence of requests.
//! * [`error`]: the kinds of refusal.

pub mod accounts;
pub mod addresses;
pub mod error;
pub mod identity;
pub mod instructions;
pub mod laws;
pub mod ledger;
pub mod model;
pub mod token;

pub use crate::accounts::{SubmissionAccount, UserProfile, VoteReceipt};
pub use crate::error::ErrorCode;
pub use crate::identity::Identity;
pub use crate::instructions::{
    backfill_tokens, create_submission, transfer_mint_authority, update_submission, vote,
    BackfillTokens, CreateSubmission, ManagePegs, TransferMintAuthority, UpdateSubmission, Vote,
};
pub use crate::ledger::Ledger;
pub use crate::token::{Mint, MintAuthority, MintTo, ServiceReply, SetAuthority};
