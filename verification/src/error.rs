//! The kinds of failure an operation can report.

use vstd::prelude::*;

verus! {

/// Why an operation was refused. A refused operation changes nothing.
#[derive(Clone, Copy, Debug, PartialEq, Eq, Structural)]
pub enum ErrorCode {
    /// The requester is not the contestant who created the submission.
    NotContestant,
    /// A counter, a balance or a mint amount does not fit in 64 bits.
    Overflow,
    /// A receipt for this voter and submission already exists.
    AlreadyVoted,
    /// The signer is not the current authority of the mint.
    NotAuthority,
    /// The token service did not carry out the mint.
    ExternalMintFailure,
    /// The submission's votes were already reconciled into rewards.
    AlreadyBackfilled,
    /// The title needs more bytes than a submission record reserves.
    TitleTooLong,
    /// The video reference needs more bytes than a submission record reserves.
    VideoRefTooLong,
    /// The performer named in the request is not the submission's contestant.
    PerformerMismatch,
    /// No submission has this identifier.
    UnknownSubmission,
}

impl ErrorCode {
    /// The text shown to a caller for each kind.
    pub open spec fn message_spec(self) -> Seq<char> {
        match self {
            ErrorCode::NotContestant => "Only the original contestant can update this submission."@,
            ErrorCode::Overflow => "Arithmetic overflow occurred."@,
            ErrorCode::AlreadyVoted => "This identity has already voted for this submission."@,
            ErrorCode::NotAuthority => "The signer is not the current mint authority."@,
            ErrorCode::ExternalMintFailure => "The token service rejected the mint."@,
            ErrorCode::AlreadyBackfilled => "This submission has already been backfilled."@,
            ErrorCode::TitleTooLong => "The title is too long."@,
            ErrorCode::VideoRefTooLong => "The video reference is too long."@,
            ErrorCode::PerformerMismatch => "The performer is not the submission's contestant."@,
            ErrorCode::UnknownSubmission => "No such submission."@,
        }
    }

    pub fn message(&self) -> (text: &'static str)
        ensures
            text@ == self.message_spec(),
    {
        match self {
            ErrorCode::NotContestant => "Only the original contestant can update this submission.",
            ErrorCode::Overflow => "Arithmetic overflow occurred.",
            ErrorCode::AlreadyVoted => "This identity has already voted for this submission.",
            ErrorCode::NotAuthority => "The signer is not the current mint authority.",
            ErrorCode::ExternalMintFailure => "The token service rejected the mint.",
            ErrorCode::AlreadyBackfilled => "This submission has already been backfilled.",
            ErrorCode::TitleTooLong => "The title is too long.",
            ErrorCode::VideoRefTooLong => "The video reference is too long.",
            ErrorCode::PerformerMismatch => "The performer is not the submission's contestant.",
            ErrorCode::UnknownSubmission => "No such submission.",
        }
    }
}

} // verus!
