//! The records the ledger keeps: submissions, vote receipts and reward
//! profiles.

use vstd::prelude::*;
use vstd::utf8::encode_utf8;
use crate::error::ErrorCode;
use crate::identity::Identity;

verus! {

/// Bytes reserved for a submission's title.
pub const MAX_TITLE_LEN: usize = 50;

/// Bytes reserved for a submission's video reference.
pub const MAX_YOUTUBE_ID_LEN: usize = 20;

/// Bytes of the tag that opens every stored record.
pub const DISCRIMINATOR_LEN: usize = 8;

/// Bytes a stored submission occupies: tag, contestant, the two
/// length-prefixed strings at full capacity, vote count, backfill marker.
pub const SUBMISSION_SPACE: usize = DISCRIMINATOR_LEN + 32 + (4 + MAX_TITLE_LEN) + (4
    + MAX_YOUTUBE_ID_LEN) + 8 + 1;

/// Bytes a stored reward profile occupies: tag, authority, balance.
pub const PROFILE_SPACE: usize = DISCRIMINATOR_LEN + 32 + 8;

/// Bytes a stored vote receipt occupies: the tag alone.
pub const RECEIPT_SPACE: usize = DISCRIMINATOR_LEN;

/// Number of bytes that `text` takes when stored (its UTF-8 encoding).
pub open spec fn stored_len(text: Seq<char>) -> nat {
    encode_utf8(text).len()
}

/// Measures `text` as it is stored: in bytes, not in characters.
pub fn measure(text: &str) -> (len: usize)
    ensures
        len == stored_len(text@),
{
    text.as_bytes().len()
}

/// A contest entry.
#[derive(Debug, PartialEq, Eq)]
pub struct SubmissionAccount {
    pub contestant: Identity,
    pub title: String,
    pub youtube_id: String,
    pub vote_count: u64,
    pub backfilled: bool,
}

/// What a submission holds, as plain values.
pub struct SubmissionView {
    pub contestant: Identity,
    pub title: Seq<char>,
    pub youtube_id: Seq<char>,
    pub vote_count: u64,
    pub backfilled: bool,
}

impl View for SubmissionAccount {
    type V = SubmissionView;

    open spec fn view(&self) -> SubmissionView {
        SubmissionView {
            contestant: self.contestant,
            title: self.title@,
            youtube_id: self.youtube_id@,
            vote_count: self.vote_count,
            backfilled: self.backfilled,
        }
    }
}

impl SubmissionView {
    /// Both strings fit the space a stored submission reserves for them.
    pub open spec fn fits(self) -> bool {
        &&& stored_len(self.title) <= MAX_TITLE_LEN
        &&& stored_len(self.youtube_id) <= MAX_YOUTUBE_ID_LEN
    }

    /// Bytes this submission fills of its stored record.
    pub open spec fn encoded_len(self) -> nat {
        8 + 32 + (4 + stored_len(self.title)) + (4 + stored_len(self.youtube_id)) + 8 + 1
    }
}

impl Clone for SubmissionAccount {
    fn clone(&self) -> (copy: SubmissionAccount)
        ensures
            copy == *self,
    {
        SubmissionAccount {
            contestant: self.contestant,
            title: self.title.clone(),
            youtube_id: self.youtube_id.clone(),
            vote_count: self.vote_count,
            backfilled: self.backfilled,
        }
    }
}

impl SubmissionAccount {
    /// A freshly allocated record: no contestant, empty strings, no votes.
    pub fn vacant() -> (record: SubmissionAccount)
        ensures
            record.contestant.is_unset_spec(),
            record.title@ == Seq::<char>::empty(),
            record.youtube_id@ == Seq::<char>::empty(),
            record.vote_count == 0,
            !record.backfilled,
    {
        SubmissionAccount {
            contestant: Identity::unset(),
            title: String::new(),
            youtube_id: String::new(),
            vote_count: 0,
            backfilled: false,
        }
    }

    /// Whether both strings fit their reserved space.
    pub fn fits(&self) -> (ok: bool)
        ensures
            ok == self@.fits(),
    {
        measure(self.title.as_str()) <= MAX_TITLE_LEN && measure(self.youtube_id.as_str())
            <= MAX_YOUTUBE_ID_LEN
    }

    /// Bytes this submission fills of its stored record; never more than
    /// `SUBMISSION_SPACE` for one that fits.
    pub fn encoded_len(&self) -> (len: Option<usize>)
        ensures
            len == (if self@.encoded_len() <= usize::MAX {
                Some(self@.encoded_len() as usize)
            } else {
                None
            }),
            self@.fits() ==> len.is_some() && len.unwrap() <= SUBMISSION_SPACE,
    {
        let fixed: usize = 8 + 32 + 4 + 4 + 8 + 1;
        match measure(self.title.as_str()).checked_add(measure(self.youtube_id.as_str())) {
            Some(strings) => strings.checked_add(fixed),
            None => None,
        }
    }
}

/// Whether a title and a video reference fit the space reserved for them,
/// and if not, which of them is too long: the title is looked at first.
pub open spec fn check_strings_spec(title: Seq<char>, youtube_id: Seq<char>) -> Result<
    (),
    ErrorCode,
> {
    if stored_len(title) > MAX_TITLE_LEN {
        Err(ErrorCode::TitleTooLong)
    } else if stored_len(youtube_id) > MAX_YOUTUBE_ID_LEN {
        Err(ErrorCode::VideoRefTooLong)
    } else {
        Ok(())
    }
}

/// Checks a title and a video reference against the space reserved for
/// them, the title first.
pub fn check_strings(title: &String, youtube_id: &String) -> (res: Result<(), ErrorCode>)
    ensures
        res == check_strings_spec(title@, youtube_id@),
{
    if measure(title.as_str()) > MAX_TITLE_LEN {
        Err(ErrorCode::TitleTooLong)
    } else if measure(youtube_id.as_str()) > MAX_YOUTUBE_ID_LEN {
        Err(ErrorCode::VideoRefTooLong)
    } else {
        Ok(())
    }
}

/// The marker that a voter has voted for a submission. It holds nothing:
/// that it exists, under the address derived from the pair, is the fact.
#[derive(Clone, Copy, Debug, PartialEq, Eq, Structural)]
pub struct VoteReceipt {

}

/// Reward bookkeeping of one identity.
#[derive(Clone, Copy, Debug, PartialEq, Eq)]
pub struct UserProfile {
    pub authority: Identity,
    pub peg_balance: u64,
}

impl UserProfile {
    /// This profile once `owner` has touched it: bound to `owner` if it was
    /// bound to nobody, else as it was.
    pub open spec fn bound_to(self, owner: Identity) -> UserProfile {
        if self.authority.is_unset_spec() {
            UserProfile { authority: owner, peg_balance: self.peg_balance }
        } else {
            self
        }
    }

    /// This profile with `amount` more reward units.
    pub open spec fn credited(self, amount: u64) -> UserProfile
        recommends
            self.peg_balance + amount <= u64::MAX,
    {
        UserProfile { authority: self.authority, peg_balance: (self.peg_balance + amount) as u64 }
    }

    /// A freshly allocated profile: bound to nobody, nothing credited.
    pub fn vacant() -> (profile: UserProfile)
        ensures
            profile.authority.is_unset_spec(),
            profile.peg_balance == 0,
    {
        UserProfile { authority: Identity::unset(), peg_balance: 0 }
    }

    /// Binds the profile to `owner` unless it is bound already.
    pub fn bind(&mut self, owner: Identity)
        ensures
            *final(self) == old(self).bound_to(owner),
    {
        if self.authority.is_unset() {
            self.authority = owner;
        }
    }

    /// Adds `amount` to the balance, or reports `Overflow` and changes
    /// nothing when the sum does not fit in 64 bits.
    pub fn credit(&mut self, amount: u64) -> (res: Result<(), ErrorCode>)
        ensures
            old(self).peg_balance + amount <= u64::MAX ==> res == Ok::<(), ErrorCode>(())
                && *final(self) == old(self).credited(amount),
            old(self).peg_balance + amount > u64::MAX ==> res == Err::<(), ErrorCode>(
                ErrorCode::Overflow,
            ) && *final(self) == *old(self),
    {
        match self.peg_balance.checked_add(amount) {
            Some(sum) => {
                self.peg_balance = sum;
                Ok(())
            },
            None => Err(ErrorCode::Overflow),
        }
    }
}

} // verus!
