use guitar_contest::accounts::{
    check_strings, measure, SubmissionAccount, UserProfile, MAX_TITLE_LEN, MAX_YOUTUBE_ID_LEN,
    PROFILE_SPACE, RECEIPT_SPACE, SUBMISSION_SPACE,
};
use guitar_contest::model::ReceiptAddress;
use guitar_contest::token::{
    checked_base_units, checked_unit_factor, mint_authority_seed, settle_mint, settle_transfer,
    MintAuthority, MintTo, ServiceReply, SetAuthority, VOTE_REWARD,
};
use guitar_contest::{ErrorCode, Identity};

fn who(tag: u8) -> Identity {
    let mut bytes = [0u8; 32];
    bytes[17] = tag;
    Identity::new(bytes)
}

#[test]
fn identities_compare_by_their_bytes() {
    let mut bytes = [3u8; 32];
    let a = Identity::new(bytes);
    assert_eq!(a.to_bytes(), bytes);
    assert!(a.same(&Identity::new(bytes)));
    assert_eq!(a, Identity::new(bytes));
    bytes[31] = 4;
    assert!(!a.same(&Identity::new(bytes)));
    assert_ne!(a, Identity::new(bytes));
    bytes[31] = 3;
    bytes[0] = 0;
    assert!(!a.same(&Identity::new(bytes)));
}

#[test]
fn the_unset_identity_is_all_zero() {
    assert_eq!(Identity::unset().to_bytes(), [0u8; 32]);
    assert!(Identity::unset().is_unset());
    assert!(Identity::new([0u8; 32]).is_unset());
    assert!(!who(1).is_unset());
    let mut bytes = [0u8; 32];
    bytes[31] = 1;
    assert!(!Identity::new(bytes).is_unset());
}

#[test]
fn receipt_addresses_are_the_pair() {
    let a = ReceiptAddress { voter: who(1), submission: 4 };
    assert!(a.same(&ReceiptAddress { voter: who(1), submission: 4 }));
    assert!(!a.same(&ReceiptAddress { voter: who(2), submission: 4 }));
    assert!(!a.same(&ReceiptAddress { voter: who(1), submission: 5 }));
}

#[test]
fn stored_length_is_the_byte_length() {
    assert_eq!(measure(""), 0);
    assert_eq!(measure("My Solo"), 7);
    assert_eq!(measure("é"), 2);
    assert_eq!(measure("日本語"), 9);
    assert_eq!(measure("🎸"), 4);
}

#[test]
fn strings_are_checked_title_first() {
    assert_eq!(MAX_TITLE_LEN, 50);
    assert_eq!(MAX_YOUTUBE_ID_LEN, 20);
    let fits = |t: usize, y: usize| check_strings(&"t".repeat(t), &"y".repeat(y));
    assert_eq!(fits(0, 0), Ok(()));
    assert_eq!(fits(50, 20), Ok(()));
    assert_eq!(fits(51, 20), Err(ErrorCode::TitleTooLong));
    assert_eq!(fits(50, 21), Err(ErrorCode::VideoRefTooLong));
    assert_eq!(fits(51, 21), Err(ErrorCode::TitleTooLong));
}

#[test]
fn record_sizes() {
    assert_eq!(SUBMISSION_SPACE, 127);
    assert_eq!(PROFILE_SPACE, 48);
    assert_eq!(RECEIPT_SPACE, 8);
    let mut s = SubmissionAccount::vacant();
    assert_eq!(s.encoded_len(), Some(57));
    assert!(s.fits());
    s.title = String::from("My Solo");
    s.youtube_id = String::from("abc123xy");
    assert_eq!(s.encoded_len(), Some(72));
    s.title = "t".repeat(50);
    s.youtube_id = "y".repeat(20);
    assert_eq!(s.encoded_len(), Some(SUBMISSION_SPACE));
    assert!(s.fits());
    s.youtube_id = "y".repeat(21);
    assert!(!s.fits());
    assert_eq!(s.encoded_len(), Some(128));
}

#[test]
fn a_vacant_submission_is_blank() {
    let s = SubmissionAccount::vacant();
    assert!(s.contestant.is_unset());
    assert_eq!(s.title, "");
    assert_eq!(s.youtube_id, "");
    assert_eq!(s.vote_count, 0);
    assert!(!s.backfilled);
    let copy = s.clone();
    assert_eq!(copy, s);
}

#[test]
fn a_profile_is_bound_once() {
    let mut p = UserProfile::vacant();
    assert!(p.authority.is_unset());
    assert_eq!(p.peg_balance, 0);
    p.bind(who(1));
    assert_eq!(p.authority, who(1));
    p.bind(who(2));
    assert_eq!(p.authority, who(1));
}

#[test]
fn credit_near_the_top_overflows_without_partial_credit() {
    let mut p = UserProfile { authority: who(1), peg_balance: u64::MAX - 2 };
    assert_eq!(p.credit(3), Err(ErrorCode::Overflow));
    assert_eq!(p, UserProfile { authority: who(1), peg_balance: u64::MAX - 2 });
    assert_eq!(p.credit(2), Ok(()));
    assert_eq!(p.peg_balance, u64::MAX);
    assert_eq!(p.credit(1), Err(ErrorCode::Overflow));
    assert_eq!(p.peg_balance, u64::MAX);
    assert_eq!(p.credit(0), Ok(()));
    assert_eq!(p.peg_balance, u64::MAX);
}

#[test]
fn unit_factor_is_a_power_of_ten() {
    assert_eq!(checked_unit_factor(0), Some(1));
    assert_eq!(checked_unit_factor(1), Some(10));
    assert_eq!(checked_unit_factor(9), Some(1_000_000_000));
    assert_eq!(checked_unit_factor(19), Some(10_000_000_000_000_000_000));
    assert_eq!(checked_unit_factor(20), None);
    assert_eq!(checked_unit_factor(255), None);
}

#[test]
fn base_units_scale_by_the_decimals() {
    assert_eq!(VOTE_REWARD, 3);
    assert_eq!(checked_base_units(3, 0), Some(3));
    assert_eq!(checked_base_units(3, 6), Some(3_000_000));
    assert_eq!(checked_base_units(9, 9), Some(9_000_000_000));
    assert_eq!(checked_base_units(1, 19), Some(10_000_000_000_000_000_000));
    assert_eq!(checked_base_units(2, 19), None);
    assert_eq!(checked_base_units(18, 18), Some(18_000_000_000_000_000_000));
    assert_eq!(checked_base_units(19, 18), None);
    assert_eq!(checked_base_units(u64::MAX, 0), Some(u64::MAX));
    assert_eq!(checked_base_units(u64::MAX, 1), None);
    assert_eq!(checked_base_units(1, 20), None);
    assert_eq!(checked_base_units(0, 20), Some(0));
    assert_eq!(checked_base_units(0, 255), Some(0));
}

#[test]
fn the_authority_signs_with_seed_and_bump() {
    assert_eq!(mint_authority_seed(), b"mint_authority".to_vec());
    let authority = MintAuthority { address: who(1), bump: 251 };
    assert_eq!(authority.signer_seeds(), vec![b"mint_authority".to_vec(), vec![251u8]]);
}

#[test]
fn the_reply_settles_the_order() {
    let order = MintTo {
        recipient: who(1),
        amount: 300,
        authority: MintAuthority { address: who(2), bump: 1 },
    };
    assert_eq!(settle_mint(order, ServiceReply::Confirmed), Ok(order));
    assert_eq!(settle_mint(order, ServiceReply::Failed), Err(ErrorCode::ExternalMintFailure));
    let order = SetAuthority { current_authority: who(1), new_authority: who(2) };
    assert_eq!(settle_transfer(order, ServiceReply::Confirmed), Ok(order));
    assert_eq!(settle_transfer(order, ServiceReply::Failed), Err(ErrorCode::ExternalMintFailure));
}

#[test]
fn every_error_has_its_own_message() {
    let all = [
        ErrorCode::NotContestant,
        ErrorCode::Overflow,
        ErrorCode::AlreadyVoted,
        ErrorCode::NotAuthority,
        ErrorCode::ExternalMintFailure,
        ErrorCode::AlreadyBackfilled,
        ErrorCode::TitleTooLong,
        ErrorCode::VideoRefTooLong,
        ErrorCode::PerformerMismatch,
        ErrorCode::UnknownSubmission,
    ];
    for (i, a) in all.iter().enumerate() {
        assert!(!a.message().is_empty());
        for b in &all[i + 1..] {
            assert_ne!(a, b);
            assert_ne!(a.message(), b.message());
        }
    }
    assert_eq!(
        ErrorCode::NotContestant.message(),
        "Only the original contestant can update this submission."
    );
    assert_eq!(ErrorCode::Overflow.message(), "Arithmetic overflow occurred.");
}
