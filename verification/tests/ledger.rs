use guitar_contest::{
    ErrorCode, Identity, Ledger, Mint, MintAuthority, MintTo, ServiceReply, SetAuthority,
    UserProfile,
};

fn id(tag: u8) -> Identity {
    let mut bytes = [0u8; 32];
    bytes[0] = tag;
    bytes[31] = 0xA5;
    Identity::new(bytes)
}

fn authority() -> MintAuthority {
    MintAuthority { address: id(200), bump: 254 }
}

fn ledger(decimals: u8) -> Ledger {
    Ledger::new(Mint { mint_authority: Some(id(100)), decimals }, authority())
}

fn text(s: &str) -> String {
    String::from(s)
}

#[test]
fn three_voters_for_my_solo() {
    let mut l = ledger(6);
    let performer = id(1);
    let s = l.create_submission(performer, text("My Solo"), text("abc123xy")).unwrap();
    let mut minted: u64 = 0;
    for voter in [id(2), id(3), id(4)] {
        let order = l.vote(voter, s, ServiceReply::Confirmed).unwrap();
        assert_eq!(order.recipient, performer);
        assert_eq!(order.authority, authority());
        minted += order.amount;
    }
    let stored = l.submission(s).unwrap();
    assert_eq!(stored.title, "My Solo");
    assert_eq!(stored.youtube_id, "abc123xy");
    assert_eq!(stored.contestant, performer);
    assert_eq!(stored.vote_count, 3);
    assert_eq!(l.reward_balance(performer), 9);
    assert_eq!(minted, 9 * 1_000_000);
}

#[test]
fn retry_of_a_vote_is_already_voted() {
    let mut l = ledger(0);
    let s = l.create_submission(id(1), text("Riff"), text("vid")).unwrap();
    let v = id(2);
    assert!(l.vote(v, s, ServiceReply::Confirmed).is_ok());
    assert_eq!(l.vote(v, s, ServiceReply::Confirmed), Err(ErrorCode::AlreadyVoted));
    assert_eq!(l.submission(s).unwrap().vote_count, 1);
    assert_eq!(l.reward_balance(id(1)), 3);
}

#[test]
fn retry_leaves_count_and_balance_as_they_were() {
    let mut l = ledger(2);
    let s = l.create_submission(id(1), text("Riff"), text("vid")).unwrap();
    l.vote(id(2), s, ServiceReply::Confirmed).unwrap();
    l.vote(id(3), s, ServiceReply::Confirmed).unwrap();
    for reply in [ServiceReply::Confirmed, ServiceReply::Failed] {
        assert_eq!(l.vote(id(2), s, reply), Err(ErrorCode::AlreadyVoted));
        assert_eq!(l.plan_vote(id(2), s), Err(ErrorCode::AlreadyVoted));
        assert_eq!(l.submission(s).unwrap().vote_count, 2);
        assert_eq!(l.reward_balance(id(1)), 6);
        assert_eq!(l.reward_balance(id(2)), 0);
    }
}

#[test]
fn vote_count_is_the_number_of_distinct_voters() {
    let mut l = ledger(0);
    let a = l.create_submission(id(1), text("A"), text("a")).unwrap();
    let b = l.create_submission(id(1), text("B"), text("b")).unwrap();
    let c = l.create_submission(id(9), text("C"), text("c")).unwrap();
    assert_eq!((a, b, c), (0, 1, 2));
    let attempts = [(2u8, a), (3, a), (2, a), (2, b), (4, c), (3, a), (5, a), (4, c)];
    let mut went_through = 0;
    for (tag, s) in attempts {
        if l.vote(id(tag), s, ServiceReply::Confirmed).is_ok() {
            went_through += 1;
        }
    }
    assert_eq!(went_through, 5);
    assert_eq!(l.submission(a).unwrap().vote_count, 3);
    assert_eq!(l.submission(b).unwrap().vote_count, 1);
    assert_eq!(l.submission(c).unwrap().vote_count, 1);
    assert!(l.has_voted(id(2), a) && l.has_voted(id(3), a) && l.has_voted(id(5), a));
    assert!(l.has_voted(id(2), b) && !l.has_voted(id(3), b));
    assert!(!l.has_voted(id(4), a));
    assert_eq!(l.reward_balance(id(1)), 12);
    assert_eq!(l.reward_balance(id(9)), 3);
    assert_eq!(l.submission_count(), 3);
}

#[test]
fn balance_is_three_per_vote_and_mint_is_scaled() {
    let mut l = ledger(9);
    let s = l.create_submission(id(1), text("Scale"), text("s")).unwrap();
    let mut minted: u64 = 0;
    for n in 1..=7u8 {
        let order = l.vote(id(10 + n), s, ServiceReply::Confirmed).unwrap();
        assert_eq!(order.amount, 3_000_000_000);
        minted += order.amount;
        assert_eq!(l.reward_balance(id(1)), 3 * n as u64);
        assert_eq!(minted, l.reward_balance(id(1)) * 1_000_000_000);
    }
}

#[test]
fn voting_binds_both_profiles() {
    let mut l = ledger(0);
    let s = l.create_submission(id(1), text("T"), text("y")).unwrap();
    assert_eq!(l.profile(id(1)), None);
    assert_eq!(l.profile(id(2)), None);
    l.vote(id(2), s, ServiceReply::Confirmed).unwrap();
    assert_eq!(l.profile(id(2)), Some(UserProfile { authority: id(2), peg_balance: 0 }));
    assert_eq!(l.profile(id(1)), Some(UserProfile { authority: id(1), peg_balance: 3 }));
    assert_eq!(l.profile(id(3)), None);
}

#[test]
fn a_contestant_may_vote_for_its_own_submission() {
    let mut l = ledger(0);
    let s = l.create_submission(id(1), text("T"), text("y")).unwrap();
    l.vote(id(1), s, ServiceReply::Confirmed).unwrap();
    assert_eq!(l.profile(id(1)), Some(UserProfile { authority: id(1), peg_balance: 3 }));
    assert_eq!(l.submission(s).unwrap().vote_count, 1);
    assert_eq!(l.vote(id(1), s, ServiceReply::Confirmed), Err(ErrorCode::AlreadyVoted));
}

#[test]
fn the_unset_identity_votes_like_any_other() {
    let mut l = ledger(0);
    let s = l.create_submission(Identity::unset(), text("T"), text("y")).unwrap();
    l.vote(Identity::unset(), s, ServiceReply::Confirmed).unwrap();
    l.vote(id(2), s, ServiceReply::Confirmed).unwrap();
    assert_eq!(l.reward_balance(Identity::unset()), 6);
    assert_eq!(
        l.profile(Identity::unset()),
        Some(UserProfile { authority: Identity::unset(), peg_balance: 6 })
    );
}

#[test]
fn a_failed_mint_records_nothing() {
    let mut l = ledger(3);
    let s = l.create_submission(id(1), text("T"), text("y")).unwrap();
    assert_eq!(l.vote(id(2), s, ServiceReply::Failed), Err(ErrorCode::ExternalMintFailure));
    assert_eq!(l.submission(s).unwrap().vote_count, 0);
    assert!(!l.has_voted(id(2), s));
    assert_eq!(l.profile(id(1)), None);
    assert_eq!(l.profile(id(2)), None);
    let order = l.vote(id(2), s, ServiceReply::Confirmed).unwrap();
    assert_eq!(order, MintTo { recipient: id(1), amount: 3000, authority: authority() });
    assert_eq!(l.submission(s).unwrap().vote_count, 1);
}

#[test]
fn planning_a_vote_changes_nothing() {
    let mut l = ledger(1);
    let s = l.create_submission(id(1), text("T"), text("y")).unwrap();
    let planned = l.plan_vote(id(2), s).unwrap();
    assert_eq!(planned, MintTo { recipient: id(1), amount: 30, authority: authority() });
    assert!(!l.has_voted(id(2), s));
    assert_eq!(l.submission(s).unwrap().vote_count, 0);
    assert_eq!(l.vote(id(2), s, ServiceReply::Confirmed), Ok(planned));
}

#[test]
fn vote_for_an_unknown_submission() {
    let mut l = ledger(0);
    assert_eq!(l.vote(id(2), 0, ServiceReply::Confirmed), Err(ErrorCode::UnknownSubmission));
    l.create_submission(id(1), text("T"), text("y")).unwrap();
    assert_eq!(l.vote(id(2), 1, ServiceReply::Confirmed), Err(ErrorCode::UnknownSubmission));
    assert_eq!(l.plan_backfill(7, id(3)), Err(ErrorCode::UnknownSubmission));
    assert_eq!(
        l.update_submission(id(1), 1, text("a"), text("b")),
        Err(ErrorCode::UnknownSubmission)
    );
    assert!(l.submission(1).is_none());
}

#[test]
fn vote_overflows_when_the_mint_amount_does_not_fit() {
    let mut l = ledger(19);
    let s = l.create_submission(id(1), text("T"), text("y")).unwrap();
    assert_eq!(l.vote(id(2), s, ServiceReply::Confirmed), Err(ErrorCode::Overflow));
    assert_eq!(l.submission(s).unwrap().vote_count, 0);
    assert!(!l.has_voted(id(2), s));
    assert_eq!(l.reward_balance(id(1)), 0);
}

#[test]
fn update_by_another_identity_is_not_contestant() {
    let mut l = ledger(0);
    let s = l.create_submission(id(1), text("My Solo"), text("abc123xy")).unwrap();
    l.vote(id(2), s, ServiceReply::Confirmed).unwrap();
    let before = l.submission(s).unwrap().clone();
    assert_eq!(
        l.update_submission(id(2), s, text("Mine now"), text("zzz")),
        Err(ErrorCode::NotContestant)
    );
    assert_eq!(l.submission(s).unwrap(), &before);
    let long = "x".repeat(51);
    assert_eq!(
        l.update_submission(id(2), s, long, text("zzz")),
        Err(ErrorCode::NotContestant)
    );
    assert_eq!(l.submission(s).unwrap(), &before);
}

#[test]
fn update_by_the_contestant_overwrites_the_strings_only() {
    let mut l = ledger(0);
    let s = l.create_submission(id(1), text("My Solo"), text("abc123xy")).unwrap();
    l.vote(id(2), s, ServiceReply::Confirmed).unwrap();
    assert_eq!(l.update_submission(id(1), s, text("My Solo (live)"), text("live77")), Ok(()));
    let stored = l.submission(s).unwrap();
    assert_eq!(stored.title, "My Solo (live)");
    assert_eq!(stored.youtube_id, "live77");
    assert_eq!(stored.contestant, id(1));
    assert_eq!(stored.vote_count, 1);
    assert!(!stored.backfilled);
    assert_eq!(
        l.update_submission(id(1), s, "x".repeat(51), text("ok")),
        Err(ErrorCode::TitleTooLong)
    );
    assert_eq!(
        l.update_submission(id(1), s, text("ok"), "y".repeat(21)),
        Err(ErrorCode::VideoRefTooLong)
    );
    assert_eq!(l.submission(s).unwrap().title, "My Solo (live)");
}

#[test]
fn create_refuses_strings_that_do_not_fit() {
    let mut l = ledger(0);
    assert_eq!(
        l.create_submission(id(1), "t".repeat(51), text("y")),
        Err(ErrorCode::TitleTooLong)
    );
    assert_eq!(
        l.create_submission(id(1), text("t"), "y".repeat(21)),
        Err(ErrorCode::VideoRefTooLong)
    );
    assert_eq!(
        l.create_submission(id(1), "t".repeat(51), "y".repeat(21)),
        Err(ErrorCode::TitleTooLong)
    );
    assert_eq!(l.submission_count(), 0);
    assert_eq!(l.create_submission(id(1), "t".repeat(50), "y".repeat(20)), Ok(0));
    assert_eq!(l.create_submission(id(1), String::new(), String::new()), Ok(1));
    assert_eq!(l.submission(0).unwrap().vote_count, 0);
}

#[test]
fn length_is_counted_in_stored_bytes() {
    let mut l = ledger(0);
    // 26 letters of two bytes each: 26 characters, 52 bytes.
    assert_eq!(
        l.create_submission(id(1), "é".repeat(26), text("y")),
        Err(ErrorCode::TitleTooLong)
    );
    assert_eq!(l.create_submission(id(1), "é".repeat(25), "é".repeat(10)), Ok(0));
    assert_eq!(
        l.create_submission(id(1), text("t"), "é".repeat(11)),
        Err(ErrorCode::VideoRefTooLong)
    );
}

#[test]
fn backfill_twice_with_five_votes() {
    let mut l = ledger(2);
    let s = l.create_submission(id(1), text("T"), text("y")).unwrap();
    for n in 0..5u8 {
        l.vote(id(10 + n), s, ServiceReply::Confirmed).unwrap();
    }
    assert_eq!(l.submission(s).unwrap().vote_count, 5);
    assert_eq!(l.reward_balance(id(1)), 15);
    let order = l.backfill_tokens(s, id(50), ServiceReply::Confirmed).unwrap();
    assert_eq!(order, MintTo { recipient: id(1), amount: 1500, authority: authority() });
    assert_eq!(l.reward_balance(id(1)), 30);
    assert!(l.submission(s).unwrap().backfilled);
    assert_eq!(
        l.backfill_tokens(s, id(50), ServiceReply::Confirmed),
        Err(ErrorCode::AlreadyBackfilled)
    );
    assert_eq!(l.plan_backfill(s, id(51)), Err(ErrorCode::AlreadyBackfilled));
    assert_eq!(l.reward_balance(id(1)), 30);
    assert_eq!(l.submission(s).unwrap().vote_count, 5);
    l.vote(id(20), s, ServiceReply::Confirmed).unwrap();
    assert_eq!(l.reward_balance(id(1)), 33);
    assert_eq!(
        l.backfill_tokens(s, id(50), ServiceReply::Failed),
        Err(ErrorCode::AlreadyBackfilled)
    );
}

#[test]
fn a_failed_backfill_can_be_asked_again() {
    let mut l = ledger(0);
    let s = l.create_submission(id(1), text("T"), text("y")).unwrap();
    l.vote(id(2), s, ServiceReply::Confirmed).unwrap();
    assert_eq!(l.plan_backfill(s, id(9)).unwrap().amount, 3);
    assert_eq!(
        l.backfill_tokens(s, id(9), ServiceReply::Failed),
        Err(ErrorCode::ExternalMintFailure)
    );
    assert!(!l.submission(s).unwrap().backfilled);
    assert_eq!(l.reward_balance(id(1)), 3);
    assert!(l.backfill_tokens(s, id(9), ServiceReply::Confirmed).is_ok());
    assert_eq!(l.reward_balance(id(1)), 6);
}

#[test]
fn backfill_without_votes_credits_nothing_and_binds_the_profile() {
    let mut l = ledger(30);
    let s = l.create_submission(id(1), text("T"), text("y")).unwrap();
    let order = l.backfill_tokens(s, id(9), ServiceReply::Confirmed).unwrap();
    assert_eq!(order.amount, 0);
    assert_eq!(l.profile(id(1)), Some(UserProfile { authority: id(1), peg_balance: 0 }));
    assert!(l.submission(s).unwrap().backfilled);
}

#[test]
fn transfer_of_the_right_to_mint_is_one_way() {
    let mut l = ledger(0);
    assert_eq!(l.peg_mint().mint_authority, Some(id(100)));
    assert_eq!(
        l.transfer_mint_authority(id(7), ServiceReply::Confirmed),
        Err(ErrorCode::NotAuthority)
    );
    assert_eq!(
        l.transfer_mint_authority(id(100), ServiceReply::Failed),
        Err(ErrorCode::ExternalMintFailure)
    );
    assert_eq!(l.peg_mint().mint_authority, Some(id(100)));
    assert_eq!(
        l.transfer_mint_authority(id(100), ServiceReply::Confirmed),
        Ok(SetAuthority { current_authority: id(100), new_authority: id(200) })
    );
    assert_eq!(l.peg_mint().mint_authority, Some(id(200)));
    assert_eq!(l.peg_mint().decimals, 0);
    assert_eq!(l.mint_authority(), authority());
    assert_eq!(
        l.transfer_mint_authority(id(100), ServiceReply::Confirmed),
        Err(ErrorCode::NotAuthority)
    );
}

#[test]
fn a_mint_without_authority_cannot_be_transferred() {
    let mut l = Ledger::new(Mint { mint_authority: None, decimals: 0 }, authority());
    assert_eq!(
        l.transfer_mint_authority(id(100), ServiceReply::Confirmed),
        Err(ErrorCode::NotAuthority)
    );
    assert_eq!(l.peg_mint().mint_authority, None);
}
