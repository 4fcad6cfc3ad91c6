use anchor_lang::prelude::Pubkey;
use guitar_contest::addresses::{
    mint_authority_seeds, profile_address, profile_seed, profile_seeds, receipt_address,
    receipt_seeds,
};
use guitar_contest::{Identity, Ledger, Mint, MintAuthority, ServiceReply};
use std::str::FromStr;

fn program() -> Pubkey {
    Pubkey::from_str("2Hg6qeZGBsMPDDM1RY65Ucwk5JbLrF3D3P9qdYbEfmSU").unwrap()
}

fn plain(key: &Pubkey) -> Identity {
    Identity::new(key.to_bytes())
}

fn someone(tag: u8) -> Pubkey {
    let mut bytes = [tag; 32];
    bytes[0] = 1;
    Pubkey::new_from_array(bytes)
}

#[test]
fn seeds_are_what_they_are_said_to_be() {
    let owner = plain(&someone(3));
    let voter = plain(&someone(4));
    let submission = plain(&someone(5));
    assert_eq!(profile_seed(), b"profile".to_vec());
    assert_eq!(profile_seeds(&owner), vec![b"profile".to_vec(), owner.to_bytes().to_vec()]);
    assert_eq!(
        receipt_seeds(&voter, &submission),
        vec![voter.to_bytes().to_vec(), submission.to_bytes().to_vec()]
    );
    assert_eq!(mint_authority_seeds(), vec![b"mint_authority".to_vec()]);
    assert_eq!(owner.to_vec(), owner.to_bytes().to_vec());
}

#[test]
fn the_mint_authority_is_the_address_the_chain_derives() {
    let (address, bump) = Pubkey::find_program_address(&[b"mint_authority"], &program());
    let authority = MintAuthority::derive(&plain(&program())).unwrap();
    assert_eq!(authority, MintAuthority { address: plain(&address), bump });
    assert_ne!(authority.address, plain(&program()));
}

#[test]
fn the_signer_seeds_recreate_the_mint_authority() {
    let authority = MintAuthority::derive(&plain(&program())).unwrap();
    let seeds = authority.signer_seeds();
    let parts: Vec<&[u8]> = seeds.iter().map(|seed| seed.as_slice()).collect();
    let recreated = Pubkey::create_program_address(&parts, &program()).unwrap();
    assert_eq!(plain(&recreated), authority.address);
}

#[test]
fn a_profile_lives_at_the_address_the_chain_derives() {
    for tag in [0u8, 7, 200] {
        let owner = someone(tag);
        let (address, bump) =
            Pubkey::find_program_address(&[b"profile", owner.as_ref()], &program());
        assert_eq!(
            profile_address(&plain(&owner), &plain(&program())),
            Some((plain(&address), bump))
        );
    }
}

#[test]
fn a_receipt_lives_at_the_address_the_chain_derives() {
    let voter = someone(11);
    let submission = someone(12);
    let (address, bump) =
        Pubkey::find_program_address(&[voter.as_ref(), submission.as_ref()], &program());
    let found = receipt_address(&plain(&voter), &plain(&submission), &plain(&program()));
    assert_eq!(found, Some((plain(&address), bump)));
    // The same pair gives the same address; another pair, another.
    assert_eq!(
        receipt_address(&plain(&voter), &plain(&submission), &plain(&program())),
        found
    );
    assert_ne!(
        receipt_address(&plain(&submission), &plain(&voter), &plain(&program())),
        found
    );
    assert_ne!(
        receipt_address(&plain(&voter), &plain(&someone(13)), &plain(&program())),
        found
    );
    assert_ne!(
        receipt_address(&plain(&voter), &plain(&submission), &plain(&someone(99))),
        found
    );
}

#[test]
fn mint_authority_from_what_was_derived() {
    assert_eq!(MintAuthority::from_derived(None), None);
    let address = plain(&someone(42));
    assert_eq!(
        MintAuthority::from_derived(Some((address, 254))),
        Some(MintAuthority { address, bump: 254 })
    );
}

#[test]
fn a_ledger_of_a_program_mints_under_its_derived_authority() {
    let (address, bump) = Pubkey::find_program_address(&[b"mint_authority"], &program());
    let derived = MintAuthority { address: plain(&address), bump };
    let mint = Mint { mint_authority: Some(plain(&someone(1))), decimals: 4 };
    let mut ledger = Ledger::for_program(mint, &plain(&program())).unwrap();
    assert_eq!(ledger.mint_authority(), derived);
    assert_eq!(ledger.peg_mint(), mint);
    assert_eq!(ledger.submission_count(), 0);
    let s = ledger
        .create_submission(plain(&someone(2)), String::from("Solo"), String::from("v"))
        .unwrap();
    let order = ledger.vote(plain(&someone(3)), s, ServiceReply::Confirmed).unwrap();
    assert_eq!(order.authority, derived);
    assert_eq!(order.amount, 30_000);
    let moved = ledger
        .transfer_mint_authority(plain(&someone(1)), ServiceReply::Confirmed)
        .unwrap();
    assert_eq!(moved.new_authority, plain(&address));
}
