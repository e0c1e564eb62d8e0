use anchor_lang::prelude::Pubkey as SolanaPubkey;
use anchor_spl::associated_token::get_associated_token_address;
use muzica::seeds::{curve_signer_seeds, curve_vault_signer_seeds, track_signer_seeds};
use muzica::track::{
    create_escrow_ata, escrow_deposit, escrow_distribute, escrow_distribute_checked,
    initialize_track, mint_stem_nft, plan_payouts, stem_mint, update_shares, Track,
};
use muzica::{ErrorCode, Pubkey};

fn key(n: u8) -> Pubkey {
    Pubkey::new_from_array([n; 32])
}

fn ata(wallet: &Pubkey, mint: &Pubkey) -> Pubkey {
    let a = get_associated_token_address(
        &SolanaPubkey::new_from_array(wallet.to_bytes()),
        &SolanaPubkey::new_from_array(mint.to_bytes()),
    );
    Pubkey::new_from_array(a.to_bytes())
}

fn track(contributors: Vec<Pubkey>, shares: Vec<u16>) -> Track {
    initialize_track(
        key(1),
        7,
        String::from("Song"),
        String::from("bafy"),
        [3u8; 32],
        contributors,
        shares,
        254,
    )
    .unwrap()
    .0
}

fn two_contributor_track() -> Track {
    track(vec![key(10), key(11)], vec![6000, 4000])
}

#[test]
fn registration_records_everything() {
    let (t, ev) = initialize_track(
        key(1),
        7,
        String::from("Song"),
        String::from("bafy"),
        [3u8; 32],
        vec![key(10), key(11)],
        vec![6000, 4000],
        254,
    )
    .unwrap();
    assert!(t.authority.same_as(&key(1)));
    assert_eq!(t.track_id, 7);
    assert_eq!(t.title, "Song");
    assert_eq!(t.cid, "bafy");
    assert_eq!(t.master_hash, [3u8; 32]);
    assert_eq!(t.contributors.len(), 2);
    assert_eq!(t.shares, vec![6000, 4000]);
    assert!(t.stem_mints.is_empty());
    assert_eq!(t.royalty_version, 0);
    assert_eq!(t.bump, 254);
    assert_eq!(ev.track_id, 7);
    assert_eq!(ev.shares, vec![6000, 4000]);
    assert!(ev.contributors[1].same_as(&key(11)));
}

fn init_err(title: &str, cid: &str, contributors: Vec<Pubkey>, shares: Vec<u16>) -> Option<ErrorCode> {
    initialize_track(
        key(1),
        7,
        String::from(title),
        String::from(cid),
        [0u8; 32],
        contributors,
        shares,
        1,
    )
    .err()
}

#[test]
fn registration_refusals_in_order() {
    let long_title = "a".repeat(65);
    assert_eq!(init_err(&long_title, "c", vec![], vec![1]), Some(ErrorCode::TitleTooLong));
    let long_cid = "c".repeat(129);
    assert_eq!(init_err("t", &long_cid, vec![], vec![1]), Some(ErrorCode::CidTooLong));
    assert_eq!(init_err("t", "c", vec![key(1)], vec![]), Some(ErrorCode::InvalidArgs));
    assert_eq!(init_err("t", "c", vec![], vec![]), Some(ErrorCode::NoContributors));
    let many: Vec<Pubkey> = (0..17u8).map(key).collect();
    assert_eq!(init_err("t", "c", many, vec![0; 17]), Some(ErrorCode::TooManyContributors));
    assert_eq!(init_err("t", "c", vec![key(1)], vec![9999]), Some(ErrorCode::InvalidShareTotal));
    assert_eq!(
        init_err("t", "c", vec![key(1), key(2)], vec![10000, 1]),
        Some(ErrorCode::InvalidShareTotal)
    );
}

#[test]
fn title_limit_counts_utf8_bytes() {
    let title = "é".repeat(33);
    assert_eq!(title.chars().count(), 33);
    assert_eq!(init_err(&title, "c", vec![key(1)], vec![10000]), Some(ErrorCode::TitleTooLong));
    let title = "é".repeat(32);
    assert_eq!(init_err(&title, "c", vec![key(1)], vec![10000]), None);
    let title = "a".repeat(64);
    assert_eq!(init_err(&title, "c", vec![key(1)], vec![10000]), None);
}

#[test]
fn sixteen_contributors_accepted() {
    let many: Vec<Pubkey> = (0..16u8).map(key).collect();
    let mut shares = vec![625u16; 16];
    shares[0] = 625;
    assert_eq!(init_err("t", "c", many, shares), None);
}

#[test]
fn stems_capped_at_sixty_four() {
    let mut t = two_contributor_track();
    for i in 0..64u8 {
        assert_eq!(stem_mint(&mut t, key(i)), Ok(()));
    }
    assert_eq!(stem_mint(&mut t, key(200)), Err(ErrorCode::TooManyStems));
    assert_eq!(t.stem_mints.len(), 64);
    assert!(t.stem_mints[63].same_as(&key(63)));
}

#[test]
fn share_update_bumps_version_once() {
    let mut t = two_contributor_track();
    let ev = update_shares(&mut t, 7, vec![5000, 5000], vec![key(10), key(11)]).unwrap();
    assert_eq!(t.shares, vec![5000, 5000]);
    assert_eq!(t.royalty_version, 1);
    assert_eq!(ev.old_version, 0);
    assert_eq!(ev.new_version, 1);
    assert_eq!(ev.new_shares, vec![5000, 5000]);
    update_shares(&mut t, 7, vec![10000], vec![key(12)]).unwrap();
    assert_eq!(t.royalty_version, 2);
    assert_eq!(t.contributors.len(), 1);
    assert!(t.contributors[0].same_as(&key(12)));
    assert_eq!(t.shares, vec![10000]);
}

#[test]
fn share_update_refusals() {
    let mut t = two_contributor_track();
    assert_eq!(
        update_shares(&mut t, 8, vec![5000, 5000], vec![key(10), key(11)]).err(),
        Some(ErrorCode::InvalidArgs)
    );
    assert_eq!(
        update_shares(&mut t, 7, vec![5000, 5000], vec![key(10)]).err(),
        Some(ErrorCode::InvalidRecipientCount)
    );
    assert_eq!(
        update_shares(&mut t, 7, vec![5000, 4999], vec![key(10), key(11)]).err(),
        Some(ErrorCode::InvalidShareTotal)
    );
    assert_eq!(
        update_shares(&mut t, 7, vec![], vec![]).err(),
        Some(ErrorCode::InvalidShareTotal)
    );
    let many: Vec<Pubkey> = (0..17u8).map(key).collect();
    assert_eq!(
        update_shares(&mut t, 7, vec![0; 17], many.clone()).err(),
        Some(ErrorCode::InvalidShareTotal)
    );
    let mut seventeen = vec![625u16; 16];
    seventeen.push(0);
    assert_eq!(
        update_shares(&mut t, 7, seventeen, many).err(),
        Some(ErrorCode::TooManyContributors)
    );
    assert_eq!(t.shares, vec![6000, 4000]);
    assert_eq!(t.contributors.len(), 2);
    assert_eq!(t.royalty_version, 0);
}

#[test]
fn escrow_checks() {
    let t = two_contributor_track();
    assert_eq!(create_escrow_ata(&t, 7, key(1)), Ok(()));
    assert_eq!(create_escrow_ata(&t, 8, key(1)), Err(ErrorCode::InvalidArgs));
    assert_eq!(create_escrow_ata(&t, 7, key(2)), Err(ErrorCode::InvalidArgs));
    let ev = escrow_deposit(&t, key(50), key(50), key(60), key(70), 500, 7, key(1)).unwrap();
    assert_eq!(ev.amount, 500);
    assert_eq!(ev.track_id, 7);
    assert!(ev.mint.same_as(&key(60)));
    assert!(ev.depositor.same_as(&key(70)));
    assert_eq!(
        escrow_deposit(&t, key(50), key(50), key(60), key(70), 0, 7, key(1)).err(),
        Some(ErrorCode::InvalidAmount)
    );
    assert_eq!(
        escrow_deposit(&t, key(50), key(50), key(60), key(70), 5, 8, key(1)).err(),
        Some(ErrorCode::InvalidArgs)
    );
    assert_eq!(
        escrow_deposit(&t, key(50), key(50), key(60), key(70), 5, 7, key(2)).err(),
        Some(ErrorCode::InvalidArgs)
    );
    assert_eq!(
        escrow_deposit(&t, key(50), key(51), key(60), key(70), 5, 7, key(1)).err(),
        Some(ErrorCode::InvalidTokenAccountOwner)
    );
}

#[test]
fn distribution_pays_pro_rata_into_token_accounts() {
    let t = two_contributor_track();
    let mint = key(60);
    let accounts = vec![key(99), ata(&key(11), &mint), ata(&key(10), &mint)];
    let payouts = escrow_distribute(&t, key(50), key(50), mint, 1001, 7, &accounts).unwrap();
    assert_eq!(payouts.len(), 2);
    assert_eq!((payouts[0].contributor, payouts[0].account, payouts[0].amount), (0, 2, 600));
    assert_eq!((payouts[1].contributor, payouts[1].account, payouts[1].amount), (1, 1, 400));
    let total: u64 = payouts.iter().map(|p| p.amount).sum();
    assert!(total <= 1001);
    assert!(1001 - total < 2);
}

#[test]
fn distribution_needs_token_accounts_not_wallets() {
    let t = two_contributor_track();
    let mint = key(60);
    let wallets = vec![key(10), key(11)];
    assert_eq!(
        escrow_distribute(&t, key(50), key(50), mint, 1001, 7, &wallets).err(),
        Some(ErrorCode::InvalidArgs)
    );
}

#[test]
fn distribution_skips_zero_cuts() {
    let t = two_contributor_track();
    let payouts = escrow_distribute(&t, key(50), key(50), key(60), 1, 7, &vec![]).unwrap();
    assert!(payouts.is_empty());
}

#[test]
fn distribution_refusals() {
    let t = two_contributor_track();
    let accounts = vec![];
    assert_eq!(
        escrow_distribute(&t, key(50), key(50), key(60), 0, 7, &accounts).err(),
        Some(ErrorCode::InvalidAmount)
    );
    assert_eq!(
        escrow_distribute(&t, key(50), key(50), key(60), 10, 8, &accounts).err(),
        Some(ErrorCode::InvalidArgs)
    );
    assert_eq!(
        escrow_distribute(&t, key(50), key(51), key(60), 10, 7, &accounts).err(),
        Some(ErrorCode::InvalidTokenAccountOwner)
    );
    assert_eq!(
        escrow_distribute(&t, key(50), key(50), key(60), 10_000, 7, &accounts).err(),
        Some(ErrorCode::InvalidArgs)
    );
}

#[test]
fn distribution_with_fewer_shares_than_contributors() {
    // no operation builds such a track; it can only be written by hand
    let mut t = two_contributor_track();
    t.shares = vec![10000];
    let mint = key(60);
    // contributor 0 is paid, then contributor 1 has no share
    let accounts = vec![ata(&key(10), &mint)];
    assert!(escrow_distribute_checked(&t, key(50), key(50), mint, 100, 7, &accounts).is_none());
    // a missing account for contributor 0 refuses the call before that
    assert_eq!(
        escrow_distribute_checked(&t, key(50), key(50), mint, 100, 7, &vec![]),
        Some(Err(ErrorCode::InvalidArgs))
    );
    // and the earlier checks come first
    assert_eq!(
        escrow_distribute_checked(&t, key(50), key(50), mint, 0, 7, &accounts),
        Some(Err(ErrorCode::InvalidAmount))
    );
}

#[test]
fn distribution_of_large_amounts() {
    let t = track(vec![key(10)], vec![10000]);
    let mint = key(60);
    let accounts = vec![ata(&key(10), &mint)];
    let p = escrow_distribute(&t, key(50), key(50), mint, 1 << 62, 7, &accounts).unwrap();
    assert_eq!(p[0].amount, 1 << 62);
    let t = two_contributor_track();
    let accounts = vec![ata(&key(10), &mint), ata(&key(11), &mint)];
    let p = escrow_distribute(&t, key(50), key(50), mint, u64::MAX, 7, &accounts).unwrap();
    assert_eq!(p[0].amount, ((u64::MAX as u128) * 6000 / 10000) as u64);
    assert_eq!(p[1].amount, ((u64::MAX as u128) * 4000 / 10000) as u64);
    assert!(u64::MAX - (p[0].amount + p[1].amount) < 2);
}

#[test]
fn checked_distribution_agrees_where_nothing_panics() {
    let t = two_contributor_track();
    let mint = key(60);
    let accounts = vec![ata(&key(10), &mint), ata(&key(11), &mint)];
    let p = escrow_distribute_checked(&t, key(50), key(50), mint, 1001, 7, &accounts)
        .unwrap()
        .unwrap();
    assert_eq!(p.len(), 2);
    assert_eq!((p[0].account, p[0].amount, p[1].account, p[1].amount), (0, 600, 1, 400));
}

#[test]
fn planned_payout_above_u64_is_reported() {
    let atas = vec![Some(key(1))];
    let accounts = vec![key(1)];
    let p = plan_payouts(&vec![10000], u64::MAX, &atas, &accounts).unwrap().unwrap();
    assert_eq!(p[0].amount, u64::MAX);
    // a share above 100% gives a cut that does not fit in u64
    assert!(plan_payouts(&vec![u16::MAX], u64::MAX, &atas, &accounts).is_none());
}

#[test]
fn planned_payout_without_a_derived_account_is_reported() {
    let accounts = vec![key(1)];
    // a contributor with a cut but no derivable token account
    assert!(plan_payouts(&vec![10000], 5, &vec![None], &accounts).is_none());
    // a contributor whose cut is zero is skipped either way
    let p = plan_payouts(&vec![0], 5, &vec![None], &accounts).unwrap().unwrap();
    assert!(p.is_empty());
}

#[test]
fn stem_nft_for_contributor_at_its_index() {
    let mut t = two_contributor_track();
    let ev = mint_stem_nft(&mut t, 7, 1, key(11), key(70), key(11)).unwrap();
    assert_eq!(ev.track_id, 7);
    assert!(ev.mint.same_as(&key(70)));
    assert_eq!(t.stem_mints.len(), 1);
    assert_eq!(
        mint_stem_nft(&mut t, 7, 0, key(11), key(71), key(11)).err(),
        Some(ErrorCode::InvalidArgs)
    );
    assert_eq!(
        mint_stem_nft(&mut t, 7, 0, key(12), key(71), key(12)).err(),
        Some(ErrorCode::NotAContributor)
    );
    assert_eq!(
        mint_stem_nft(&mut t, 8, 0, key(10), key(71), key(10)).err(),
        Some(ErrorCode::InvalidArgs)
    );
    assert_eq!(t.stem_mints.len(), 1);
}

#[test]
fn signer_seeds() {
    let s = track_signer_seeds(&key(1), 0x0102030405060708, 254);
    assert_eq!(s[0], b"track".to_vec());
    assert_eq!(s[1], vec![1u8; 32]);
    assert_eq!(s[2], vec![8, 7, 6, 5, 4, 3, 2, 1]);
    assert_eq!(s[3], vec![254]);
    let c = curve_signer_seeds(&key(2), 9);
    assert_eq!(c, vec![b"curve".to_vec(), vec![2u8; 32], vec![9]]);
    let v = curve_vault_signer_seeds(&key(2), 9);
    assert_eq!(v, vec![b"curve_vault".to_vec(), vec![2u8; 32], vec![9]]);
}

#[test]
fn address_helpers() {
    assert!(key(3).same_as(&key(3)));
    assert!(!key(3).same_as(&key(4)));
    let mut b = [0u8; 32];
    b[31] = 1;
    assert!(!Pubkey::new_from_array(b).same_as(&Pubkey::zero()));
    assert_eq!(ErrorCode::SlippageExceeded.message(), "Slippage tolerance exceeded");
}
