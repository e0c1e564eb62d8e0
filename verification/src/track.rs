//! Tracks: their registration, their contributor/share table, their stems,
//! and the split of escrowed royalties among their contributors.
use vstd::prelude::*;
use vstd::utf8::encode_utf8;

use crate::address::{contains_key, position_of, Pubkey};
use crate::ata::{associated_token_address, try_associated_token_address};
use crate::error::ErrorCode;
use crate::{MAX_CID_LEN, MAX_CONTRIBUTORS, MAX_TITLE_LEN};

verus! {

/// One hundred percent, in basis points: what a track's shares must add up to.
pub const FULL_SHARE_BPS: u64 = 10000;

/// Most stem mints that `stem_mint` registers on a track.
pub const MAX_STEM_MINTS: usize = 64;

/// A registered track: its metadata, contributors and their royalty shares.
#[derive(Debug)]
pub struct Track {
    pub authority: Pubkey,
    pub track_id: u64,
    pub title: String,
    pub cid: String,
    pub master_hash: [u8; 32],
    pub contributors: Vec<Pubkey>,
    pub shares: Vec<u16>,
    pub stem_mints: Vec<Pubkey>,
    pub royalty_version: u32,
    pub bump: u8,
}

/// Emitted when a track is registered.
#[derive(Debug)]
pub struct TrackInitialized {
    pub track_id: u64,
    pub authority: Pubkey,
    pub contributors: Vec<Pubkey>,
    pub shares: Vec<u16>,
}

/// Emitted when a track's share table is replaced.
#[derive(Debug)]
pub struct SharesUpdated {
    pub track_id: u64,
    pub new_shares: Vec<u16>,
    pub old_version: u32,
    pub new_version: u32,
}

/// Emitted when a contributor's stem NFT is minted.
#[derive(Clone, Copy, Debug)]
pub struct StemNFTMinted {
    pub track_id: u64,
    pub mint: Pubkey,
    pub recipient: Pubkey,
}

/// Emitted when tokens are paid into a track's escrow.
#[derive(Clone, Copy, Debug)]
pub struct EscrowDeposited {
    pub track_id: u64,
    pub depositor: Pubkey,
    pub amount: u64,
    pub mint: Pubkey,
}

/// One transfer out of a track's escrow: `amount` tokens for contributor
/// number `contributor`, into the remaining account number `account`.
#[derive(Clone, Copy, Debug, PartialEq, Eq, Structural)]
pub struct Payout {
    pub contributor: usize,
    pub account: usize,
    pub amount: u64,
}

/// The sum of a share table, in basis points.
pub open spec fn share_total(shares: Seq<u16>) -> int
    decreases shares.len(),
{
    if shares.len() == 0 {
        0
    } else {
        share_total(shares.drop_last()) + shares.last()
    }
}

/// The length of a string's UTF-8 encoding, as `str::len` reports it (a
/// `usize`).
pub open spec fn utf8_len(s: Seq<char>) -> int {
    (encode_utf8(s).len() as usize) as int
}

/// The views of a sequence of optional addresses.
pub open spec fn option_key_views(keys: Seq<Option<Pubkey>>) -> Seq<Option<Seq<u8>>> {
    keys.map_values(
        |k: Option<Pubkey>|
            match k {
                Some(p) => Some(p@),
                None => None,
            },
    )
}

impl Track {
    /// What every track keeps: one to sixteen contributors, one share per
    /// contributor, shares adding up to 100%, and a title and CID within their
    /// limits.
    pub open spec fn well_formed(&self) -> bool {
        &&& 1 <= self.contributors@.len() <= MAX_CONTRIBUTORS
        &&& self.shares@.len() == self.contributors@.len()
        &&& share_total(self.shares@) == FULL_SHARE_BPS
        &&& utf8_len(self.title@) <= MAX_TITLE_LEN
        &&& utf8_len(self.cid@) <= MAX_CID_LEN
    }
}

proof fn lemma_share_total_take(s: Seq<u16>, i: int)
    requires
        0 <= i < s.len(),
    ensures
        share_total(s.take(i + 1)) == share_total(s.take(i)) + s[i],
{
    assert(s.take(i + 1).drop_last() =~= s.take(i));
}

proof fn lemma_share_total_prefix(s: Seq<u16>, i: int, j: int)
    requires
        0 <= i <= j <= s.len(),
    ensures
        0 <= share_total(s.take(i)) <= share_total(s.take(j)),
    decreases j - i,
{
    if i == j {
        lemma_share_total_nonnegative(s.take(i));
    } else {
        lemma_share_total_prefix(s, i, j - 1);
        lemma_share_total_take(s, j - 1);
    }
}

proof fn lemma_share_total_nonnegative(s: Seq<u16>)
    ensures
        share_total(s) >= 0,
    decreases s.len(),
{
    if s.len() > 0 {
        lemma_share_total_nonnegative(s.drop_last());
    }
}

/// Whether a share table adds up to exactly 100%.
pub fn shares_add_up(shares: &Vec<u16>) -> (r: bool)
    ensures
        r == (share_total(shares@) == FULL_SHARE_BPS),
{
    let mut acc: u64 = 0;
    let mut i: usize = 0;
    while i < shares.len()
        invariant
            0 <= i <= shares@.len(),
            acc == share_total(shares@.take(i as int)),
            acc <= FULL_SHARE_BPS,
        decreases shares@.len() - i,
    {
        proof {
            lemma_share_total_take(shares@, i as int);
        }
        acc = acc + shares[i] as u64;
        i = i + 1;
        if acc > FULL_SHARE_BPS {
            proof {
                lemma_share_total_prefix(shares@, i as int, shares@.len() as int);
                assert(shares@.take(shares@.len() as int) =~= shares@);
            }
            return false;
        }
    }
    assert(shares@.take(shares@.len() as int) =~= shares@);
    acc == FULL_SHARE_BPS
}

/// A copy of a list of addresses.
pub fn copy_keys(keys: &Vec<Pubkey>) -> (r: Vec<Pubkey>)
    ensures
        r@ == keys@,
{
    let mut r: Vec<Pubkey> = Vec::new();
    let mut i: usize = 0;
    while i < keys.len()
        invariant
            0 <= i <= keys@.len(),
            r@ == keys@.take(i as int),
        decreases keys@.len() - i,
    {
        r.push(keys[i]);
        i = i + 1;
        assert(r@ =~= keys@.take(i as int));
    }
    assert(keys@.take(keys@.len() as int) =~= keys@);
    r
}

/// A copy of a share table.
pub fn copy_shares(shares: &Vec<u16>) -> (r: Vec<u16>)
    ensures
        r@ == shares@,
{
    let mut r: Vec<u16> = Vec::new();
    let mut i: usize = 0;
    while i < shares.len()
        invariant
            0 <= i <= shares@.len(),
            r@ == shares@.take(i as int),
        decreases shares@.len() - i,
    {
        r.push(shares[i]);
        i = i + 1;
        assert(r@ =~= shares@.take(i as int));
    }
    assert(shares@.take(shares@.len() as int) =~= shares@);
    r
}

/// The first check that `initialize_track` fails, if any.
pub open spec fn initialize_track_error(
    title: Seq<char>,
    cid: Seq<char>,
    contributors: Seq<Pubkey>,
    shares: Seq<u16>,
) -> Option<ErrorCode> {
    if utf8_len(title) > MAX_TITLE_LEN {
        Some(ErrorCode::TitleTooLong)
    } else if utf8_len(cid) > MAX_CID_LEN {
        Some(ErrorCode::CidTooLong)
    } else if contributors.len() != shares.len() {
        Some(ErrorCode::InvalidArgs)
    } else if contributors.len() == 0 {
        Some(ErrorCode::NoContributors)
    } else if contributors.len() > MAX_CONTRIBUTORS {
        Some(ErrorCode::TooManyContributors)
    } else if share_total(shares) != FULL_SHARE_BPS {
        Some(ErrorCode::InvalidShareTotal)
    } else {
        None
    }
}

/// Registers a track: checks the title and CID lengths, that there is one
/// share per contributor, one to sixteen contributors, and shares adding up
/// to 100%, and gives back the new track with its event.
pub fn initialize_track(
    authority: Pubkey,
    track_id: u64,
    title: String,
    cid: String,
    master_hash: [u8; 32],
    contributors: Vec<Pubkey>,
    shares_bps: Vec<u16>,
    bump: u8,
) -> (r: Result<(Track, TrackInitialized), ErrorCode>)
    ensures
        match initialize_track_error(title@, cid@, contributors@, shares_bps@) {
            Some(e) => r == Err::<(Track, TrackInitialized), ErrorCode>(e),
            None => match r {
                Ok((t, ev)) => {
                    &&& t.authority == authority
                    &&& t.track_id == track_id
                    &&& t.title@ == title@
                    &&& t.cid@ == cid@
                    &&& t.master_hash == master_hash
                    &&& t.contributors@ == contributors@
                    &&& t.shares@ == shares_bps@
                    &&& t.stem_mints@.len() == 0
                    &&& t.royalty_version == 0
                    &&& t.bump == bump
                    &&& t.well_formed()
                    &&& ev.track_id == track_id
                    &&& ev.authority == authority
                    &&& ev.contributors@ == contributors@
                    &&& ev.shares@ == shares_bps@
                },
                Err(_) => false,
            },
        },
{
    if title.as_str().len() > MAX_TITLE_LEN {
        return Err(ErrorCode::TitleTooLong);
    }
    if cid.as_str().len() > MAX_CID_LEN {
        return Err(ErrorCode::CidTooLong);
    }
    if contributors.len() != shares_bps.len() {
        return Err(ErrorCode::InvalidArgs);
    }
    if contributors.len() == 0 {
        return Err(ErrorCode::NoContributors);
    }
    if contributors.len() > MAX_CONTRIBUTORS {
        return Err(ErrorCode::TooManyContributors);
    }
    if !shares_add_up(&shares_bps) {
        return Err(ErrorCode::InvalidShareTotal);
    }
    let event = TrackInitialized {
        track_id,
        authority,
        contributors: copy_keys(&contributors),
        shares: copy_shares(&shares_bps),
    };
    let track = Track {
        authority,
        track_id,
        title,
        cid,
        master_hash,
        contributors,
        shares: shares_bps,
        stem_mints: Vec::new(),
        royalty_version: 0,
        bump,
    };
    Ok((track, event))
}

/// Registers an external stem mint on a track, refused with `TooManyStems`
/// where 64 are already registered (the track is then unchanged).
pub fn stem_mint(track: &mut Track, mint: Pubkey) -> (r: Result<(), ErrorCode>)
    ensures
        old(track).stem_mints@.len() >= 64 ==> r == Err::<(), ErrorCode>(
            ErrorCode::TooManyStems,
        ) && final(track).stem_mints@ == old(track).stem_mints@,
        old(track).stem_mints@.len() < 64 ==> r == Ok::<(), ErrorCode>(())
            && final(track).stem_mints@ == old(track).stem_mints@.push(mint),
        final(track).authority == old(track).authority,
        final(track).track_id == old(track).track_id,
        final(track).title@ == old(track).title@,
        final(track).cid@ == old(track).cid@,
        final(track).master_hash == old(track).master_hash,
        final(track).contributors@ == old(track).contributors@,
        final(track).shares@ == old(track).shares@,
        final(track).royalty_version == old(track).royalty_version,
        final(track).bump == old(track).bump,
        old(track).well_formed() ==> final(track).well_formed(),
{
    if track.stem_mints.len() >= MAX_STEM_MINTS {
        return Err(ErrorCode::TooManyStems);
    }
    track.stem_mints.push(mint);
    Ok(())
}

/// The first check that `update_shares` fails, if any.
pub open spec fn update_shares_error(
    track: &Track,
    track_id: u64,
    new_shares: Seq<u16>,
    contributors: Seq<Pubkey>,
) -> Option<ErrorCode> {
    if track.track_id != track_id {
        Some(ErrorCode::InvalidArgs)
    } else if new_shares.len() != contributors.len() {
        Some(ErrorCode::InvalidRecipientCount)
    } else if share_total(new_shares) != FULL_SHARE_BPS {
        Some(ErrorCode::InvalidShareTotal)
    } else if contributors.len() > MAX_CONTRIBUTORS {
        Some(ErrorCode::TooManyContributors)
    } else {
        None
    }
}

/// Replaces a track's contributor/share table and bumps its royalty version
/// by one. Refused with `InvalidArgs` for another track,
/// `InvalidRecipientCount` where there is not one share per contributor,
/// `InvalidShareTotal` where the shares do not add up to 100% (so an empty
/// table is refused), and `TooManyContributors` above sixteen contributors;
/// a refusal leaves the track unchanged.
pub fn update_shares(
    track: &mut Track,
    track_id: u64,
    new_shares_bps: Vec<u16>,
    contributors: Vec<Pubkey>,
) -> (r: Result<SharesUpdated, ErrorCode>)
    requires
        update_shares_error(&*old(track), track_id, new_shares_bps@, contributors@) is None
            ==> old(track).royalty_version < u32::MAX,
    ensures
        final(track).authority == old(track).authority,
        final(track).track_id == old(track).track_id,
        final(track).title@ == old(track).title@,
        final(track).cid@ == old(track).cid@,
        final(track).master_hash == old(track).master_hash,
        final(track).stem_mints@ == old(track).stem_mints@,
        final(track).bump == old(track).bump,
        match update_shares_error(&*old(track), track_id, new_shares_bps@, contributors@) {
            Some(e) => {
                &&& r == Err::<SharesUpdated, ErrorCode>(e)
                &&& final(track).contributors@ == old(track).contributors@
                &&& final(track).shares@ == old(track).shares@
                &&& final(track).royalty_version == old(track).royalty_version
            },
            None => match r {
                Ok(ev) => {
                    &&& final(track).contributors@ == contributors@
                    &&& final(track).shares@ == new_shares_bps@
                    &&& final(track).royalty_version == old(track).royalty_version + 1
                    &&& ev.track_id == old(track).track_id
                    &&& ev.new_shares@ == new_shares_bps@
                    &&& ev.old_version == old(track).royalty_version
                    &&& ev.new_version == old(track).royalty_version + 1
                },
                Err(_) => false,
            },
        },
        old(track).well_formed() ==> final(track).well_formed(),
{
    if track.track_id != track_id {
        return Err(ErrorCode::InvalidArgs);
    }
    if new_shares_bps.len() != contributors.len() {
        return Err(ErrorCode::InvalidRecipientCount);
    }
    if !shares_add_up(&new_shares_bps) {
        return Err(ErrorCode::InvalidShareTotal);
    }
    if contributors.len() > MAX_CONTRIBUTORS {
        return Err(ErrorCode::TooManyContributors);
    }
    let old_version = track.royalty_version;
    let new_shares = copy_shares(&new_shares_bps);
    track.contributors = contributors;
    track.shares = new_shares_bps;
    track.royalty_version = old_version + 1;
    Ok(
        SharesUpdated {
            track_id: track.track_id,
            new_shares,
            old_version,
            new_version: track.royalty_version,
        },
    )
}

/// Checks that the escrow token account about to be created belongs to the
/// given track: `InvalidArgs` where the track id or the authority differ.
pub fn create_escrow_ata(track: &Track, track_id: u64, authority: Pubkey) -> (r: Result<
    (),
    ErrorCode,
>)
    ensures
        r == (if track.track_id != track_id || track.authority@ != authority@ {
            Err::<(), ErrorCode>(ErrorCode::InvalidArgs)
        } else {
            Ok::<(), ErrorCode>(())
        }),
{
    if track.track_id != track_id {
        return Err(ErrorCode::InvalidArgs);
    }
    if !track.authority.same_as(&authority) {
        return Err(ErrorCode::InvalidArgs);
    }
    Ok(())
}

/// The first check that `escrow_deposit` fails, if any.
pub open spec fn escrow_deposit_error(
    track: &Track,
    track_key: Pubkey,
    escrow_owner: Pubkey,
    amount: u64,
    track_id: u64,
    authority: Pubkey,
) -> Option<ErrorCode> {
    if amount == 0 {
        Some(ErrorCode::InvalidAmount)
    } else if track.track_id != track_id {
        Some(ErrorCode::InvalidArgs)
    } else if track.authority@ != authority@ {
        Some(ErrorCode::InvalidArgs)
    } else if escrow_owner@ != track_key@ {
        Some(ErrorCode::InvalidTokenAccountOwner)
    } else {
        None
    }
}

/// Checks a deposit of `amount` tokens into a track's escrow (a positive
/// amount, the right track, and an escrow account owned by the track) and
/// gives back its event.
pub fn escrow_deposit(
    track: &Track,
    track_key: Pubkey,
    escrow_owner: Pubkey,
    escrow_mint: Pubkey,
    depositor: Pubkey,
    amount: u64,
    track_id: u64,
    authority: Pubkey,
) -> (r: Result<EscrowDeposited, ErrorCode>)
    ensures
        r == (match escrow_deposit_error(track, track_key, escrow_owner, amount, track_id, authority) {
            Some(e) => Err::<EscrowDeposited, ErrorCode>(e),
            None => Ok::<EscrowDeposited, ErrorCode>(
                EscrowDeposited { track_id: track.track_id, depositor, amount, mint: escrow_mint },
            ),
        }),
{
    if amount == 0 {
        return Err(ErrorCode::InvalidAmount);
    }
    if track.track_id != track_id {
        return Err(ErrorCode::InvalidArgs);
    }
    if !track.authority.same_as(&authority) {
        return Err(ErrorCode::InvalidArgs);
    }
    if !escrow_owner.same_as(&track_key) {
        return Err(ErrorCode::InvalidTokenAccountOwner);
    }
    Ok(EscrowDeposited { track_id: track.track_id, depositor, amount, mint: escrow_mint })
}

/// A contributor's cut of `amount` at `bps` basis points, rounded down.
pub open spec fn payout_amount(amount: int, bps: int) -> int {
    amount * bps / 10000
}

/// The position of the first address in `accounts` whose view is `key`.
pub open spec fn first_index(accounts: Seq<Pubkey>, key: Seq<u8>) -> int {
    choose|i: int|
        0 <= i < accounts.len() && accounts[i]@ == key && forall|j: int|
            0 <= j < i ==> #[trigger] accounts[j]@ != key
}

/// What paying contributor `i` does to the payouts `paid` so far: `None`
/// where it cannot be done (no share for `i`, or a cut above `u64::MAX`,
/// which a share of at most 100% never gives), nothing where the cut rounds
/// to zero, `None` again where the contributor's token account address
/// `atas[i]` could not be derived, `InvalidArgs` where it is not among
/// `accounts`, and otherwise one more payout into the first account with that
/// address.
pub open spec fn distribution_step(
    shares: Seq<u16>,
    amount: u64,
    atas: Seq<Option<Seq<u8>>>,
    accounts: Seq<Pubkey>,
    i: int,
    paid: Seq<Payout>,
) -> Option<Result<Seq<Payout>, ErrorCode>> {
    if i >= shares.len() {
        None
    } else if payout_amount(amount as int, shares[i] as int) > u64::MAX {
        None
    } else if payout_amount(amount as int, shares[i] as int) == 0 {
        Some(Ok(paid))
    } else if atas[i] is None {
        None
    } else if !contains_key(accounts, atas[i]->Some_0) {
        Some(Err(ErrorCode::InvalidArgs))
    } else {
        Some(
            Ok(
                paid.push(
                    Payout {
                        contributor: i as usize,
                        account: first_index(accounts, atas[i]->Some_0) as usize,
                        amount: payout_amount(amount as int, shares[i] as int) as u64,
                    },
                ),
            ),
        )
    }
}

/// The outcome of paying the first `n` contributors in order, stopping at the
/// first refusal or panic (`None`).
pub open spec fn distribution(
    shares: Seq<u16>,
    amount: u64,
    atas: Seq<Option<Seq<u8>>>,
    accounts: Seq<Pubkey>,
    n: nat,
) -> Option<Result<Seq<Payout>, ErrorCode>>
    decreases n,
{
    if n == 0 {
        Some(Ok(Seq::empty()))
    } else {
        match distribution(shares, amount, atas, accounts, (n - 1) as nat) {
            Some(Ok(paid)) => distribution_step(shares, amount, atas, accounts, n - 1, paid),
            other => other,
        }
    }
}

proof fn lemma_distribution_settled(
    shares: Seq<u16>,
    amount: u64,
    atas: Seq<Option<Seq<u8>>>,
    accounts: Seq<Pubkey>,
    m: nat,
    n: nat,
)
    requires
        m <= n,
        !(distribution(shares, amount, atas, accounts, m) matches Some(Ok(_))),
    ensures
        distribution(shares, amount, atas, accounts, n) == distribution(
            shares,
            amount,
            atas,
            accounts,
            m,
        ),
    decreases n - m,
{
    if m < n {
        lemma_distribution_settled(shares, amount, atas, accounts, m, (n - 1) as nat);
    }
}

proof fn lemma_first_index(accounts: Seq<Pubkey>, key: Seq<u8>, i: int)
    requires
        0 <= i < accounts.len(),
        accounts[i]@ == key,
        forall|j: int| 0 <= j < i ==> #[trigger] accounts[j]@ != key,
    ensures
        first_index(accounts, key) == i,
{
    let k = first_index(accounts, key);
    assert(0 <= k < accounts.len() && accounts[k]@ == key && forall|j: int|
        0 <= j < k ==> #[trigger] accounts[j]@ != key);
    if k < i {
        assert(accounts[k]@ != key);
    }
    if i < k {
        assert(accounts[i]@ != key);
    }
}

/// Plans the transfers out of a track's escrow: for each contributor in
/// order, its cut `amount * share / 10000`, paid into the first of
/// `accounts` whose address is the contributor's token account `atas[i]`.
/// Gives `None` exactly where paying in that order cannot be done.
pub fn plan_payouts(
    shares: &Vec<u16>,
    amount: u64,
    atas: &Vec<Option<Pubkey>>,
    accounts: &Vec<Pubkey>,
) -> (r: Option<Result<Vec<Payout>, ErrorCode>>)
    ensures
        match r {
            None => distribution(
                shares@,
                amount,
                option_key_views(atas@),
                accounts@,
                atas@.len(),
            ) is None,
            Some(Ok(v)) => distribution(shares@, amount, option_key_views(atas@), accounts@, atas@.len())
                == Some(Ok::<Seq<Payout>, ErrorCode>(v@)),
            Some(Err(e)) => distribution(shares@, amount, option_key_views(atas@), accounts@, atas@.len())
                == Some(Err::<Seq<Payout>, ErrorCode>(e)),
        },
{
    let ghost views = option_key_views(atas@);
    let mut paid: Vec<Payout> = Vec::new();
    let mut i: usize = 0;
    while i < atas.len()
        invariant
            0 <= i <= atas@.len(),
            views == option_key_views(atas@),
            distribution(shares@, amount, views, accounts@, i as nat) == Some(
                Ok::<Seq<Payout>, ErrorCode>(paid@),
            ),
        decreases atas@.len() - i,
    {
        if i >= shares.len() {
            proof {
                lemma_distribution_settled(
                    shares@,
                    amount,
                    views,
                    accounts@,
                    (i + 1) as nat,
                    atas@.len(),
                );
            }
            return None;
        }
        let share = shares[i] as u128;
        proof {
            assert(amount * share <= u128::MAX) by (nonlinear_arith)
                requires
                    amount <= u64::MAX,
                    share <= u16::MAX,
            ;
        }
        let cut = (amount as u128) * share / 10000;
        if cut > u64::MAX as u128 {
            proof {
                lemma_distribution_settled(
                    shares@,
                    amount,
                    views,
                    accounts@,
                    (i + 1) as nat,
                    atas@.len(),
                );
            }
            return None;
        }
        let share_amount = cut as u64;
        if share_amount != 0 {
            let ata = match &atas[i] {
                Some(a) => a,
                None => {
                    proof {
                        lemma_distribution_settled(
                            shares@,
                            amount,
                            views,
                            accounts@,
                            (i + 1) as nat,
                            atas@.len(),
                        );
                    }
                    return None;
                },
            };
            let found = position_of(accounts, ata);
            assert(views[i as int] == Some(ata@));
            match found {
                None => {
                    proof {
                        lemma_distribution_settled(
                            shares@,
                            amount,
                            views,
                            accounts@,
                            (i + 1) as nat,
                            atas@.len(),
                        );
                    }
                    return Some(Err(ErrorCode::InvalidArgs));
                },
                Some(j) => {
                    proof {
                        lemma_first_index(accounts@, ata@, j as int);
                    }
                    paid.push(Payout { contributor: i, account: j, amount: share_amount });
                },
            }
        }
        i = i + 1;
    }
    Some(Ok(paid))
}

/// The token accounts of each contributor for `mint`, `None` where the
/// address cannot be derived.
pub fn contributor_token_accounts(contributors: &Vec<Pubkey>, mint: &Pubkey) -> (r: Vec<
    Option<Pubkey>,
>)
    ensures
        r@.len() == contributors@.len(),
        option_key_views(r@) == contributor_atas(contributors@, mint@),
{
    let mut r: Vec<Option<Pubkey>> = Vec::new();
    let mut i: usize = 0;
    while i < contributors.len()
        invariant
            0 <= i <= contributors@.len(),
            r@.len() == i,
            option_key_views(r@) == contributor_atas(contributors@, mint@).take(i as int),
        decreases contributors@.len() - i,
    {
        let a = try_associated_token_address(&contributors[i], mint);
        r.push(a);
        i = i + 1;
        assert(option_key_views(r@) =~= contributor_atas(contributors@, mint@).take(i as int));
    }
    assert(contributor_atas(contributors@, mint@).take(i as int) =~= contributor_atas(
        contributors@,
        mint@,
    ));
    r
}

/// The token accounts of `contributors` for `mint`, as optional address
/// views.
pub open spec fn contributor_atas(contributors: Seq<Pubkey>, mint: Seq<u8>) -> Seq<
    Option<Seq<u8>>,
> {
    Seq::new(contributors.len(), |i: int| associated_token_address(contributors[i]@, mint))
}

/// The first check that `escrow_distribute` fails before paying anyone.
pub open spec fn escrow_distribute_error(
    track: &Track,
    track_key: Pubkey,
    escrow_owner: Pubkey,
    amount: u64,
    track_id: u64,
) -> Option<ErrorCode> {
    if amount == 0 {
        Some(ErrorCode::InvalidAmount)
    } else if track.track_id != track_id {
        Some(ErrorCode::InvalidArgs)
    } else if escrow_owner@ != track_key@ {
        Some(ErrorCode::InvalidTokenAccountOwner)
    } else if share_total(track.shares@) != FULL_SHARE_BPS {
        Some(ErrorCode::InvalidShareTotal)
    } else {
        None
    }
}

/// The whole outcome of `escrow_distribute`, `None` where it would panic.
pub open spec fn escrow_distribute_outcome(
    track: &Track,
    track_key: Pubkey,
    escrow_owner: Pubkey,
    escrow_mint: Pubkey,
    amount: u64,
    track_id: u64,
    accounts: Seq<Pubkey>,
) -> Option<Result<Seq<Payout>, ErrorCode>> {
    match escrow_distribute_error(track, track_key, escrow_owner, amount, track_id) {
        Some(e) => Some(Err(e)),
        None => distribution(
            track.shares@,
            amount,
            contributor_atas(track.contributors@, escrow_mint@),
            accounts,
            track.contributors@.len(),
        ),
    }
}

/// Splits `amount` escrowed tokens among a track's contributors by their
/// shares: checks a positive amount, the right track, an escrow owned by the
/// track and shares adding up to 100%, then plans one payout per
/// contributor whose cut is not zero, into its token account for the
/// escrow's mint, found among `accounts` (`InvalidArgs` where it is missing).
pub fn escrow_distribute(
    track: &Track,
    track_key: Pubkey,
    escrow_owner: Pubkey,
    escrow_mint: Pubkey,
    amount: u64,
    track_id: u64,
    accounts: &Vec<Pubkey>,
) -> (r: Result<Vec<Payout>, ErrorCode>)
    requires
        escrow_distribute_outcome(
            track,
            track_key,
            escrow_owner,
            escrow_mint,
            amount,
            track_id,
            accounts@,
        ) is Some,
    ensures
        match r {
            Ok(v) => escrow_distribute_outcome(
                track,
                track_key,
                escrow_owner,
                escrow_mint,
                amount,
                track_id,
                accounts@,
            ) == Some(Ok::<Seq<Payout>, ErrorCode>(v@)),
            Err(e) => escrow_distribute_outcome(
                track,
                track_key,
                escrow_owner,
                escrow_mint,
                amount,
                track_id,
                accounts@,
            ) == Some(Err::<Seq<Payout>, ErrorCode>(e)),
        },
{
    if amount == 0 {
        return Err(ErrorCode::InvalidAmount);
    }
    if track.track_id != track_id {
        return Err(ErrorCode::InvalidArgs);
    }
    if !escrow_owner.same_as(&track_key) {
        return Err(ErrorCode::InvalidTokenAccountOwner);
    }
    if !shares_add_up(&track.shares) {
        return Err(ErrorCode::InvalidShareTotal);
    }
    let atas = contributor_token_accounts(&track.contributors, &escrow_mint);
    match plan_payouts(&track.shares, amount, &atas, accounts) {
        Some(outcome) => outcome,
        None => {
            proof {
                assert(false);
            }
            Err(ErrorCode::InvalidArgs)
        },
    }
}

/// `escrow_distribute` where its outcome is defined, and `None` where it is
/// not: where, before any missing token account refuses the call, a track has
/// fewer shares than contributors (which no well-formed track has) or a paid
/// contributor's token account address cannot be derived.
pub fn escrow_distribute_checked(
    track: &Track,
    track_key: Pubkey,
    escrow_owner: Pubkey,
    escrow_mint: Pubkey,
    amount: u64,
    track_id: u64,
    accounts: &Vec<Pubkey>,
) -> (r: Option<Result<Vec<Payout>, ErrorCode>>)
    ensures
        match r {
            None => escrow_distribute_outcome(
                track,
                track_key,
                escrow_owner,
                escrow_mint,
                amount,
                track_id,
                accounts@,
            ) is None,
            Some(Ok(v)) => escrow_distribute_outcome(
                track,
                track_key,
                escrow_owner,
                escrow_mint,
                amount,
                track_id,
                accounts@,
            ) == Some(Ok::<Seq<Payout>, ErrorCode>(v@)),
            Some(Err(e)) => escrow_distribute_outcome(
                track,
                track_key,
                escrow_owner,
                escrow_mint,
                amount,
                track_id,
                accounts@,
            ) == Some(Err::<Seq<Payout>, ErrorCode>(e)),
        },
{
    let atas = contributor_token_accounts(&track.contributors, &escrow_mint);
    let passes_checks = amount != 0 && track.track_id == track_id && escrow_owner.same_as(
        &track_key,
    ) && shares_add_up(&track.shares);
    if passes_checks && plan_payouts(&track.shares, amount, &atas, accounts).is_none() {
        return None;
    }
    Some(
        escrow_distribute(track, track_key, escrow_owner, escrow_mint, amount, track_id, accounts),
    )
}

/// The sum of the amounts of a sequence of payouts.
pub open spec fn total_paid(paid: Seq<Payout>) -> int
    decreases paid.len(),
{
    if paid.len() == 0 {
        0
    } else {
        total_paid(paid.drop_last()) + paid.last().amount
    }
}

proof fn lemma_distribution_accounting(
    shares: Seq<u16>,
    amount: u64,
    atas: Seq<Option<Seq<u8>>>,
    accounts: Seq<Pubkey>,
    m: nat,
)
    requires
        distribution(shares, amount, atas, accounts, m) matches Some(Ok(_)),
        shares.len() <= usize::MAX,
    ensures
        m <= shares.len(),
        ({
            let paid = distribution(shares, amount, atas, accounts, m)->Some_0->Ok_0;
            let owed = amount * share_total(shares.take(m as int));
            &&& 0 <= owed - 10000 * total_paid(paid) <= 9999 * m
            &&& forall|i: int|
                0 <= i < paid.len() ==> (#[trigger] paid[i]).amount == payout_amount(
                    amount as int,
                    shares[paid[i].contributor as int] as int,
                ) && paid[i].contributor < m
        }),
    decreases m,
{
    if m > 0 {
        let k = (m - 1) as nat;
        lemma_distribution_accounting(shares, amount, atas, accounts, k);
        let paid = distribution(shares, amount, atas, accounts, k)->Some_0->Ok_0;
        lemma_share_total_take(shares, k as int);
        let a = amount as int;
        let b = shares[k as int] as int;
        let cut = payout_amount(a, b);
        assert(0 <= a * b - 10000 * cut <= 9999) by (nonlinear_arith)
            requires
                cut == a * b / 10000,
                a >= 0,
                b >= 0,
        ;
        assert(a * share_total(shares.take(m as int)) == a * share_total(shares.take(k as int))
            + a * b) by (nonlinear_arith)
            requires
                share_total(shares.take(m as int)) == share_total(shares.take(k as int)) + b,
        ;
        let next = distribution(shares, amount, atas, accounts, m)->Some_0->Ok_0;
        if cut != 0 {
            assert(next.drop_last() =~= paid);
            assert(0 <= cut) by (nonlinear_arith)
                requires
                    cut == a * b / 10000,
                    a >= 0,
                    b >= 0,
            ;
        }
    }
}

/// The escrow never pays out more than `amount`: where a track's shares add
/// up to 100%, the planned payouts add up to at most `amount`, each being
/// its contributor's cut rounded down; and where there is exactly one share
/// per contributor, less than one token per contributor is left over.
pub proof fn law_distribution_within_amount(
    shares: Seq<u16>,
    amount: u64,
    atas: Seq<Option<Seq<u8>>>,
    accounts: Seq<Pubkey>,
    n: nat,
    paid: Seq<Payout>,
)
    requires
        shares.len() <= usize::MAX,
        share_total(shares) == FULL_SHARE_BPS,
        distribution(shares, amount, atas, accounts, n) == Some(
            Ok::<Seq<Payout>, ErrorCode>(paid),
        ),
    ensures
        total_paid(paid) <= amount,
        forall|i: int|
            0 <= i < paid.len() ==> (#[trigger] paid[i]).amount == payout_amount(
                amount as int,
                shares[paid[i].contributor as int] as int,
            ),
        shares.len() == n ==> amount - total_paid(paid) < n,
{
    lemma_distribution_accounting(shares, amount, atas, accounts, n);
    lemma_share_total_prefix(shares, n as int, shares.len() as int);
    assert(shares.take(shares.len() as int) =~= shares);
    let s = share_total(shares.take(n as int));
    let a = amount as int;
    let t = total_paid(paid);
    assert(a * s <= a * 10000) by (nonlinear_arith)
        requires
            0 <= s <= 10000,
            a >= 0,
    ;
    if shares.len() == n {
        assert(shares.take(n as int) =~= shares);
        assert(n >= 1);
        assert(a - t < n) by (nonlinear_arith)
            requires
                0 <= a * 10000 - 10000 * t <= 9999 * n,
                n >= 1,
        ;
    }
}

proof fn lemma_share_at_most_total(s: Seq<u16>, i: int)
    requires
        0 <= i < s.len(),
    ensures
        s[i] <= share_total(s),
{
    lemma_share_total_take(s, i);
    lemma_share_total_prefix(s, 0, i);
    lemma_share_total_prefix(s, i + 1, s.len() as int);
    assert(s.take(s.len() as int) =~= s);
}

/// Where the shares add up to 100%, there is a share for each of the `n`
/// contributors and each of their token account addresses could be derived,
/// the split is always defined, whatever the amount: every cut is at most
/// `amount`, and only a missing token account can refuse it.
pub proof fn law_distribution_defined(
    shares: Seq<u16>,
    amount: u64,
    atas: Seq<Option<Seq<u8>>>,
    accounts: Seq<Pubkey>,
    n: nat,
)
    requires
        share_total(shares) == FULL_SHARE_BPS,
        n <= shares.len(),
        forall|i: int| 0 <= i < n ==> (#[trigger] atas[i]) is Some,
    ensures
        distribution(shares, amount, atas, accounts, n) is Some,
    decreases n,
{
    if n > 0 {
        let k = (n - 1) as nat;
        law_distribution_defined(shares, amount, atas, accounts, k);
        if distribution(shares, amount, atas, accounts, k) matches Some(Ok(_)) {
            lemma_share_at_most_total(shares, k as int);
            let a = amount as int;
            let b = shares[k as int] as int;
            assert(a * b / 10000 <= a) by (nonlinear_arith)
                requires
                    0 <= b <= 10000,
                    a >= 0,
            ;
        }
    }
}

/// A well-formed track's escrow can be split for any amount wherever its
/// contributors' token account addresses can be derived:
/// `escrow_distribute`'s outcome is then always defined.
pub proof fn law_escrow_distribute_defined(
    track: &Track,
    track_key: Pubkey,
    escrow_owner: Pubkey,
    escrow_mint: Pubkey,
    amount: u64,
    track_id: u64,
    accounts: Seq<Pubkey>,
)
    requires
        track.well_formed(),
        forall|i: int|
            0 <= i < track.contributors@.len() ==> (#[trigger] associated_token_address(
                track.contributors@[i]@,
                escrow_mint@,
            )) is Some,
    ensures
        escrow_distribute_outcome(
            track,
            track_key,
            escrow_owner,
            escrow_mint,
            amount,
            track_id,
            accounts,
        ) is Some,
{
    law_distribution_defined(
        track.shares@,
        amount,
        contributor_atas(track.contributors@, escrow_mint@),
        accounts,
        track.contributors@.len(),
    );
}

proof fn lemma_first_index_from(accounts: Seq<Pubkey>, key: Seq<u8>, i: int)
    requires
        0 <= i,
        forall|j: int| 0 <= j < i ==> #[trigger] accounts[j]@ != key,
        exists|k: int| i <= k < accounts.len() && #[trigger] accounts[k]@ == key,
    ensures
        0 <= first_index(accounts, key) < accounts.len(),
        accounts[first_index(accounts, key)]@ == key,
        forall|j: int| 0 <= j < first_index(accounts, key) ==> #[trigger] accounts[j]@ != key,
    decreases accounts.len() - i,
{
    if accounts[i]@ == key {
        lemma_first_index(accounts, key, i);
    } else {
        let k = choose|k: int| i <= k < accounts.len() && #[trigger] accounts[k]@ == key;
        assert(i + 1 <= k);
        lemma_first_index_from(accounts, key, i + 1);
    }
}

/// Where an address occurs among `accounts`, `first_index` is the position
/// of its first occurrence.
proof fn lemma_first_index_exists(accounts: Seq<Pubkey>, key: Seq<u8>)
    requires
        contains_key(accounts, key),
    ensures
        0 <= first_index(accounts, key) < accounts.len(),
        accounts[first_index(accounts, key)]@ == key,
        forall|j: int| 0 <= j < first_index(accounts, key) ==> #[trigger] accounts[j]@ != key,
{
    lemma_first_index_from(accounts, key, 0);
}

/// Every planned transfer out of the escrow goes to its own contributor:
/// contributors are paid in increasing order, each at most once, and the
/// payout for contributor `c` goes into the first of `accounts` whose address
/// is `c`'s token account `atas[c]`, with `c`'s cut of `amount` at its share.
pub proof fn law_payouts_reach_their_contributors(
    shares: Seq<u16>,
    amount: u64,
    atas: Seq<Option<Seq<u8>>>,
    accounts: Seq<Pubkey>,
    n: nat,
    paid: Seq<Payout>,
)
    requires
        shares.len() <= usize::MAX,
        accounts.len() <= usize::MAX,
        distribution(shares, amount, atas, accounts, n) == Some(
            Ok::<Seq<Payout>, ErrorCode>(paid),
        ),
    ensures
        forall|j: int|
            0 <= j < paid.len() ==> {
                let p = #[trigger] paid[j];
                &&& p.contributor < n
                &&& p.contributor < shares.len()
                &&& atas[p.contributor as int] is Some
                &&& p.account < accounts.len()
                &&& accounts[p.account as int]@ == atas[p.contributor as int]->Some_0
                &&& forall|m: int|
                    0 <= m < p.account ==> #[trigger] accounts[m]@
                        != atas[p.contributor as int]->Some_0
                &&& p.amount == amount * shares[p.contributor as int] / 10000
                &&& p.amount > 0
            },
        forall|j1: int, j2: int|
            0 <= j1 < j2 < paid.len() ==> #[trigger] paid[j1].contributor
                < #[trigger] paid[j2].contributor,
    decreases n,
{
    if n > 0 {
        let k = (n - 1) as nat;
        let prev = distribution(shares, amount, atas, accounts, k);
        if let Some(Ok(before)) = prev {
            law_payouts_reach_their_contributors(shares, amount, atas, accounts, k, before);
            let i = k as int;
            let cut = payout_amount(amount as int, shares[i] as int);
            if i < shares.len() && cut <= u64::MAX && cut != 0 && atas[i] is Some && contains_key(
                accounts,
                atas[i]->Some_0,
            ) {
                lemma_first_index_exists(accounts, atas[i]->Some_0);
                assert(paid.drop_last() =~= before);
                assert forall|j: int| 0 <= j < paid.len() implies {
                    let p = #[trigger] paid[j];
                    &&& p.contributor < n
                    &&& p.contributor < shares.len()
                    &&& atas[p.contributor as int] is Some
                    &&& p.account < accounts.len()
                    &&& accounts[p.account as int]@ == atas[p.contributor as int]->Some_0
                    &&& forall|m: int|
                        0 <= m < p.account ==> #[trigger] accounts[m]@
                            != atas[p.contributor as int]->Some_0
                    &&& p.amount == amount * shares[p.contributor as int] / 10000
                    &&& p.amount > 0
                } by {
                    if j < before.len() {
                        assert(paid[j] == before[j]);
                    } else {
                        assert(paid[j].contributor == i);
                        assert(paid[j].account == first_index(accounts, atas[i]->Some_0));
                    }
                }
                assert forall|j1: int, j2: int|
                    0 <= j1 < j2 < paid.len() implies #[trigger] paid[j1].contributor
                    < #[trigger] paid[j2].contributor by {
                    assert(paid[j1] == before[j1]);
                    if j2 < before.len() {
                        assert(paid[j2] == before[j2]);
                    }
                }
            }
        }
    }
}

/// Every contributor owed a nonzero cut is paid: where paying the first `n`
/// contributors succeeds, each of them whose cut `amount * share / 10000` is
/// positive has a payout.
pub proof fn law_every_owed_contributor_is_paid(
    shares: Seq<u16>,
    amount: u64,
    atas: Seq<Option<Seq<u8>>>,
    accounts: Seq<Pubkey>,
    n: nat,
    paid: Seq<Payout>,
)
    requires
        shares.len() <= usize::MAX,
        distribution(shares, amount, atas, accounts, n) == Some(
            Ok::<Seq<Payout>, ErrorCode>(paid),
        ),
    ensures
        forall|i: int|
            0 <= i < n && amount * shares[i] / 10000 > 0 ==> exists|j: int|
                0 <= j < paid.len() && (#[trigger] paid[j]).contributor == i,
    decreases n,
{
    if n > 0 {
        let k = (n - 1) as nat;
        if let Some(Ok(before)) = distribution(shares, amount, atas, accounts, k) {
            law_every_owed_contributor_is_paid(shares, amount, atas, accounts, k, before);
            lemma_distribution_accounting(shares, amount, atas, accounts, n);
            let cut = payout_amount(amount as int, shares[k as int] as int);
            assert forall|i: int|
                0 <= i < n && amount * shares[i] / 10000 > 0 implies exists|j: int|
                0 <= j < paid.len() && (#[trigger] paid[j]).contributor == i by {
                if i < k {
                    let j = choose|j: int|
                        0 <= j < before.len() && (#[trigger] before[j]).contributor == i;
                    if cut != 0 {
                        assert(paid[j] == before[j]);
                    } else {
                        assert(paid == before);
                    }
                } else {
                    assert(cut != 0);
                    let j = paid.len() - 1;
                    assert(paid[j].contributor == k);
                }
            }
        } else {
            lemma_distribution_settled(shares, amount, atas, accounts, k, n);
        }
    }
}

/// Paying the first `n` contributors is refused only with `InvalidArgs`, and
/// only where one of them is owed a nonzero cut and its token account is not
/// among `accounts`.
pub proof fn law_distribution_refused_only_for_missing_account(
    shares: Seq<u16>,
    amount: u64,
    atas: Seq<Option<Seq<u8>>>,
    accounts: Seq<Pubkey>,
    n: nat,
    e: ErrorCode,
)
    requires
        distribution(shares, amount, atas, accounts, n) == Some(Err::<Seq<Payout>, ErrorCode>(e)),
    ensures
        e == ErrorCode::InvalidArgs,
        exists|i: int|
            0 <= i < n && amount * shares[i] / 10000 > 0 && (#[trigger] atas[i]) is Some
                && !contains_key(accounts, atas[i]->Some_0),
    decreases n,
{
    let k = (n - 1) as nat;
    if let Some(Ok(before)) = distribution(shares, amount, atas, accounts, k) {
        assert(atas[k as int] is Some);
    } else {
        law_distribution_refused_only_for_missing_account(shares, amount, atas, accounts, k, e);
        let i = choose|i: int|
            0 <= i < k && amount * shares[i] / 10000 > 0 && (#[trigger] atas[i]) is Some
                && !contains_key(accounts, atas[i]->Some_0);
        assert(atas[i] is Some);
    }
}

/// Where the shares add up to 10000 basis points and every one of the first
/// `n` contributors owed a nonzero cut has a token account among `accounts`,
/// paying them succeeds.
pub proof fn law_distribution_succeeds_with_all_accounts(
    shares: Seq<u16>,
    amount: u64,
    atas: Seq<Option<Seq<u8>>>,
    accounts: Seq<Pubkey>,
    n: nat,
)
    requires
        share_total(shares) == 10000,
        n <= shares.len(),
        forall|i: int|
            0 <= i < n && amount * shares[i] / 10000 > 0 ==> (#[trigger] atas[i]) is Some
                && contains_key(accounts, atas[i]->Some_0),
    ensures
        distribution(shares, amount, atas, accounts, n) matches Some(Ok(_)),
    decreases n,
{
    if n > 0 {
        let k = (n - 1) as nat;
        law_distribution_succeeds_with_all_accounts(shares, amount, atas, accounts, k);
        lemma_share_at_most_total(shares, k as int);
        let a = amount as int;
        let b = shares[k as int] as int;
        assert(a * b / 10000 <= a) by (nonlinear_arith)
            requires
                0 <= b <= 10000,
                a >= 0,
        ;
        if a * b / 10000 > 0 {
            assert(atas[k as int] is Some);
        }
    }
}

/// A share table's total is the sum of its entries: it adds over
/// concatenation, and a single entry totals itself.
pub proof fn law_share_total_is_sum(a: Seq<u16>, b: Seq<u16>, x: u16)
    ensures
        share_total(a + b) == share_total(a) + share_total(b),
        share_total(seq![x]) == x,
        share_total(Seq::<u16>::empty()) == 0,
    decreases b.len(),
{
    assert(seq![x].drop_last() =~= Seq::<u16>::empty());
    assert(share_total(Seq::<u16>::empty()) == 0);
    assert(share_total(seq![x].drop_last()) == 0);
    if b.len() > 0 {
        law_share_total_is_sum(a, b.drop_last(), x);
        assert((a + b).drop_last() =~= a + b.drop_last());
    } else {
        assert(a + b =~= a);
    }
}

/// Splitting a track's escrow is refused with `InvalidAmount` for a zero
/// amount, `InvalidArgs` for another track id and
/// `InvalidTokenAccountOwner` for an escrow the track does not own; past
/// those checks, with shares adding up to 10000 basis points, each payout
/// goes into the first of `accounts` at the associated token account of its
/// contributor for the escrow's mint, with that contributor's cut.
pub proof fn law_escrow_distribute_pays_each_contributor(
    track: &Track,
    track_key: Pubkey,
    escrow_owner: Pubkey,
    escrow_mint: Pubkey,
    amount: u64,
    track_id: u64,
    accounts: Seq<Pubkey>,
)
    requires
        track.shares@.len() <= usize::MAX,
        accounts.len() <= usize::MAX,
    ensures
        ({
            let outcome = escrow_distribute_outcome(
                track,
                track_key,
                escrow_owner,
                escrow_mint,
                amount,
                track_id,
                accounts,
            );
            let checked = amount > 0 && track.track_id == track_id && escrow_owner@
                == track_key@;
            &&& amount == 0 ==> outcome == Some(
                Err::<Seq<Payout>, ErrorCode>(ErrorCode::InvalidAmount),
            )
            &&& amount > 0 && track.track_id != track_id ==> outcome == Some(
                Err::<Seq<Payout>, ErrorCode>(ErrorCode::InvalidArgs),
            )
            &&& amount > 0 && track.track_id == track_id && escrow_owner@ != track_key@
                ==> outcome == Some(
                Err::<Seq<Payout>, ErrorCode>(ErrorCode::InvalidTokenAccountOwner),
            )
            &&& checked && share_total(track.shares@) != 10000 ==> outcome == Some(
                Err::<Seq<Payout>, ErrorCode>(ErrorCode::InvalidShareTotal),
            )
            &&& checked && share_total(track.shares@) == 10000 && track.shares@.len()
                == track.contributors@.len() && (forall|i: int|
                0 <= i < track.contributors@.len() && amount * track.shares@[i] / 10000 > 0 ==> {
                    let ata = #[trigger] associated_token_address(
                        track.contributors@[i]@,
                        escrow_mint@,
                    );
                    ata is Some && contains_key(accounts, ata->Some_0)
                }) ==> outcome is Some && outcome->Some_0 is Ok
            &&& checked && outcome is Some && outcome->Some_0 is Err ==> share_total(track.shares@)
                != 10000 || exists|i: int|
                0 <= i < track.contributors@.len() && amount * track.shares@[i] / 10000 > 0 && {
                    let ata = #[trigger] associated_token_address(
                        track.contributors@[i]@,
                        escrow_mint@,
                    );
                    ata is Some && !contains_key(accounts, ata->Some_0)
                }
            &&& checked && share_total(track.shares@) == 10000 ==> (outcome matches Some(
                Ok(paid),
            ) ==> forall|j: int|
                0 <= j < paid.len() ==> {
                    let p = #[trigger] paid[j];
                    let ata = associated_token_address(
                        track.contributors@[p.contributor as int]@,
                        escrow_mint@,
                    );
                    &&& p.contributor < track.contributors@.len()
                    &&& ata is Some
                    &&& p.account < accounts.len()
                    &&& accounts[p.account as int]@ == ata->Some_0
                    &&& forall|m: int| 0 <= m < p.account ==> #[trigger] accounts[m]@ != ata->Some_0
                    &&& p.amount == amount * track.shares@[p.contributor as int] / 10000
                })
        }),
{
    let outcome = escrow_distribute_outcome(
        track,
        track_key,
        escrow_owner,
        escrow_mint,
        amount,
        track_id,
        accounts,
    );
    let atas = contributor_atas(track.contributors@, escrow_mint@);
    let n = track.contributors@.len();
    if amount > 0 && track.track_id == track_id && escrow_owner@ == track_key@ && share_total(
        track.shares@,
    ) == 10000 {
        if track.shares@.len() == n && (forall|i: int|
            0 <= i < n && amount * track.shares@[i] / 10000 > 0 ==> {
                let ata = #[trigger] associated_token_address(
                    track.contributors@[i]@,
                    escrow_mint@,
                );
                ata is Some && contains_key(accounts, ata->Some_0)
            }) {
            assert forall|i: int|
                0 <= i < n && amount * track.shares@[i] / 10000 > 0 implies (
                #[trigger] atas[i]) is Some && contains_key(accounts, atas[i]->Some_0) by {
                assert(atas[i] == associated_token_address(track.contributors@[i]@, escrow_mint@));
            }
            law_distribution_succeeds_with_all_accounts(track.shares@, amount, atas, accounts, n);
        }
        if let Some(Err(e)) = outcome {
            law_distribution_refused_only_for_missing_account(
                track.shares@,
                amount,
                atas,
                accounts,
                n,
                e,
            );
            let i = choose|i: int|
                0 <= i < n && amount * track.shares@[i] / 10000 > 0 && (#[trigger] atas[i]) is Some
                    && !contains_key(accounts, atas[i]->Some_0);
            assert(atas[i] == associated_token_address(track.contributors@[i]@, escrow_mint@));
        }
        if let Some(Ok(paid)) = outcome {
            law_payouts_reach_their_contributors(
                track.shares@,
                amount,
                atas,
                accounts,
                track.contributors@.len(),
                paid,
            );
            assert forall|j: int| 0 <= j < paid.len() implies {
                let p = #[trigger] paid[j];
                let ata = associated_token_address(
                    track.contributors@[p.contributor as int]@,
                    escrow_mint@,
                );
                &&& p.contributor < track.contributors@.len()
                &&& ata is Some
                &&& p.account < accounts.len()
                &&& accounts[p.account as int]@ == ata->Some_0
                &&& forall|m: int| 0 <= m < p.account ==> #[trigger] accounts[m]@ != ata->Some_0
                &&& p.amount == amount * track.shares@[p.contributor as int] / 10000
            } by {
                let p = paid[j];
                assert(atas[p.contributor as int] == associated_token_address(
                    track.contributors@[p.contributor as int]@,
                    escrow_mint@,
                ));
            }
        }
    }
}

/// A track is registered exactly when its title is at most 64 bytes, its CID
/// at most 128 bytes, and it has one share per contributor, one to sixteen
/// contributors, and shares adding up to 10000 basis points; a CID is
/// refused as too long exactly when it is over 128 bytes (and the title
/// fits).
pub proof fn law_initialize_track_accepts_exactly_valid(
    title: Seq<char>,
    cid: Seq<char>,
    contributors: Seq<Pubkey>,
    shares: Seq<u16>,
)
    ensures
        initialize_track_error(title, cid, contributors, shares) is None <==> {
            &&& utf8_len(title) <= 64
            &&& utf8_len(cid) <= 128
            &&& contributors.len() == shares.len()
            &&& 1 <= contributors.len() <= 16
            &&& share_total(shares) == 10000
        },
        initialize_track_error(title, cid, contributors, shares) == Some(ErrorCode::TitleTooLong)
            <==> utf8_len(title) > 64,
        initialize_track_error(title, cid, contributors, shares) == Some(ErrorCode::CidTooLong)
            <==> utf8_len(title) <= 64 && utf8_len(cid) > 128,
        initialize_track_error(title, cid, contributors, shares) == Some(ErrorCode::InvalidArgs)
            <==> utf8_len(title) <= 64 && utf8_len(cid) <= 128 && contributors.len()
            != shares.len(),
        initialize_track_error(title, cid, contributors, shares) == Some(
            ErrorCode::NoContributors,
        ) <==> utf8_len(title) <= 64 && utf8_len(cid) <= 128 && contributors.len() == shares.len()
            && contributors.len() == 0,
        initialize_track_error(title, cid, contributors, shares) == Some(
            ErrorCode::TooManyContributors,
        ) <==> utf8_len(title) <= 64 && utf8_len(cid) <= 128 && contributors.len() == shares.len()
            && contributors.len() > 16,
{
}

/// A share table replaces a track's exactly when the track id matches, there
/// is one share per contributor, the shares add up to 10000 basis points and
/// there are at most sixteen contributors, whatever the track's current
/// table; it is refused with `TooManyContributors` only above sixteen. Two
/// tracks with the same id answer the same request alike.
pub proof fn law_update_shares_accepts_exactly_valid(
    track: &Track,
    other: &Track,
    track_id: u64,
    new_shares: Seq<u16>,
    contributors: Seq<Pubkey>,
)
    ensures
        update_shares_error(track, track_id, new_shares, contributors) is None <==> {
            &&& track.track_id == track_id
            &&& new_shares.len() == contributors.len()
            &&& share_total(new_shares) == 10000
            &&& contributors.len() <= 16
        },
        update_shares_error(track, track_id, new_shares, contributors) == Some(
            ErrorCode::TooManyContributors,
        ) ==> contributors.len() > 16,
        update_shares_error(track, track_id, new_shares, contributors) == Some(
            ErrorCode::InvalidArgs,
        ) <==> track.track_id != track_id,
        update_shares_error(track, track_id, new_shares, contributors) == Some(
            ErrorCode::InvalidRecipientCount,
        ) <==> track.track_id == track_id && new_shares.len() != contributors.len(),
        update_shares_error(track, track_id, new_shares, contributors) == Some(
            ErrorCode::InvalidShareTotal,
        ) <==> track.track_id == track_id && new_shares.len() == contributors.len()
            && share_total(new_shares) != 10000,
        other.track_id == track.track_id ==> update_shares_error(
            other,
            track_id,
            new_shares,
            contributors,
        ) == update_shares_error(track, track_id, new_shares, contributors),
{
}

/// A deposit into a track's escrow is refused with `InvalidAmount` exactly
/// when the amount is zero; for the right track id and authority and an
/// escrow owned by the track, every positive amount is accepted. Whether a
/// deposit is accepted does not depend on which positive amount it is.
pub proof fn law_escrow_deposit_accepts_any_positive_amount(
    track: &Track,
    track_key: Pubkey,
    escrow_owner: Pubkey,
    amount: u64,
    other_amount: u64,
    track_id: u64,
    authority: Pubkey,
)
    ensures
        escrow_deposit_error(track, track_key, escrow_owner, amount, track_id, authority) == Some(
            ErrorCode::InvalidAmount,
        ) <==> amount == 0,
        escrow_deposit_error(track, track_key, escrow_owner, amount, track_id, authority) == Some(
            ErrorCode::InvalidArgs,
        ) <==> amount > 0 && (track.track_id != track_id || track.authority@ != authority@),
        escrow_deposit_error(track, track_key, escrow_owner, amount, track_id, authority) == Some(
            ErrorCode::InvalidTokenAccountOwner,
        ) <==> amount > 0 && track.track_id == track_id && track.authority@ == authority@
            && escrow_owner@ != track_key@,
        amount > 0 && track.track_id == track_id && track.authority@ == authority@
            && escrow_owner@ == track_key@ ==> escrow_deposit_error(
            track,
            track_key,
            escrow_owner,
            amount,
            track_id,
            authority,
        ) is None,
        amount > 0 && other_amount > 0 ==> escrow_deposit_error(
            track,
            track_key,
            escrow_owner,
            amount,
            track_id,
            authority,
        ) == escrow_deposit_error(track, track_key, escrow_owner, other_amount, track_id, authority),
{
}

/// Mints a contributor's stem NFT: the recipient must be a contributor and
/// `nft_index` its position in the contributor list (`NotAContributor`,
/// `InvalidArgs`); the mint is then recorded on the track.
pub fn mint_stem_nft(
    track: &mut Track,
    track_id: u64,
    nft_index: u64,
    recipient: Pubkey,
    mint: Pubkey,
    recipient_owner: Pubkey,
) -> (r: Result<StemNFTMinted, ErrorCode>)
    ensures
        old(track).track_id != track_id ==> r == Err::<StemNFTMinted, ErrorCode>(
            ErrorCode::InvalidArgs,
        ),
        old(track).track_id == track_id && !contains_key(old(track).contributors@, recipient@)
            ==> r == Err::<StemNFTMinted, ErrorCode>(ErrorCode::NotAContributor),
        old(track).track_id == track_id && contains_key(old(track).contributors@, recipient@)
            ==> {
            let index = first_index(old(track).contributors@, recipient@);
            &&& nft_index != index ==> r == Err::<StemNFTMinted, ErrorCode>(
                ErrorCode::InvalidArgs,
            )
            &&& nft_index == index ==> r == Ok::<StemNFTMinted, ErrorCode>(
                StemNFTMinted { track_id: old(track).track_id, mint, recipient: recipient_owner },
            )
        },
        r is Ok ==> final(track).stem_mints@ == old(track).stem_mints@.push(mint),
        r is Err ==> final(track).stem_mints@ == old(track).stem_mints@,
        final(track).authority == old(track).authority,
        final(track).track_id == old(track).track_id,
        final(track).title@ == old(track).title@,
        final(track).cid@ == old(track).cid@,
        final(track).master_hash == old(track).master_hash,
        final(track).contributors@ == old(track).contributors@,
        final(track).shares@ == old(track).shares@,
        final(track).royalty_version == old(track).royalty_version,
        final(track).bump == old(track).bump,
        old(track).well_formed() ==> final(track).well_formed(),
{
    if track.track_id != track_id {
        return Err(ErrorCode::InvalidArgs);
    }
    let actual_index = match position_of(&track.contributors, &recipient) {
        Some(i) => i,
        None => {
            return Err(ErrorCode::NotAContributor);
        },
    };
    proof {
        lemma_first_index(track.contributors@, recipient@, actual_index as int);
    }
    if nft_index != actual_index as u64 {
        return Err(ErrorCode::InvalidArgs);
    }
    track.stem_mints.push(mint);
    Ok(StemNFTMinted { track_id: track.track_id, mint, recipient: recipient_owner })
}

} // verus!
