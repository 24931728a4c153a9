use heist::error::ErrorCode;
use heist::ledger::ProgramState;
use heist::processor::{
    init_or_update_collection_processor, stake_player_stake_info_processor,
    unstake_player_stake_info_processor, update_collection_authority_processor,
};
use heist::random::generate_random_number;
use heist::reward::{find_outcome, payout, verify_nft, CollectionRef, NftMetadata};
use heist::state::{Bank, BankOutcome, BankTierRisk, Global, Identity, NegativeOutcome, PlayerInfo, PlayerStakeInfo};

const AUTHORITY: u8 = 1;
const COLLECTION: u8 = 2;
const ITEM: u8 = 3;
const REWARD_MINT: u8 = 4;
const PLAYER: u8 = 7;
const FUND_NOW: u64 = 1_699_990_000;
const END_DATE: u64 = 1_800_000_000;
const RATE: u64 = 100;

fn key(b: u8) -> Identity {
    Identity::new([b; 32])
}

fn member(collection: u8, mint: u8) -> NftMetadata {
    NftMetadata {
        collection: Some(CollectionRef { verified: true, key: key(collection) }),
        mint: key(mint),
    }
}

fn funded() -> ProgramState {
    let mut s = ProgramState::new();
    let r = init_or_update_collection_processor(
        &mut s,
        &member(COLLECTION, ITEM),
        &key(AUTHORITY),
        &key(COLLECTION),
        &key(ITEM),
        &key(REWARD_MINT),
        END_DATE,
        RATE,
        FUND_NOW,
    );
    assert!(r.is_ok());
    s
}

fn snapshot(s: &ProgramState) -> (u64, u64, u64, Vec<PlayerInfo>, Vec<(u64, BankTierRisk)>) {
    (
        s.global.total_player,
        s.global.end_date,
        s.global.banks.iter().map(|b| b.total_staked).sum(),
        s.players.iter().map(|p| p.info).collect(),
        s.stakes.iter().map(|r| (r.stake_start_time, r.bank)).collect(),
    )
}

#[test]
fn outcome_tables_hold_the_fixed_entries() {
    let low = BankOutcome::generate_bank(BankTierRisk::Low);
    let odds: Vec<u32> = low.iter().map(|o| o.odds).collect();
    assert_eq!(odds, vec![54_000, 13_000, 2_000, 1_000, 29_947, 45, 8, 0]);
    let mults: Vec<u8> = low.iter().map(|o| o.payout_multiplier).collect();
    assert_eq!(mults, vec![1, 2, 5, 10, 0, 0, 0, 0]);
    assert_eq!(low[4].negative_outcome, NegativeOutcome::Fumbled);
    assert!(low[7].is_negative);
    assert_eq!(low[7].negative_outcome, NegativeOutcome::Rekt);
    let high = BankOutcome::generate_bank(BankTierRisk::High);
    assert_eq!(high[0].odds, 36_000);
    assert_eq!(high[7].odds, 1);
}

#[test]
fn outcome_odds_sums() {
    let sum = |t: BankTierRisk| -> u64 {
        BankOutcome::generate_bank(t).iter().map(|o| o.odds as u64).sum()
    };
    assert_eq!(sum(BankTierRisk::Low), 100_000);
    assert_eq!(sum(BankTierRisk::Mid), 100_000);
    assert_eq!(sum(BankTierRisk::High), 100_000);
}

#[test]
fn generated_banks_cover_each_tier() {
    let banks: Vec<Bank> = Bank::generate_banks(250);
    assert_eq!(banks.len(), 3);
    assert_eq!(banks[0].bank_tier, BankTierRisk::Low);
    assert_eq!(banks[1].bank_tier, BankTierRisk::Mid);
    assert_eq!(banks[2].bank_tier, BankTierRisk::High);
    for b in &banks {
        assert_eq!(b.reward_per_hour, 250);
        assert_eq!(b.total_staked, 0);
        assert_eq!(b.bank_outcomes.len(), 8);
    }
    assert_eq!(banks[1].bank_outcomes[0].odds, 45_000);
}

#[test]
fn record_sizes() {
    assert_eq!(Global::len(), 370);
    assert_eq!(PlayerInfo::len(), 19);
    assert_eq!(PlayerStakeInfo::len(), 114);
}

#[test]
fn draw_exact_values() {
    assert_eq!(generate_random_number(&key(0), 0), 23_606);
    assert_eq!(generate_random_number(&key(1), 1_700_000_000), 37_458);
    assert_eq!(generate_random_number(&key(PLAYER), 1_700_000_000), 44_899);
    assert_eq!(generate_random_number(&key(PLAYER), 1_700_000_512), 64_742);
}

#[test]
fn first_match_scan_and_fall_through() {
    let low = BankOutcome::generate_bank(BankTierRisk::Low);
    assert_eq!(find_outcome(&low, 0).unwrap().payout_multiplier, 1);
    assert_eq!(find_outcome(&low, 53_999).unwrap().payout_multiplier, 1);
    assert!(find_outcome(&low, 54_000).is_none());
    assert!(find_outcome(&low, 99_999).is_none());
}

#[test]
fn payout_multiplies_base_reward() {
    let low = BankOutcome::generate_bank(BankTierRisk::Low);
    assert_eq!(payout(200, &low[2]), Some(1000));
    assert_eq!(payout(200, &low[4]), Some(0));
    assert_eq!(payout(u64::MAX, &low[1]), None);
}

#[test]
fn membership_check() {
    assert_eq!(verify_nft(&member(COLLECTION, ITEM), &key(COLLECTION), &key(ITEM)), Ok(()));
    assert_eq!(
        verify_nft(&member(9, ITEM), &key(COLLECTION), &key(ITEM)),
        Err(ErrorCode::MismatchCollection)
    );
    let unverified = NftMetadata {
        collection: Some(CollectionRef { verified: false, key: key(COLLECTION) }),
        mint: key(ITEM),
    };
    assert_eq!(
        verify_nft(&unverified, &key(COLLECTION), &key(ITEM)),
        Err(ErrorCode::MismatchCollection)
    );
    let none = NftMetadata { collection: None, mint: key(ITEM) };
    assert_eq!(verify_nft(&none, &key(COLLECTION), &key(ITEM)), Err(ErrorCode::MismatchCollection));
    assert_eq!(
        verify_nft(&member(COLLECTION, 8), &key(COLLECTION), &key(ITEM)),
        Err(ErrorCode::InvalidMintAddress)
    );
}

#[test]
fn first_funding_sets_up_configuration() {
    let mut s = ProgramState::new();
    let r = init_or_update_collection_processor(
        &mut s,
        &member(COLLECTION, ITEM),
        &key(AUTHORITY),
        &key(COLLECTION),
        &key(ITEM),
        &key(REWARD_MINT),
        END_DATE,
        RATE,
        FUND_NOW,
    );
    assert_eq!(r, Ok(3 * RATE * (END_DATE - FUND_NOW)));
    assert!(s.global.is_initialized);
    assert_eq!(s.global.banks.len(), 3);
    assert_eq!(s.global.roles.len(), 2);
    assert_eq!(s.global.end_date, END_DATE);
    assert_eq!(s.global.collection.bytes, [COLLECTION; 32]);
    assert_eq!(s.global.update_authority.bytes, [AUTHORITY; 32]);
    assert_eq!(s.global.reward_mint.bytes, [REWARD_MINT; 32]);
}

#[test]
fn required_amount_is_three_rates_over_remaining_time() {
    let mut s = funded();
    let r = init_or_update_collection_processor(
        &mut s,
        &member(COLLECTION, ITEM),
        &key(AUTHORITY),
        &key(COLLECTION),
        &key(ITEM),
        &key(REWARD_MINT),
        1_000_000,
        7,
        400_000,
    );
    assert_eq!(r, Ok(3 * 7 * 600_000));
    assert_eq!(s.global.end_date, 1_000_000);
    assert_eq!(s.global.banks[0].reward_per_hour, RATE);
}

#[test]
fn refunding_by_stranger_is_refused() {
    let mut s = funded();
    let before = snapshot(&s);
    let r = init_or_update_collection_processor(
        &mut s,
        &member(COLLECTION, ITEM),
        &key(9),
        &key(COLLECTION),
        &key(ITEM),
        &key(REWARD_MINT),
        END_DATE + 1,
        RATE * 2,
        FUND_NOW,
    );
    assert_eq!(r, Err(ErrorCode::InvalidUpdateAuthority));
    assert_eq!(snapshot(&s), before);
    assert_eq!(s.global.update_authority.bytes, [AUTHORITY; 32]);
}

#[test]
fn funding_past_end_date_overflows() {
    let mut s = ProgramState::new();
    let r = init_or_update_collection_processor(
        &mut s,
        &member(COLLECTION, ITEM),
        &key(AUTHORITY),
        &key(COLLECTION),
        &key(ITEM),
        &key(REWARD_MINT),
        10,
        RATE,
        11,
    );
    assert_eq!(r, Err(ErrorCode::MathOverflow));
    assert!(!s.global.is_initialized);
}

#[test]
fn funding_with_foreign_item_is_refused() {
    let mut s = ProgramState::new();
    let r = init_or_update_collection_processor(
        &mut s,
        &member(9, ITEM),
        &key(AUTHORITY),
        &key(COLLECTION),
        &key(ITEM),
        &key(REWARD_MINT),
        END_DATE,
        RATE,
        FUND_NOW,
    );
    assert_eq!(r, Err(ErrorCode::MismatchCollection));
    let r = init_or_update_collection_processor(
        &mut s,
        &member(COLLECTION, 8),
        &key(AUTHORITY),
        &key(COLLECTION),
        &key(ITEM),
        &key(REWARD_MINT),
        END_DATE,
        RATE,
        FUND_NOW,
    );
    assert_eq!(r, Err(ErrorCode::InvalidMintAddress));
    assert!(!s.global.is_initialized);
}

#[test]
fn authority_transfer() {
    let mut s = ProgramState::new();
    assert_eq!(
        update_collection_authority_processor(&mut s, &key(AUTHORITY), &key(5)),
        Err(ErrorCode::NotInitialized)
    );
    let mut s = funded();
    assert_eq!(
        update_collection_authority_processor(&mut s, &key(9), &key(5)),
        Err(ErrorCode::InvalidUpdateAuthority)
    );
    assert_eq!(s.global.update_authority.bytes, [AUTHORITY; 32]);
    assert_eq!(update_collection_authority_processor(&mut s, &key(AUTHORITY), &key(5)), Ok(()));
    assert_eq!(s.global.update_authority.bytes, [5; 32]);
}

#[test]
fn stake_before_funding_is_refused() {
    let mut s = ProgramState::new();
    let r = stake_player_stake_info_processor(
        &mut s,
        &member(COLLECTION, ITEM),
        &key(PLAYER),
        &key(ITEM),
        BankTierRisk::Low,
        1_700_000_000,
    );
    assert_eq!(r, Err(ErrorCode::NotInitialized));
}

#[test]
fn open_stake_creates_records() {
    let mut s = funded();
    let r = stake_player_stake_info_processor(
        &mut s,
        &member(COLLECTION, ITEM),
        &key(PLAYER),
        &key(ITEM),
        BankTierRisk::Mid,
        1_700_000_000,
    );
    assert_eq!(r, Ok(()));
    assert_eq!(s.global.total_player, 1);
    assert_eq!(s.global.banks[1].total_staked, 1);
    assert_eq!(s.global.banks[0].total_staked, 0);
    assert_eq!(s.players.len(), 1);
    assert_eq!(s.players[0].info, PlayerInfo { is_initialized: true, point_balance: 0, active_staked: 1 });
    assert_eq!(s.stakes.len(), 1);
    assert_eq!(s.stakes[0].owner.bytes, [PLAYER; 32]);
    assert_eq!(s.stakes[0].mint.bytes, [ITEM; 32]);
    assert_eq!(s.stakes[0].bank, BankTierRisk::Mid);
    assert_eq!(s.stakes[0].stake_start_time, 1_700_000_000);
    let r = stake_player_stake_info_processor(
        &mut s,
        &member(COLLECTION, 6),
        &key(PLAYER),
        &key(6),
        BankTierRisk::Low,
        1_700_000_010,
    );
    assert_eq!(r, Ok(()));
    assert_eq!(s.global.total_player, 1);
    assert_eq!(s.players[0].info.active_staked, 2);
    assert_eq!(s.stakes.len(), 2);
}

#[test]
fn open_stake_with_foreign_item_is_refused() {
    let mut s = funded();
    let r = stake_player_stake_info_processor(
        &mut s,
        &member(9, ITEM),
        &key(PLAYER),
        &key(ITEM),
        BankTierRisk::Low,
        1_700_000_000,
    );
    assert_eq!(r, Err(ErrorCode::MismatchCollection));
    assert!(s.stakes.is_empty());
}

#[test]
fn second_open_of_same_item_is_duplicate() {
    let mut s = funded();
    let m = member(COLLECTION, ITEM);
    assert_eq!(
        stake_player_stake_info_processor(&mut s, &m, &key(PLAYER), &key(ITEM), BankTierRisk::Low, 1_700_000_000),
        Ok(())
    );
    let before = snapshot(&s);
    assert_eq!(
        stake_player_stake_info_processor(&mut s, &m, &key(PLAYER), &key(ITEM), BankTierRisk::High, 1_700_000_005),
        Err(ErrorCode::DuplicateStake)
    );
    assert_eq!(snapshot(&s), before);
}

#[test]
fn close_without_stake_is_not_found() {
    let mut s = funded();
    let m = member(COLLECTION, ITEM);
    assert_eq!(
        stake_player_stake_info_processor(&mut s, &m, &key(PLAYER), &key(ITEM), BankTierRisk::Low, 1_700_000_000),
        Ok(())
    );
    let before = snapshot(&s);
    let other = member(COLLECTION, 6);
    assert_eq!(
        unstake_player_stake_info_processor(&mut s, &other, &key(PLAYER), &key(6), 1_700_007_200),
        Err(ErrorCode::StakeNotFound)
    );
    assert_eq!(
        unstake_player_stake_info_processor(&mut s, &m, &key(8), &key(ITEM), 1_700_007_200),
        Err(ErrorCode::StakeNotFound)
    );
    assert_eq!(snapshot(&s), before);
}

#[test]
fn two_hour_low_stake_pays_base_reward_times_multiplier() {
    let mut s = funded();
    let m = member(COLLECTION, ITEM);
    let t0 = 1_700_000_000 - 7200;
    assert_eq!(
        stake_player_stake_info_processor(&mut s, &m, &key(PLAYER), &key(ITEM), BankTierRisk::Low, t0),
        Ok(())
    );
    let now = t0 + 7200;
    let draw = generate_random_number(&key(PLAYER), now);
    let chosen = find_outcome(&s.global.banks[0].bank_outcomes, draw).unwrap();
    assert_eq!(chosen.payout_multiplier, 1);
    let r = unstake_player_stake_info_processor(&mut s, &m, &key(PLAYER), &key(ITEM), now);
    assert_eq!(r, Ok(200));
    assert_eq!(s.players[0].info.point_balance, 200);
    let five = BankOutcome::generate_bank(BankTierRisk::Low)[2];
    assert_eq!(five.payout_multiplier, 5);
    assert_eq!(payout(2 * RATE, &five), Some(1000));
}

#[test]
fn immediate_close_pays_nothing() {
    let mut s = funded();
    let m = member(COLLECTION, ITEM);
    let t0 = 1_700_000_000 - 3599;
    assert_eq!(
        stake_player_stake_info_processor(&mut s, &m, &key(PLAYER), &key(ITEM), BankTierRisk::Low, t0),
        Ok(())
    );
    let r = unstake_player_stake_info_processor(&mut s, &m, &key(PLAYER), &key(ITEM), t0 + 3599);
    assert_eq!(r, Ok(0));
    assert_eq!(s.players[0].info.point_balance, 0);
    assert!(s.stakes.is_empty());
}

#[test]
fn closing_sole_stake_drops_player_count() {
    let mut s = funded();
    let m = member(COLLECTION, ITEM);
    let t0 = 1_700_000_000;
    assert_eq!(
        stake_player_stake_info_processor(&mut s, &m, &key(PLAYER), &key(ITEM), BankTierRisk::Low, t0),
        Ok(())
    );
    assert_eq!(
        stake_player_stake_info_processor(&mut s, &member(COLLECTION, 6), &key(8), &key(6), BankTierRisk::Mid, t0),
        Ok(())
    );
    assert_eq!(s.global.total_player, 2);
    assert!(unstake_player_stake_info_processor(&mut s, &m, &key(PLAYER), &key(ITEM), t0 + 10).is_ok());
    assert_eq!(s.global.total_player, 1);
    assert_eq!(s.players[0].info.active_staked, 0);
    assert_eq!(s.players.len(), 2);
    assert_eq!(s.global.banks[0].total_staked, 0);
    assert_eq!(s.global.banks[1].total_staked, 1);
    assert_eq!(s.stakes.len(), 1);
}

#[test]
fn draw_past_largest_odds_matches_no_outcome() {
    let mut s = funded();
    let m = member(COLLECTION, ITEM);
    let now = 1_700_000_512;
    assert_eq!(
        stake_player_stake_info_processor(&mut s, &m, &key(PLAYER), &key(ITEM), BankTierRisk::Low, now - 7200),
        Ok(())
    );
    let before = snapshot(&s);
    let r = unstake_player_stake_info_processor(&mut s, &m, &key(PLAYER), &key(ITEM), now);
    assert_eq!(r, Err(ErrorCode::NoMatchingOutcome));
    assert_eq!(snapshot(&s), before);
}

#[test]
fn close_before_start_overflows() {
    let mut s = funded();
    let m = member(COLLECTION, ITEM);
    let t0 = 1_700_000_000;
    assert_eq!(
        stake_player_stake_info_processor(&mut s, &m, &key(PLAYER), &key(ITEM), BankTierRisk::Low, t0),
        Ok(())
    );
    let r = unstake_player_stake_info_processor(&mut s, &m, &key(PLAYER), &key(ITEM), t0 - 1);
    assert_eq!(r, Err(ErrorCode::MathOverflow));
    assert_eq!(s.stakes.len(), 1);
}
