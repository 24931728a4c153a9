use vstd::prelude::*;
use crate::error::ErrorCode;
use crate::ledger::{
    active_stakes, find_player, find_stake, has_player, has_stake, lemma_count_none,
    lemma_count_push, lemma_count_remove, owned_by, in_tier, player_at, stake_at, tier_slot,
    tier_stakes, PlayerEntry, ProgramState,
};
use crate::random::{draw, generate_random_number};
use crate::reward::{
    base_reward, find_outcome, nft_check, payout, select_outcome, verify_nft, NftMetadata,
    SECONDS_PER_HOUR,
};
use crate::state::{
    fresh_bank, role_catalogue, tier_at, tier_index, Bank, BankTierRisk, Global, Identity,
    PlayerInfo, PlayerStakeInfo, Role,
};

verus! {

/// Number of banks whose accrual a funding covers.
pub const BANK_COUNT: u64 = 3;

/// The fields of the configuration that staking never touches are equal.
pub open spec fn same_config(a: Global, b: Global) -> bool {
    &&& a.collection == b.collection
    &&& a.total_supply == b.total_supply
    &&& a.end_date == b.end_date
    &&& a.reward_mint == b.reward_mint
    &&& a.roles == b.roles
    &&& a.is_initialized == b.is_initialized
    &&& a.update_authority == b.update_authority
}

/// The whole obligation of a funding: every bank's hourly rate, each second from now to
/// the end date.
pub open spec fn required_amount(end_date: u64, reward_per_hour: u64, now: u64) -> int {
    3 * reward_per_hour * (end_date - now)
}

/// Why a funding is refused, if it is.
pub open spec fn fund_error(
    s: ProgramState,
    metadata: NftMetadata,
    creator: Seq<u8>,
    collection_mint: Seq<u8>,
    user_nft_mint: Seq<u8>,
    end_date: u64,
    reward_per_hour: u64,
    now: u64,
) -> Option<ErrorCode> {
    if nft_check(metadata, collection_mint, user_nft_mint) is Err {
        Some(nft_check(metadata, collection_mint, user_nft_mint)->Err_0)
    } else if s.global.is_initialized && s.global.update_authority@ != creator {
        Some(ErrorCode::InvalidUpdateAuthority)
    } else if end_date < now || required_amount(
        end_date,
        reward_per_hour,
        now,
    ) > u64::MAX {
        Some(ErrorCode::MathOverflow)
    } else {
        None
    }
}

/// What a funding does: a refusal changes nothing; otherwise the first funding sets up
/// the configuration and its banks, a later one keeps them, and both set the end date
/// and the reward mint and ask for the whole remaining obligation.
pub open spec fn fund_post(
    old: ProgramState,
    metadata: NftMetadata,
    creator: Identity,
    collection_mint: Identity,
    user_nft_mint: Identity,
    reward_mint: Identity,
    end_date: u64,
    reward_per_hour: u64,
    now: u64,
    r: Result<u64, ErrorCode>,
    new: ProgramState,
) -> bool {
    match fund_error(
        old,
        metadata,
        creator@,
        collection_mint@,
        user_nft_mint@,
        end_date,
        reward_per_hour,
        now,
    ) {
        Some(e) => r == Err::<u64, ErrorCode>(e) && new == old,
        None => {
            &&& r == Ok::<u64, ErrorCode>(required_amount(end_date, reward_per_hour, now) as u64)
            &&& new.players == old.players
            &&& new.stakes == old.stakes
            &&& new.global.is_initialized
            &&& new.global.end_date == end_date
            &&& new.global.reward_mint == reward_mint
            &&& old.global.is_initialized ==> {
                &&& new.global.collection == old.global.collection
                &&& new.global.total_supply == old.global.total_supply
                &&& new.global.banks == old.global.banks
                &&& new.global.roles == old.global.roles
                &&& new.global.update_authority == old.global.update_authority
                &&& new.global.total_player == old.global.total_player
            }
            &&& !old.global.is_initialized ==> {
                &&& new.global.collection == collection_mint
                &&& new.global.total_supply == 0
                &&& new.global.total_player == 0
                &&& new.global.update_authority == creator
                &&& new.global.roles@ == role_catalogue()
                &&& new.global.banks@.len() == 3
                &&& forall|k: int|
                    0 <= k < 3 ==> fresh_bank(
                        #[trigger] new.global.banks@[k],
                        tier_at(k),
                        reward_per_hour,
                    )
            }
        },
    }
}

/// Funds the reward pool: sets the configuration up on the first call, checks the
/// update authority on later ones, and returns the amount of the reward asset that the
/// creator must transfer into the pool.
pub fn init_or_update_collection_processor(
    state: &mut ProgramState,
    metadata: &NftMetadata,
    creator: &Identity,
    collection_mint: &Identity,
    user_nft_mint: &Identity,
    reward_mint: &Identity,
    end_date: u64,
    reward_per_hour: u64,
    now: u64,
) -> (r: Result<u64, ErrorCode>)
    requires
        old(state).wf(),
    ensures
        final(state).wf(),
        fund_post(
            *old(state),
            *metadata,
            *creator,
            *collection_mint,
            *user_nft_mint,
            *reward_mint,
            end_date,
            reward_per_hour,
            now,
            r,
            *final(state),
        ),
{
    match verify_nft(metadata, collection_mint, user_nft_mint) {
        Err(e) => {
            return Err(e);
        },
        Ok(_) => {},
    }
    if state.global.is_initialized && !state.global.update_authority.same_as(creator) {
        return Err(ErrorCode::InvalidUpdateAuthority);
    }
    if end_date < now {
        return Err(ErrorCode::MathOverflow);
    }
    let time_to_end = end_date - now;
    let total_reward_amount: u64 = if time_to_end == 0 {
        0
    } else {
        let total_reward_per_hour = match reward_per_hour.checked_mul(BANK_COUNT) {
            Some(v) => v,
            None => {
                proof {
                    assert(required_amount(end_date, reward_per_hour, now) >= 3 * reward_per_hour)
                        by (nonlinear_arith)
                        requires
                            time_to_end == end_date - now,
                            time_to_end >= 1,
                            reward_per_hour >= 0,
                    ;
                }
                return Err(ErrorCode::MathOverflow);
            },
        };
        proof {
            assert(required_amount(end_date, reward_per_hour, now) == time_to_end
                * total_reward_per_hour) by (nonlinear_arith)
                requires
                    total_reward_per_hour == 3 * reward_per_hour,
                    time_to_end == end_date - now,
            ;
        }
        match time_to_end.checked_mul(total_reward_per_hour) {
            Some(v) => v,
            None => {
                return Err(ErrorCode::MathOverflow);
            },
        }
    };
    if !state.global.is_initialized {
        state.global.is_initialized = true;
        state.global.total_supply = 0;
        state.global.total_player = 0;
        state.global.collection = *collection_mint;
        state.global.update_authority = *creator;
        state.global.roles = Role::new();
        state.global.banks = Bank::generate_banks(reward_per_hour);
    }
    state.global.end_date = end_date;
    state.global.reward_mint = *reward_mint;
    Ok(total_reward_amount)
}

/// Hands the update authority to `new_authority`, if `current_authority` holds it.
pub fn update_collection_authority_processor(
    state: &mut ProgramState,
    current_authority: &Identity,
    new_authority: &Identity,
) -> (r: Result<(), ErrorCode>)
    requires
        old(state).wf(),
    ensures
        final(state).wf(),
        !old(state).global.is_initialized ==> r == Err::<(), ErrorCode>(ErrorCode::NotInitialized)
            && *final(state) == *old(state),
        old(state).global.is_initialized && old(state).global.update_authority@ != current_authority@
            ==> r == Err::<(), ErrorCode>(ErrorCode::InvalidUpdateAuthority) && *final(state)
            == *old(state),
        old(state).global.is_initialized && old(state).global.update_authority@ == current_authority@
            ==> {
            &&& r is Ok
            &&& final(state).global == (Global { update_authority: *new_authority, ..old(state).global })
            &&& final(state).players == old(state).players
            &&& final(state).stakes == old(state).stakes
        },
{
    if !state.global.is_initialized {
        return Err(ErrorCode::NotInitialized);
    }
    if !state.global.update_authority.same_as(current_authority) {
        return Err(ErrorCode::InvalidUpdateAuthority);
    }
    state.global.update_authority = *new_authority;
    Ok(())
}

/// The banks with the staked count of bank `k` set to `n`.
pub open spec fn with_staked(banks: Seq<Bank>, k: int, n: int) -> Seq<Bank> {
    banks.update(k, Bank { total_staked: n as u64, ..banks[k] })
}

/// The record that opening a stake creates.
pub open spec fn new_stake(player: Identity, mint: Identity, tier: BankTierRisk, now: u64) -> PlayerStakeInfo {
    PlayerStakeInfo { owner: player, mint, bank: tier, stake_start_time: now, role: role_catalogue()[0] }
}

/// Why opening a stake is refused, if it is.
pub open spec fn stake_error(
    s: ProgramState,
    metadata: NftMetadata,
    player: Seq<u8>,
    mint: Seq<u8>,
    tier: BankTierRisk,
) -> Option<ErrorCode> {
    if !s.global.is_initialized {
        Some(ErrorCode::NotInitialized)
    } else if nft_check(metadata, s.global.collection@, mint) is Err {
        Some(nft_check(metadata, s.global.collection@, mint)->Err_0)
    } else if has_stake(s.stakes@, player, mint) {
        Some(ErrorCode::DuplicateStake)
    } else if s.global.banks@[tier_index(tier)].total_staked == u64::MAX || (exists|j: int|
        player_at(s.players@, j, player) && #[trigger] s.players@[j].info.active_staked
            == u16::MAX) || (!has_player(s.players@, player) && s.global.total_player
        == u64::MAX) {
        Some(ErrorCode::MathOverflow)
    } else {
        None
    }
}

/// What opening a stake does: a refusal changes nothing; otherwise a stake record is
/// added, the player's record is created (counting a new player) or has its active count
/// raised, and the tier's bank counts one more stake.
pub open spec fn stake_post(
    old: ProgramState,
    metadata: NftMetadata,
    player: Identity,
    mint: Identity,
    tier: BankTierRisk,
    now: u64,
    r: Result<(), ErrorCode>,
    new: ProgramState,
) -> bool {
    match stake_error(old, metadata, player@, mint@, tier) {
        Some(e) => r == Err::<(), ErrorCode>(e) && new == old,
        None => {
            &&& r is Ok
            &&& new.stakes@ == old.stakes@.push(new_stake(player, mint, tier, now))
            &&& same_config(old.global, new.global)
            &&& new.global.banks@ == with_staked(
                old.global.banks@,
                tier_index(tier),
                old.global.banks@[tier_index(tier)].total_staked + 1,
            )
            &&& forall|j: int|
                player_at(old.players@, j, player@) ==> {
                    &&& new.players@ == old.players@.update(
                        j,
                        PlayerEntry {
                            key: old.players@[j].key,
                            info: PlayerInfo {
                                active_staked: (old.players@[j].info.active_staked + 1) as u16,
                                ..old.players@[j].info
                            },
                        },
                    )
                    &&& new.global.total_player == old.global.total_player
                }
            &&& !has_player(old.players@, player@) ==> {
                &&& new.players@ == old.players@.push(
                    PlayerEntry {
                        key: player,
                        info: PlayerInfo { is_initialized: true, point_balance: 0, active_staked: 1 },
                    },
                )
                &&& new.global.total_player == old.global.total_player + 1
            }
        },
    }
}

/// Opens a stake of `player` on the item `user_nft_mint` in the bank of `bank_tier_risk`,
/// starting at `now`.
pub fn stake_player_stake_info_processor(
    state: &mut ProgramState,
    metadata: &NftMetadata,
    player: &Identity,
    user_nft_mint: &Identity,
    bank_tier_risk: BankTierRisk,
    now: u64,
) -> (r: Result<(), ErrorCode>)
    requires
        old(state).wf(),
    ensures
        final(state).wf(),
        stake_post(*old(state), *metadata, *player, *user_nft_mint, bank_tier_risk, now, r, *final(state)),
{
    if !state.global.is_initialized {
        return Err(ErrorCode::NotInitialized);
    }
    match verify_nft(metadata, &state.global.collection, user_nft_mint) {
        Err(e) => {
            return Err(e);
        },
        Ok(_) => {},
    }
    if find_stake(&state.stakes, player, user_nft_mint).is_some() {
        return Err(ErrorCode::DuplicateStake);
    }
    let k = tier_slot(bank_tier_risk);
    let staked = state.global.banks[k].total_staked;
    if staked == u64::MAX {
        return Err(ErrorCode::MathOverflow);
    }
    let ghost old_state = *state;
    let rec = PlayerStakeInfo {
        owner: *player,
        mint: *user_nft_mint,
        bank: bank_tier_risk,
        stake_start_time: now,
        role: Role::default_role(),
    };
    let found = find_player(&state.players, player);
    match found {
        Some(j) => {
            if state.players[j].info.active_staked == u16::MAX {
                return Err(ErrorCode::MathOverflow);
            }
        },
        None => {
            if state.global.total_player == u64::MAX {
                return Err(ErrorCode::MathOverflow);
            }
        },
    }
    state.global.banks[k].total_staked = staked + 1;
    state.stakes.push(rec);
    proof {
        let s0 = old_state.stakes@;
        let s1 = state.stakes@;
        assert forall|kk: int| 0 <= kk < 3 implies (#[trigger] state.global.banks@[kk]).total_staked
            == crate::ledger::tier_stakes(s1, tier_at(kk)) by {
            lemma_count_push(s0, rec, in_tier(tier_at(kk)));
        }
        assert forall|a: int, b: int|
            0 <= a < s1.len() && 0 <= b < s1.len() && (#[trigger] s1[a]).owner@ == (
            #[trigger] s1[b]).owner@ && s1[a].mint@ == s1[b].mint@ implies a == b by {
            if a == s0.len() && b < s0.len() {
                assert(crate::ledger::stake_at(s0, b, player@, user_nft_mint@));
            }
            if b == s0.len() && a < s0.len() {
                assert(crate::ledger::stake_at(s0, a, player@, user_nft_mint@));
            }
        }
        assert(state.global.banks@ =~= with_staked(old_state.global.banks@, k as int, staked + 1));
    }
    match found {
        Some(j) => {
            let entry = state.players[j];
            state.players.set(
                j,
                PlayerEntry {
                    key: entry.key,
                    info: PlayerInfo {
                        is_initialized: entry.info.is_initialized,
                        point_balance: entry.info.point_balance,
                        active_staked: entry.info.active_staked + 1,
                    },
                },
            );
            proof {
                let s0 = old_state.stakes@;
                let s1 = state.stakes@;
                assert forall|a: int| player_at(old_state.players@, a, player@) implies a == j by {}
                assert forall|jj: int| 0 <= jj < state.players@.len() implies (
                #[trigger] state.players@[jj]).info.is_initialized
                    && state.players@[jj].info.active_staked == crate::ledger::active_stakes(
                    s1,
                    state.players@[jj].key@,
                ) by {
                    assert(old_state.players@[jj].key@ == state.players@[jj].key@);
                    lemma_count_push(s0, rec, owned_by(state.players@[jj].key@));
                }
                assert forall|a: int, b: int|
                    0 <= a < state.players@.len() && 0 <= b < state.players@.len()
                        && #[trigger] state.players@[a].key@ == #[trigger] state.players@[b].key@ implies a
                    == b by {
                    assert(old_state.players@[a].key@ == state.players@[a].key@);
                    assert(old_state.players@[b].key@ == state.players@[b].key@);
                }
                assert forall|i: int| 0 <= i < s1.len() implies has_player(
                    state.players@,
                    (#[trigger] s1[i]).owner@,
                ) by {
                    if i < s0.len() {
                        let o = s0[i].owner@;
                        assert(has_player(old_state.players@, o));
                        let a = choose|a: int| player_at(old_state.players@, a, o);
                        assert(player_at(state.players@, a, o));
                    } else {
                        assert(player_at(state.players@, j as int, player@));
                    }
                }
            }
        },
        None => {
            state.global.total_player = state.global.total_player + 1;
            state.players.push(
                PlayerEntry {
                    key: *player,
                    info: PlayerInfo { is_initialized: true, point_balance: 0, active_staked: 1 },
                },
            );
            proof {
                let s0 = old_state.stakes@;
                let s1 = state.stakes@;
                let n = old_state.players@.len() as int;
                assert forall|i: int| 0 <= i < s0.len() implies !owned_by(player@)(
                    #[trigger] s0[i],
                ) by {
                    assert(has_player(old_state.players@, s0[i].owner@));
                }
                lemma_count_none(s0, owned_by(player@));
                assert forall|jj: int| 0 <= jj < state.players@.len() implies (
                #[trigger] state.players@[jj]).info.is_initialized
                    && state.players@[jj].info.active_staked == crate::ledger::active_stakes(
                    s1,
                    state.players@[jj].key@,
                ) by {
                    lemma_count_push(s0, rec, owned_by(state.players@[jj].key@));
                    if jj < n {
                        assert(old_state.players@[jj] == state.players@[jj]);
                        assert(!player_at(old_state.players@, jj, player@));
                        assert(old_state.players@[jj].info.active_staked
                            == crate::ledger::active_stakes(s0, old_state.players@[jj].key@));
                    } else {
                        assert(state.players@[jj].key@ == player@);
                    }
                }
                assert forall|a: int, b: int|
                    0 <= a < state.players@.len() && 0 <= b < state.players@.len()
                        && #[trigger] state.players@[a].key@ == #[trigger] state.players@[b].key@ implies a
                    == b by {
                    if a == n && b < n {
                        assert(player_at(old_state.players@, b, player@));
                    }
                    if b == n && a < n {
                        assert(player_at(old_state.players@, a, player@));
                    }
                }
                assert forall|i: int| 0 <= i < s1.len() implies has_player(
                    state.players@,
                    (#[trigger] s1[i]).owner@,
                ) by {
                    if i < s0.len() {
                        let o = s0[i].owner@;
                        assert(has_player(old_state.players@, o));
                        let a = choose|a: int| player_at(old_state.players@, a, o);
                        assert(player_at(state.players@, a, o));
                    } else {
                        assert(player_at(state.players@, n, player@));
                    }
                }
            }
        },
    }
    Ok(())
}

/// What closing the stake `rec` of a player whose record is `info` pays, or why it is
/// refused: the whole hours staked times the bank's rate, times the multiplier of the
/// outcome that the draw for `who` at `now` selects.
pub open spec fn settle(g: Global, info: PlayerInfo, rec: PlayerStakeInfo, who: Seq<u8>, now: u64) -> Result<u64, ErrorCode> {
    let bank = g.banks@[tier_index(rec.bank)];
    if now < rec.stake_start_time {
        Err(ErrorCode::MathOverflow)
    } else if base_reward(rec.stake_start_time, now, bank.reward_per_hour) > u64::MAX {
        Err(ErrorCode::MathOverflow)
    } else {
        match select_outcome(bank.bank_outcomes@, draw(now, who)) {
            None => Err(ErrorCode::NoMatchingOutcome),
            Some(o) => {
                let reward = base_reward(rec.stake_start_time, now, bank.reward_per_hour)
                    * o.payout_multiplier;
                if reward > u64::MAX || info.point_balance + reward > u64::MAX {
                    Err(ErrorCode::MathOverflow)
                } else if info.active_staked == 1 && g.total_player == 0 {
                    Err(ErrorCode::MathOverflow)
                } else {
                    Ok(reward as u64)
                }
            },
        }
    }
}

/// The state after closing stake record `i`, owned by the player of entry `j`, with payout
/// `reward`: the record is gone, the player's balance grows by the payout and its active
/// count drops by one, the player count drops by one when that count reaches zero, and the
/// tier's bank counts one stake less.
pub open spec fn closed_state(old: ProgramState, i: int, j: int, reward: u64, new: ProgramState) -> bool {
    let info = old.players@[j].info;
    let k = tier_index(old.stakes@[i].bank);
    &&& new.stakes@ == old.stakes@.remove(i)
    &&& new.players@ == old.players@.update(
        j,
        PlayerEntry {
            key: old.players@[j].key,
            info: PlayerInfo {
                point_balance: (info.point_balance + reward) as u64,
                active_staked: (info.active_staked - 1) as u16,
                ..info
            },
        },
    )
    &&& new.global.total_player == if info.active_staked == 1 {
        (old.global.total_player - 1) as u64
    } else {
        old.global.total_player
    }
    &&& new.global.banks@ == with_staked(old.global.banks@, k, old.global.banks@[k].total_staked - 1)
    &&& same_config(old.global, new.global)
}

/// What closing a stake does: a refusal changes nothing; otherwise the record is removed
/// and the payout credited as `settle` and `closed_state` say.
pub open spec fn unstake_post(
    old: ProgramState,
    metadata: NftMetadata,
    player: Identity,
    mint: Identity,
    now: u64,
    r: Result<u64, ErrorCode>,
    new: ProgramState,
) -> bool {
    if !old.global.is_initialized {
        r == Err::<u64, ErrorCode>(ErrorCode::NotInitialized) && new == old
    } else if nft_check(metadata, old.global.collection@, mint@) is Err {
        r == Err::<u64, ErrorCode>(nft_check(metadata, old.global.collection@, mint@)->Err_0) && new
            == old
    } else if !has_stake(old.stakes@, player@, mint@) {
        r == Err::<u64, ErrorCode>(ErrorCode::StakeNotFound) && new == old
    } else {
        forall|i: int, j: int|
            stake_at(old.stakes@, i, player@, mint@) && player_at(old.players@, j, player@) ==>
                match #[trigger] settle(old.global, old.players@[j].info, old.stakes@[i], player@, now) {
                Err(e) => r == Err::<u64, ErrorCode>(e) && new == old,
                Ok(reward) => r == Ok::<u64, ErrorCode>(reward) && closed_state(old, i, j, reward, new),
            }
    }
}

/// Closes the stake of `player` on the item `nft_mint` at `now`, and returns the payout
/// to transfer to the player.
pub fn unstake_player_stake_info_processor(
    state: &mut ProgramState,
    metadata: &NftMetadata,
    player: &Identity,
    nft_mint: &Identity,
    now: u64,
) -> (r: Result<u64, ErrorCode>)
    requires
        old(state).wf(),
    ensures
        final(state).wf(),
        unstake_post(*old(state), *metadata, *player, *nft_mint, now, r, *final(state)),
{
    if !state.global.is_initialized {
        return Err(ErrorCode::NotInitialized);
    }
    match verify_nft(metadata, &state.global.collection, nft_mint) {
        Err(e) => {
            return Err(e);
        },
        Ok(_) => {},
    }
    let i = match find_stake(&state.stakes, player, nft_mint) {
        Some(i) => i,
        None => {
            return Err(ErrorCode::StakeNotFound);
        },
    };
    let ghost old_state = *state;
    let rec = state.stakes[i];
    proof {
        assert(has_player(old_state.players@, rec.owner@));
    }
    let j = match find_player(&state.players, player) {
        Some(j) => j,
        None => {
            return Err(ErrorCode::StakeNotFound);
        },
    };
    let entry = state.players[j];
    proof {
        assert forall|a: int, b: int|
            stake_at(old_state.stakes@, a, player@, nft_mint@) && player_at(
                old_state.players@,
                b,
                player@,
            ) implies a == i && b == j by {}
        lemma_count_remove(old_state.stakes@, i as int, owned_by(player@));
        lemma_count_remove(old_state.stakes@, i as int, in_tier(rec.bank));
    }
    let k = tier_slot(rec.bank);
    let rate = state.global.banks[k].reward_per_hour;
    if now < rec.stake_start_time {
        return Err(ErrorCode::MathOverflow);
    }
    let hours = (now - rec.stake_start_time) / SECONDS_PER_HOUR;
    let base = match hours.checked_mul(rate) {
        Some(b) => b,
        None => {
            return Err(ErrorCode::MathOverflow);
        },
    };
    let roll = generate_random_number(player, now);
    let chosen = match find_outcome(&state.global.banks[k].bank_outcomes, roll) {
        Some(o) => o,
        None => {
            return Err(ErrorCode::NoMatchingOutcome);
        },
    };
    let reward = match payout(base, &chosen) {
        Some(v) => v,
        None => {
            return Err(ErrorCode::MathOverflow);
        },
    };
    let balance = match entry.info.point_balance.checked_add(reward) {
        Some(v) => v,
        None => {
            return Err(ErrorCode::MathOverflow);
        },
    };
    let active = entry.info.active_staked - 1;
    let total_player = if active == 0 {
        if state.global.total_player == 0 {
            return Err(ErrorCode::MathOverflow);
        }
        state.global.total_player - 1
    } else {
        state.global.total_player
    };
    let staked = state.global.banks[k].total_staked;
    state.players.set(
        j,
        PlayerEntry {
            key: entry.key,
            info: PlayerInfo {
                is_initialized: entry.info.is_initialized,
                point_balance: balance,
                active_staked: active,
            },
        },
    );
    state.global.total_player = total_player;
    state.global.banks[k].total_staked = staked - 1;
    state.stakes.remove(i);
    proof {
        let s0 = old_state.stakes@;
        let s1 = state.stakes@;
        assert(state.global.banks@ =~= with_staked(old_state.global.banks@, k as int, staked - 1));
        assert forall|kk: int| 0 <= kk < 3 implies (#[trigger] state.global.banks@[kk]).total_staked
            == tier_stakes(s1, tier_at(kk)) by {
            lemma_count_remove(s0, i as int, in_tier(tier_at(kk)));
        }
        assert forall|a: int, b: int|
            0 <= a < s1.len() && 0 <= b < s1.len() && (#[trigger] s1[a]).owner@ == (
            #[trigger] s1[b]).owner@ && s1[a].mint@ == s1[b].mint@ implies a == b by {
            let a0 = if a < i { a } else { a + 1 };
            let b0 = if b < i { b } else { b + 1 };
            assert(s1[a] == s0[a0]);
            assert(s1[b] == s0[b0]);
        }
        assert forall|jj: int| 0 <= jj < state.players@.len() implies (
        #[trigger] state.players@[jj]).info.is_initialized && state.players@[jj].info.active_staked
            == active_stakes(s1, state.players@[jj].key@) by {
            assert(old_state.players@[jj].key@ == state.players@[jj].key@);
            lemma_count_remove(s0, i as int, owned_by(state.players@[jj].key@));
            if jj != j {
                assert(!player_at(old_state.players@, jj, player@));
            }
        }
        assert forall|a: int, b: int|
            0 <= a < state.players@.len() && 0 <= b < state.players@.len()
                && #[trigger] state.players@[a].key@ == #[trigger] state.players@[b].key@ implies a
            == b by {
            assert(old_state.players@[a].key@ == state.players@[a].key@);
            assert(old_state.players@[b].key@ == state.players@[b].key@);
        }
        assert forall|x: int| 0 <= x < s1.len() implies has_player(
            state.players@,
            (#[trigger] s1[x]).owner@,
        ) by {
            let x0 = if x < i { x } else { x + 1 };
            assert(s1[x] == s0[x0]);
            let o = s0[x0].owner@;
            assert(has_player(old_state.players@, o));
            let a = choose|a: int| player_at(old_state.players@, a, o);
            assert(player_at(state.players@, a, o));
        }
        assert(base == base_reward(rec.stake_start_time, now, rate));
    }
    Ok(reward)
}

} // verus!

