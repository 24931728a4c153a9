use vstd::prelude::*;
use crate::error::ErrorCode;
use crate::ledger::{active_stakes, has_player, has_stake, player_at, stake_at, ProgramState};
use crate::processor::{fund_post, settle, stake_post, unstake_post};
use crate::random::draw;
use crate::reward::{base_reward, nft_check, select_outcome, NftMetadata};
use crate::state::{tier_index, BankTierRisk, Identity};

verus! {

/// Funding an initialized configuration as anyone but its update authority is refused
/// and changes nothing; where the item checks out, the refusal is `InvalidUpdateAuthority`.
pub proof fn lemma_refund_needs_authority(
    old: ProgramState,
    metadata: NftMetadata,
    creator: Identity,
    collection_mint: Identity,
    user_nft_mint: Identity,
    reward_mint: Identity,
    end_date: u64,
    reward_per_hour: u64,
    now: u64,
    r: Result<u64, ErrorCode>,
    new: ProgramState,
)
    requires
        fund_post(
            old,
            metadata,
            creator,
            collection_mint,
            user_nft_mint,
            reward_mint,
            end_date,
            reward_per_hour,
            now,
            r,
            new,
        ),
        old.global.is_initialized,
        old.global.update_authority@ != creator@,
    ensures
        r is Err,
        new == old,
        nft_check(metadata, collection_mint@, user_nft_mint@) is Ok ==> r == Err::<u64, ErrorCode>(
            ErrorCode::InvalidUpdateAuthority,
        ),
{
}

/// A stake opened at `t0` and closed less than an hour later pays nothing, whatever the
/// draw selects.
pub proof fn lemma_immediate_close_pays_nothing(
    s0: ProgramState,
    open_metadata: NftMetadata,
    player: Identity,
    mint: Identity,
    tier: BankTierRisk,
    t0: u64,
    s1: ProgramState,
    close_metadata: NftMetadata,
    t1: u64,
    r: Result<u64, ErrorCode>,
    s2: ProgramState,
)
    requires
        s0.wf(),
        s1.wf(),
        stake_post(s0, open_metadata, player, mint, tier, t0, Ok(()), s1),
        unstake_post(s1, close_metadata, player, mint, t1, r, s2),
        t0 <= t1,
        t1 - t0 < 3600,
    ensures
        r is Ok ==> r == Ok::<u64, ErrorCode>(0),
        nft_check(close_metadata, s1.global.collection@, mint@) is Ok && crate::random::draw(
            t1,
            player@,
        ) < crate::reward::max_odds(tier) && s1.global.total_player > 0 ==> r == Ok::<
            u64,
            ErrorCode,
        >(0),
{
    let i = s0.stakes@.len() as int;
    assert(s1.stakes@[i].owner == player && s1.stakes@[i].mint == mint);
    assert(stake_at(s1.stakes@, i, player@, mint@));
    assert(has_player(s1.players@, s1.stakes@[i].owner@));
    let j = choose|j: int| player_at(s1.players@, j, player@);
    let rec = s1.stakes@[i];
    assert(rec.stake_start_time == t0);
    assert(rec.bank == tier);
    let k = crate::state::tier_index(tier);
    assert(crate::state::tier_at(k) == tier);
    assert(s1.global.banks@[k].bank_outcomes@ == crate::state::outcome_table(tier));
    crate::reward::lemma_outcome_table(tier, crate::random::draw(t1, player@));
    lemma_settle_within_hour(s1.global, s1.players@[j].info, rec, player@, t1);
}

proof fn lemma_settle_within_hour(
    g: crate::state::Global,
    info: crate::state::PlayerInfo,
    rec: crate::state::PlayerStakeInfo,
    who: Seq<u8>,
    now: u64,
)
    requires
        rec.stake_start_time <= now,
        now - rec.stake_start_time < 3600,
    ensures
        settle(g, info, rec, who, now) is Ok ==> settle(g, info, rec, who, now)->Ok_0 == 0,
        select_outcome(g.banks@[tier_index(rec.bank)].bank_outcomes@, draw(now, who)) is Some
            && g.total_player > 0 ==> settle(g, info, rec, who, now) == Ok::<u64, ErrorCode>(0),
{
    let bank = g.banks@[crate::state::tier_index(rec.bank)];
    let rate = bank.reward_per_hour;
    assert((now - rec.stake_start_time) / 3600 == 0);
    assert(base_reward(rec.stake_start_time, now, rate) == 0);
    match crate::reward::select_outcome(bank.bank_outcomes@, crate::random::draw(now, who)) {
        Some(o) => {
            assert(base_reward(rec.stake_start_time, now, rate) * o.payout_multiplier == 0);
        },
        None => {},
    }
}

/// Closing a player's only open stake drops the player count by exactly one and leaves
/// that player's record with no active stake.
pub proof fn lemma_last_close_drops_player(
    s1: ProgramState,
    metadata: NftMetadata,
    player: Identity,
    mint: Identity,
    now: u64,
    r: Result<u64, ErrorCode>,
    s2: ProgramState,
)
    requires
        s1.wf(),
        unstake_post(s1, metadata, player, mint, now, r, s2),
        r is Ok,
        active_stakes(s1.stakes@, player@) == 1,
    ensures
        s2.global.total_player == s1.global.total_player - 1,
        forall|j: int| player_at(s2.players@, j, player@) ==> #[trigger] s2.players@[j].info.active_staked == 0,
{
    let i = choose|i: int| stake_at(s1.stakes@, i, player@, mint@);
    assert(has_player(s1.players@, s1.stakes@[i].owner@));
    let j = choose|j: int| player_at(s1.players@, j, player@);
    assert(s1.players@[j].info.active_staked == 1);
    assert(settle(s1.global, s1.players@[j].info, s1.stakes@[i], player@, now) is Ok);
    assert forall|jj: int| player_at(s2.players@, jj, player@) implies #[trigger] s2.players@[jj].info.active_staked
        == 0 by {
        if jj != j {
            assert(s2.players@[jj] == s1.players@[jj]);
            assert(player_at(s1.players@, jj, player@));
        }
    }
}

/// Closing a stake that was never opened (no record for this player and item) is
/// refused and changes nothing; once the configuration is funded and the item checks
/// out, the refusal is `StakeNotFound`.
pub proof fn lemma_close_without_stake(
    s: ProgramState,
    metadata: NftMetadata,
    player: Identity,
    mint: Identity,
    now: u64,
    r: Result<u64, ErrorCode>,
    new: ProgramState,
)
    requires
        unstake_post(s, metadata, player, mint, now, r, new),
        !has_stake(s.stakes@, player@, mint@),
    ensures
        r is Err,
        new == s,
        s.global.is_initialized && nft_check(metadata, s.global.collection@, mint@) is Ok ==> r
            == Err::<u64, ErrorCode>(ErrorCode::StakeNotFound),
{
}

} // verus!
