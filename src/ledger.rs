use vstd::prelude::*;
use crate::state::{
    banks_wf, tier_at, tier_index, BankTierRisk, Global, Identity, PlayerInfo, PlayerStakeInfo,
};

verus! {

/// A player record together with the identity it belongs to.
#[derive(Clone, Copy)]
pub struct PlayerEntry {
    pub key: Identity,
    pub info: PlayerInfo,
}

/// Every record of the program: the configuration, one entry per player, one per open stake.
pub struct ProgramState {
    pub global: Global,
    pub players: Vec<PlayerEntry>,
    pub stakes: Vec<PlayerStakeInfo>,
}

/// Number of stake records of `s` that satisfy `f`.
pub open spec fn count_where(s: Seq<PlayerStakeInfo>, f: spec_fn(PlayerStakeInfo) -> bool) -> nat
    decreases s.len(),
{
    if s.len() == 0 {
        0
    } else {
        count_where(s.drop_last(), f) + if f(s.last()) {
            1nat
        } else {
            0nat
        }
    }
}

pub open spec fn owned_by(p: Seq<u8>) -> spec_fn(PlayerStakeInfo) -> bool {
    |r: PlayerStakeInfo| r.owner@ == p
}

pub open spec fn in_tier(t: BankTierRisk) -> spec_fn(PlayerStakeInfo) -> bool {
    |r: PlayerStakeInfo| r.bank == t
}

/// Number of open stakes owned by `p`.
pub open spec fn active_stakes(stakes: Seq<PlayerStakeInfo>, p: Seq<u8>) -> nat {
    count_where(stakes, owned_by(p))
}

/// Number of open stakes in tier `t`.
pub open spec fn tier_stakes(stakes: Seq<PlayerStakeInfo>, t: BankTierRisk) -> nat {
    count_where(stakes, in_tier(t))
}

/// Entry `j` belongs to player `p`.
pub open spec fn player_at(players: Seq<PlayerEntry>, j: int, p: Seq<u8>) -> bool {
    0 <= j < players.len() && players[j].key@ == p
}

pub open spec fn has_player(players: Seq<PlayerEntry>, p: Seq<u8>) -> bool {
    exists|j: int| player_at(players, j, p)
}

/// Record `i` is the stake of player `p` on item `m`.
pub open spec fn stake_at(stakes: Seq<PlayerStakeInfo>, i: int, p: Seq<u8>, m: Seq<u8>) -> bool {
    0 <= i < stakes.len() && stakes[i].owner@ == p && stakes[i].mint@ == m
}

pub open spec fn has_stake(stakes: Seq<PlayerStakeInfo>, p: Seq<u8>, m: Seq<u8>) -> bool {
    exists|i: int| stake_at(stakes, i, p, m)
}

impl ProgramState {
    /// The records before the first funding: an unset configuration, no players, no stakes.
    pub fn new() -> (r: ProgramState)
        ensures
            r.wf(),
            !r.global.is_initialized,
            r.global.total_player == 0,
            r.players@.len() == 0,
            r.stakes@.len() == 0,
    {
        let zero = Identity::new([0u8; 32]);
        ProgramState {
            global: Global {
                collection: zero,
                total_supply: 0,
                end_date: 0,
                reward_mint: zero,
                banks: Vec::new(),
                roles: Vec::new(),
                is_initialized: false,
                update_authority: zero,
                total_player: 0,
            },
            players: Vec::new(),
            stakes: Vec::new(),
        }
    }

    /// The records agree with each other: before the first funding nothing exists; after
    /// it the banks are in place; players and stakes are unique by key; each stake's owner
    /// has a player record; each player's active count, and each bank's staked count, is
    /// the number of open stakes it covers.
    pub open spec fn wf(&self) -> bool {
        &&& self.global.is_initialized ==> banks_wf(self.global.banks@)
        &&& !self.global.is_initialized ==> self.players@.len() == 0 && self.stakes@.len() == 0
        &&& forall|a: int, b: int|
            0 <= a < self.players@.len() && 0 <= b < self.players@.len() && #[trigger] self.players@[a].key@
                == #[trigger] self.players@[b].key@ ==> a == b
        &&& forall|a: int, b: int|
            0 <= a < self.stakes@.len() && 0 <= b < self.stakes@.len() && (#[trigger] self.stakes@[a]).owner@
                == (#[trigger] self.stakes@[b]).owner@ && self.stakes@[a].mint@ == self.stakes@[b].mint@
                ==> a == b
        &&& forall|j: int|
            0 <= j < self.players@.len() ==> (#[trigger] self.players@[j]).info.is_initialized
                && self.players@[j].info.active_staked == active_stakes(
                self.stakes@,
                self.players@[j].key@,
            )
        &&& forall|i: int|
            0 <= i < self.stakes@.len() ==> has_player(self.players@, (#[trigger] self.stakes@[i]).owner@)
        &&& self.global.is_initialized ==> forall|k: int|
            0 <= k < 3 ==> (#[trigger] self.global.banks@[k]).total_staked == tier_stakes(
                self.stakes@,
                tier_at(k),
            )
    }
}

pub proof fn lemma_count_push(s: Seq<PlayerStakeInfo>, x: PlayerStakeInfo, f: spec_fn(PlayerStakeInfo) -> bool)
    ensures
        count_where(s.push(x), f) == count_where(s, f) + if f(x) {
            1nat
        } else {
            0nat
        },
{
    assert(s.push(x).drop_last() =~= s);
}

pub proof fn lemma_count_remove(s: Seq<PlayerStakeInfo>, i: int, f: spec_fn(PlayerStakeInfo) -> bool)
    requires
        0 <= i < s.len(),
    ensures
        count_where(s, f) == count_where(s.remove(i), f) + if f(s[i]) {
            1nat
        } else {
            0nat
        },
    decreases s.len(),
{
    if i == s.len() - 1 {
        assert(s.remove(i) =~= s.drop_last());
    } else {
        let d = s.drop_last();
        lemma_count_remove(d, i, f);
        assert(s.remove(i) =~= d.remove(i).push(s.last()));
        lemma_count_push(d.remove(i), s.last(), f);
    }
}

pub proof fn lemma_count_none(s: Seq<PlayerStakeInfo>, f: spec_fn(PlayerStakeInfo) -> bool)
    requires
        forall|i: int| 0 <= i < s.len() ==> !f(#[trigger] s[i]),
    ensures
        count_where(s, f) == 0,
    decreases s.len(),
{
    if s.len() > 0 {
        let d = s.drop_last();
        assert forall|i: int| 0 <= i < d.len() implies !f(#[trigger] d[i]) by {
            assert(d[i] == s[i]);
        }
        lemma_count_none(d, f);
    }
}

/// Position of a tier's bank in `Global::banks`.
pub fn tier_slot(t: BankTierRisk) -> (r: usize)
    ensures
        r as int == tier_index(t),
        r < 3,
        tier_at(r as int) == t,
{
    match t {
        BankTierRisk::Low => 0,
        BankTierRisk::Mid => 1,
        BankTierRisk::High => 2,
    }
}

/// Index of the player record of `p`, if there is one.
pub fn find_player(players: &Vec<PlayerEntry>, p: &Identity) -> (r: Option<usize>)
    ensures
        r matches Some(j) ==> player_at(players@, j as int, p@),
        r is None ==> !has_player(players@, p@),
{
    let mut j: usize = 0;
    while j < players.len()
        invariant
            0 <= j <= players@.len(),
            forall|a: int| 0 <= a < j ==> !player_at(players@, a, p@),
        decreases players@.len() - j,
    {
        if players[j].key.same_as(p) {
            return Some(j);
        }
        j = j + 1;
    }
    None
}

/// Index of the stake record of player `p` on item `m`, if there is one.
pub fn find_stake(stakes: &Vec<PlayerStakeInfo>, p: &Identity, m: &Identity) -> (r: Option<usize>)
    ensures
        r matches Some(i) ==> stake_at(stakes@, i as int, p@, m@),
        r is None ==> !has_stake(stakes@, p@, m@),
{
    let mut i: usize = 0;
    while i < stakes.len()
        invariant
            0 <= i <= stakes@.len(),
            forall|a: int| 0 <= a < i ==> !stake_at(stakes@, a, p@, m@),
        decreases stakes@.len() - i,
    {
        if stakes[i].owner.same_as(p) && stakes[i].mint.same_as(m) {
            return Some(i);
        }
        i = i + 1;
    }
    None
}

/// Every open stake of `p` is counted in `p`'s record, and a player without a record
/// owns no stake.
pub proof fn lemma_active_count(s: ProgramState, p: Seq<u8>)
    requires
        s.wf(),
    ensures
        forall|j: int|
            player_at(s.players@, j, p) ==> #[trigger] s.players@[j].info.active_staked
                == active_stakes(s.stakes@, p),
        !has_player(s.players@, p) ==> active_stakes(s.stakes@, p) == 0,
{
    if !has_player(s.players@, p) {
        assert forall|i: int| 0 <= i < s.stakes@.len() implies !owned_by(p)(
            #[trigger] s.stakes@[i],
        ) by {
            assert(has_player(s.players@, s.stakes@[i].owner@));
        }
        lemma_count_none(s.stakes@, owned_by(p));
    }
}

} // verus!
