use vstd::prelude::*;

verus! {

/// A 32-byte account identity (a public key or a mint address).
#[derive(Clone, Copy)]
pub struct Identity {
    pub bytes: [u8; 32],
}

impl View for Identity {
    type V = Seq<u8>;

    open spec fn view(&self) -> Seq<u8> {
        self.bytes@
    }
}

impl Identity {
    pub fn new(bytes: [u8; 32]) -> (r: Identity)
        ensures
            r.bytes == bytes,
    {
        Identity { bytes }
    }

    /// Byte-wise comparison of two identities.
    pub fn same_as(&self, other: &Identity) -> (r: bool)
        ensures
            r == (self@ == other@),
    {
        let mut i: usize = 0;
        while i < 32
            invariant
                0 <= i <= 32,
                self@.len() == 32,
                other@.len() == 32,
                forall|k: int| 0 <= k < i ==> self@[k] == other@[k],
            decreases 32 - i,
        {
            if self.bytes[i] != other.bytes[i] {
                return false;
            }
            i = i + 1;
        }
        assert(self@ =~= other@);
        true
    }
}

/// The three staking pools, by increasing risk.
#[derive(Clone, Copy, PartialEq, Eq, Structural, Debug)]
pub enum BankTierRisk {
    Low,
    Mid,
    High,
}

/// The class of a losing outcome (`Safe` for a winning one).
#[derive(Clone, Copy, PartialEq, Eq, Structural, Debug)]
pub enum NegativeOutcome {
    Safe,
    Fumbled,
    Confiscation,
    Arrested,
    Rekt,
}

/// One weighted entry of a bank's outcome table.
#[derive(Clone, Copy, PartialEq, Eq, Structural, Debug)]
pub struct BankOutcome {
    pub odds: u32,
    pub payout_multiplier: u8,
    pub is_negative: bool,
    pub negative_outcome: NegativeOutcome,
}

/// A staking pool: its tier, reward rate, stake count and outcome table.
pub struct Bank {
    pub bank_tier: BankTierRisk,
    pub reward_per_hour: u64,
    pub total_staked: u64,
    pub bank_outcomes: Vec<BankOutcome>,
}

#[derive(Clone, Copy, PartialEq, Eq, Structural, Debug)]
pub enum RoleType {
    Chimp,
    Gorrila,
}

/// A role of the program's role catalogue.
#[derive(Clone, Copy, PartialEq, Eq, Structural, Debug)]
pub struct Role {
    pub role_type: RoleType,
}

/// The program-wide configuration record.
pub struct Global {
    pub collection: Identity,
    pub total_supply: u64,
    pub end_date: u64,
    pub reward_mint: Identity,
    pub banks: Vec<Bank>,
    pub roles: Vec<Role>,
    pub is_initialized: bool,
    pub update_authority: Identity,
    pub total_player: u64,
}

/// The per-player record.
#[derive(Clone, Copy, PartialEq, Eq, Structural, Debug)]
pub struct PlayerInfo {
    pub is_initialized: bool,
    pub point_balance: u64,
    pub active_staked: u16,
}

/// The record of one open stake.
#[derive(Clone, Copy)]
pub struct PlayerStakeInfo {
    pub owner: Identity,
    pub mint: Identity,
    pub bank: BankTierRisk,
    pub stake_start_time: u64,
    pub role: Role,
}

const DISCRIMINATOR: usize = 8;
const PUBKEY: usize = 32;
const BOOL: usize = 1;
const U8: usize = 1;
const U16: usize = 2;
const U64: usize = 8;
const U32: usize = 4;
const VEC_PREFIX: usize = 4;
const OUTCOMES_PER_BANK: usize = 8;
const BANKS: usize = 3;
const ROLES: usize = 2;
const BANK_OUTCOME: usize = U32 + U8 + BOOL + U8;
const BANK: usize = U8 + U64 + U64 + VEC_PREFIX + OUTCOMES_PER_BANK * BANK_OUTCOME;
const ROLE: usize = U8;

/// Position of a tier in `Global::banks`.
pub open spec fn tier_index(t: BankTierRisk) -> int {
    match t {
        BankTierRisk::Low => 0,
        BankTierRisk::Mid => 1,
        BankTierRisk::High => 2,
    }
}

/// The tier stored at a position of `Global::banks`.
pub open spec fn tier_at(i: int) -> BankTierRisk {
    if i == 0 {
        BankTierRisk::Low
    } else if i == 1 {
        BankTierRisk::Mid
    } else {
        BankTierRisk::High
    }
}

pub open spec fn outcome(neg: bool, class: NegativeOutcome, odds: u32, mult: u8) -> BankOutcome {
    BankOutcome { odds, payout_multiplier: mult, is_negative: neg, negative_outcome: class }
}

/// The fixed outcome table of each tier: four winning entries (multipliers 1, 2, 5, 10),
/// then the four losing classes.
pub open spec fn outcome_table(risk: BankTierRisk) -> Seq<BankOutcome> {
    match risk {
        BankTierRisk::Low => seq![
            outcome(false, NegativeOutcome::Safe, 54_000, 1),
            outcome(false, NegativeOutcome::Safe, 13_000, 2),
            outcome(false, NegativeOutcome::Safe, 2_000, 5),
            outcome(false, NegativeOutcome::Safe, 1_000, 10),
            outcome(true, NegativeOutcome::Fumbled, 29_947, 0),
            outcome(true, NegativeOutcome::Confiscation, 45, 0),
            outcome(true, NegativeOutcome::Arrested, 8, 0),
            outcome(true, NegativeOutcome::Rekt, 0, 0),
        ],
        BankTierRisk::Mid => seq![
            outcome(false, NegativeOutcome::Safe, 45_000, 1),
            outcome(false, NegativeOutcome::Safe, 10_000, 2),
            outcome(false, NegativeOutcome::Safe, 3_000, 5),
            outcome(false, NegativeOutcome::Safe, 2_000, 10),
            outcome(true, NegativeOutcome::Fumbled, 39_924, 0),
            outcome(true, NegativeOutcome::Confiscation, 68, 0),
            outcome(true, NegativeOutcome::Arrested, 8, 0),
            outcome(true, NegativeOutcome::Rekt, 0, 0),
        ],
        BankTierRisk::High => seq![
            outcome(false, NegativeOutcome::Safe, 36_000, 1),
            outcome(false, NegativeOutcome::Safe, 7_000, 2),
            outcome(false, NegativeOutcome::Safe, 4_000, 5),
            outcome(false, NegativeOutcome::Safe, 3_000, 10),
            outcome(true, NegativeOutcome::Fumbled, 49_897, 0),
            outcome(true, NegativeOutcome::Confiscation, 88, 0),
            outcome(true, NegativeOutcome::Arrested, 14, 0),
            outcome(true, NegativeOutcome::Rekt, 1, 0),
        ],
    }
}

/// A bank as first created: the given tier and rate, nothing staked, the tier's table.
pub open spec fn fresh_bank(b: Bank, tier: BankTierRisk, reward_per_hour: u64) -> bool {
    &&& b.bank_tier == tier
    &&& b.reward_per_hour == reward_per_hour
    &&& b.total_staked == 0
    &&& b.bank_outcomes@ == outcome_table(tier)
}

/// One bank per tier, in tier order, each holding its tier's table.
pub open spec fn banks_wf(banks: Seq<Bank>) -> bool {
    &&& banks.len() == 3
    &&& forall|i: int|
        0 <= i < 3 ==> #[trigger] banks[i].bank_tier == tier_at(i) && banks[i].bank_outcomes@
            == outcome_table(tier_at(i))
}

impl BankOutcome {
    pub fn new(
        is_negative: bool,
        negative_outcome: NegativeOutcome,
        odds: u32,
        payout_multiplier: u8,
    ) -> (r: BankOutcome)
        ensures
            r == outcome(is_negative, negative_outcome, odds, payout_multiplier),
    {
        BankOutcome { is_negative, negative_outcome, odds, payout_multiplier }
    }

    /// The outcome table of a tier.
    pub fn generate_bank(risk: BankTierRisk) -> (r: Vec<BankOutcome>)
        ensures
            r@ == outcome_table(risk),
    {
        let mut v: Vec<BankOutcome> = Vec::new();
        match risk {
            BankTierRisk::Low => {
                v.push(BankOutcome::new(false, NegativeOutcome::Safe, 54_000, 1));
                v.push(BankOutcome::new(false, NegativeOutcome::Safe, 13_000, 2));
                v.push(BankOutcome::new(false, NegativeOutcome::Safe, 2_000, 5));
                v.push(BankOutcome::new(false, NegativeOutcome::Safe, 1_000, 10));
                v.push(BankOutcome::new(true, NegativeOutcome::Fumbled, 29_947, 0));
                v.push(BankOutcome::new(true, NegativeOutcome::Confiscation, 45, 0));
                v.push(BankOutcome::new(true, NegativeOutcome::Arrested, 8, 0));
                v.push(BankOutcome::new(true, NegativeOutcome::Rekt, 0, 0));
            },
            BankTierRisk::Mid => {
                v.push(BankOutcome::new(false, NegativeOutcome::Safe, 45_000, 1));
                v.push(BankOutcome::new(false, NegativeOutcome::Safe, 10_000, 2));
                v.push(BankOutcome::new(false, NegativeOutcome::Safe, 3_000, 5));
                v.push(BankOutcome::new(false, NegativeOutcome::Safe, 2_000, 10));
                v.push(BankOutcome::new(true, NegativeOutcome::Fumbled, 39_924, 0));
                v.push(BankOutcome::new(true, NegativeOutcome::Confiscation, 68, 0));
                v.push(BankOutcome::new(true, NegativeOutcome::Arrested, 8, 0));
                v.push(BankOutcome::new(true, NegativeOutcome::Rekt, 0, 0));
            },
            BankTierRisk::High => {
                v.push(BankOutcome::new(false, NegativeOutcome::Safe, 36_000, 1));
                v.push(BankOutcome::new(false, NegativeOutcome::Safe, 7_000, 2));
                v.push(BankOutcome::new(false, NegativeOutcome::Safe, 4_000, 5));
                v.push(BankOutcome::new(false, NegativeOutcome::Safe, 3_000, 10));
                v.push(BankOutcome::new(true, NegativeOutcome::Fumbled, 49_897, 0));
                v.push(BankOutcome::new(true, NegativeOutcome::Confiscation, 88, 0));
                v.push(BankOutcome::new(true, NegativeOutcome::Arrested, 14, 0));
                v.push(BankOutcome::new(true, NegativeOutcome::Rekt, 1, 0));
            },
        }
        assert(v@ =~= outcome_table(risk));
        v
    }
}

impl Bank {
    /// The three banks of a first funding, one per tier in tier order.
    pub fn generate_banks(reward_per_hour: u64) -> (r: Vec<Bank>)
        ensures
            r@.len() == 3,
            forall|i: int| 0 <= i < 3 ==> fresh_bank(#[trigger] r@[i], tier_at(i), reward_per_hour),
            banks_wf(r@),
    {
        let mut v: Vec<Bank> = Vec::new();
        v.push(
            Bank {
                bank_tier: BankTierRisk::Low,
                reward_per_hour,
                total_staked: 0,
                bank_outcomes: BankOutcome::generate_bank(BankTierRisk::Low),
            },
        );
        v.push(
            Bank {
                bank_tier: BankTierRisk::Mid,
                reward_per_hour,
                total_staked: 0,
                bank_outcomes: BankOutcome::generate_bank(BankTierRisk::Mid),
            },
        );
        v.push(
            Bank {
                bank_tier: BankTierRisk::High,
                reward_per_hour,
                total_staked: 0,
                bank_outcomes: BankOutcome::generate_bank(BankTierRisk::High),
            },
        );
        v
    }
}

/// The role catalogue, as a list.
pub open spec fn role_catalogue() -> Seq<Role> {
    seq![Role { role_type: RoleType::Chimp }, Role { role_type: RoleType::Gorrila }]
}

impl Role {
    pub fn new() -> (r: Vec<Role>)
        ensures
            r@ == role_catalogue(),
    {
        let mut v: Vec<Role> = Vec::new();
        v.push(Role { role_type: RoleType::Chimp });
        v.push(Role { role_type: RoleType::Gorrila });
        assert(v@ =~= role_catalogue());
        v
    }

    /// The role a new stake record starts with.
    pub fn default_role() -> (r: Role)
        ensures
            r == role_catalogue()[0],
    {
        Role { role_type: RoleType::Chimp }
    }
}

impl Global {
    /// Bytes reserved for the configuration record: the discriminator, the fixed fields,
    /// and the length-prefixed banks (three, of eight outcomes each) and roles (two).
    pub fn len() -> (r: usize)
        ensures
            r == 8 + 32 + 8 + 8 + 32 + (4 + 3 * (1 + 8 + 8 + 4 + 8 * 7)) + (4 + 2 * 1) + 1 + 32 + 8,
            r == 370,
    {
        DISCRIMINATOR + PUBKEY + U64 + U64 + PUBKEY + (VEC_PREFIX + BANKS * BANK) + (VEC_PREFIX
            + ROLES * ROLE) + BOOL + PUBKEY + U64
    }
}

impl PlayerInfo {
    /// Bytes reserved for a player record.
    pub fn len() -> (r: usize)
        ensures
            r == 8 + 1 + 8 + 2,
    {
        DISCRIMINATOR + BOOL + U64 + U16
    }
}

impl PlayerStakeInfo {
    /// Bytes reserved for a stake record.
    pub fn len() -> (r: usize)
        ensures
            r == 8 + 32 + 32 + 32 + 8 + 1 + 1,
    {
        DISCRIMINATOR + PUBKEY + PUBKEY + PUBKEY + U64 + U8 + U8
    }
}

} // verus!
