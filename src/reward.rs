use vstd::prelude::*;
use crate::error::ErrorCode;
use crate::state::{BankOutcome, BankTierRisk, Identity, outcome_table};

verus! {

/// Seconds in one hour of accrual.
pub const SECONDS_PER_HOUR: u64 = 3600;

/// The first entry at or after position `i`, in stored order, whose odds exceed the draw.
pub open spec fn select_from(outcomes: Seq<BankOutcome>, i: int, draw: nat) -> Option<BankOutcome>
    decreases outcomes.len() - i,
{
    if i < 0 || i >= outcomes.len() {
        None
    } else if outcomes[i].odds as nat > draw {
        Some(outcomes[i])
    } else {
        select_from(outcomes, i + 1, draw)
    }
}

/// The first entry, in stored order, whose odds exceed the draw.
pub open spec fn select_outcome(outcomes: Seq<BankOutcome>, draw: nat) -> Option<BankOutcome> {
    select_from(outcomes, 0, draw)
}

/// Whole hours from `start` to `now`, times the hourly rate.
pub open spec fn base_reward(start: u64, now: u64, reward_per_hour: u64) -> int {
    ((now - start) / (SECONDS_PER_HOUR as int)) * reward_per_hour
}

/// Sum of the odds of the first `n` entries of an outcome table.
pub open spec fn odds_prefix_sum(outcomes: Seq<BankOutcome>, n: int) -> nat
    decreases n,
{
    if n <= 0 {
        0
    } else {
        odds_prefix_sum(outcomes, n - 1) + outcomes[n - 1].odds as nat
    }
}

/// Sum of the odds of an outcome table.
pub open spec fn odds_sum(outcomes: Seq<BankOutcome>) -> nat {
    odds_prefix_sum(outcomes, outcomes.len() as int)
}

/// The largest odds of an outcome table.
pub open spec fn max_odds(risk: BankTierRisk) -> nat {
    match risk {
        BankTierRisk::Low => 54_000,
        BankTierRisk::Mid => 45_000,
        BankTierRisk::High => 49_897,
    }
}

/// Scans an outcome table in stored order for the first entry whose odds exceed `draw`.
pub fn find_outcome(outcomes: &Vec<BankOutcome>, draw: u64) -> (r: Option<BankOutcome>)
    ensures
        r == select_outcome(outcomes@, draw as nat),
{
    let mut i: usize = 0;
    while i < outcomes.len()
        invariant
            0 <= i <= outcomes@.len(),
            select_outcome(outcomes@, draw as nat) == select_from(outcomes@, i as int, draw as nat),
        decreases outcomes@.len() - i,
    {
        let o = outcomes[i];
        if o.odds as u64 > draw {
            return Some(o);
        }
        i = i + 1;
    }
    None
}

/// Payout of a closed stake: the base reward times the selected outcome's multiplier,
/// or `None` where the product does not fit in a `u64`.
pub fn payout(base: u64, chosen: &BankOutcome) -> (r: Option<u64>)
    ensures
        r == (if base * chosen.payout_multiplier <= u64::MAX {
            Some((base * chosen.payout_multiplier) as u64)
        } else {
            None
        }),
{
    base.checked_mul(chosen.payout_multiplier as u64)
}

/// A collection reference held by an item's metadata.
#[derive(Clone, Copy)]
pub struct CollectionRef {
    pub verified: bool,
    pub key: Identity,
}

/// What the metadata registry reports of an item: its collection, if any, and its mint.
#[derive(Clone, Copy)]
pub struct NftMetadata {
    pub collection: Option<CollectionRef>,
    pub mint: Identity,
}

/// The outcome of checking an item against a collection and a claimed mint.
pub open spec fn nft_check(m: NftMetadata, collection: Seq<u8>, mint: Seq<u8>) -> Result<(), ErrorCode> {
    match m.collection {
        Some(c) => if c.verified && c.key@ == collection {
            if m.mint@ == mint {
                Ok(())
            } else {
                Err(ErrorCode::InvalidMintAddress)
            }
        } else {
            Err(ErrorCode::MismatchCollection)
        },
        None => Err(ErrorCode::MismatchCollection),
    }
}

/// Checks that the item is a verified member of `collection` and that its mint is `mint`.
pub fn verify_nft(metadata: &NftMetadata, collection: &Identity, mint: &Identity) -> (r: Result<(), ErrorCode>)
    ensures
        r == nft_check(*metadata, collection@, mint@),
{
    match metadata.collection {
        Some(c) => {
            if c.verified && c.key.same_as(collection) {
                if metadata.mint.same_as(mint) {
                    Ok(())
                } else {
                    Err(ErrorCode::InvalidMintAddress)
                }
            } else {
                Err(ErrorCode::MismatchCollection)
            }
        },
        None => Err(ErrorCode::MismatchCollection),
    }
}

/// Each tier's outcome odds sum to exactly 100 000, and the first-match scan finds an entry for every draw below the tier's largest odds, and
/// for none from there on.
pub proof fn lemma_outcome_table(risk: BankTierRisk, draw: nat)
    ensures
        odds_sum(outcome_table(risk)) == 100_000,
        draw < max_odds(risk) ==> select_outcome(outcome_table(risk), draw) is Some,
        draw >= max_odds(risk) ==> select_outcome(outcome_table(risk), draw) is None,
{
    reveal_with_fuel(odds_prefix_sum, 9);
    reveal_with_fuel(select_from, 10);
    let t = outcome_table(risk);
    assert(t.len() == 8);
    assert(odds_prefix_sum(t, 8) == odds_prefix_sum(t, 4) + t[4].odds + t[5].odds + t[6].odds
        + t[7].odds);
    assert(odds_prefix_sum(t, 4) == t[0].odds as nat + t[1].odds + t[2].odds + t[3].odds);
    match risk {
        BankTierRisk::Low => {
            assert(t[0].odds == 54_000 && t[1].odds == 13_000 && t[2].odds == 2_000 && t[3].odds
                == 1_000 && t[4].odds == 29_947 && t[5].odds == 45 && t[6].odds == 8 && t[7].odds
                == 0);
        },
        BankTierRisk::Mid => {
            assert(t[0].odds == 45_000 && t[1].odds == 10_000 && t[2].odds == 3_000 && t[3].odds
                == 2_000 && t[4].odds == 39_924 && t[5].odds == 68 && t[6].odds == 8 && t[7].odds
                == 0);
        },
        BankTierRisk::High => {
            assert(t[0].odds == 36_000 && t[1].odds == 7_000 && t[2].odds == 4_000 && t[3].odds
                == 3_000 && t[4].odds == 49_897 && t[5].odds == 88 && t[6].odds == 14 && t[7].odds
                == 1);
        },
    }
}

} // verus!
