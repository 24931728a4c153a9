use vstd::prelude::*;
use crate::state::Identity;

verus! {

/// Multiplier of the linear-congruential step.
pub const LCG_A: u64 = 1664525;

/// Increment of the linear-congruential step.
pub const LCG_C: u64 = 1013904223;

/// Modulus of the linear-congruential step, 2^32.
pub const LCG_M: u64 = 0x1_0000_0000;

/// Exclusive upper bound of a draw.
pub const DRAW_RANGE: u64 = 100_000;

/// Sum of a byte string, each byte read as an unsigned number.
pub open spec fn byte_sum(s: Seq<u8>) -> nat
    decreases s.len(),
{
    if s.len() == 0 {
        0
    } else {
        byte_sum(s.drop_last()) + s.last() as nat
    }
}

/// One linear-congruential step, `(A * x + C) mod 2^32`.
pub open spec fn lcg_step(x: u64) -> nat {
    ((LCG_A * x + LCG_C) % (LCG_M as int)) as nat
}

/// The draw for a clock reading and an identity: the step applied to
/// `time XOR sum(identity bytes)`, scaled from `[0, 2^32)` down to `[0, 100000)`.
pub open spec fn draw(time: u64, key: Seq<u8>) -> nat {
    lcg_step(time ^ (byte_sum(key) as u64)) * (DRAW_RANGE as nat) / (LCG_M as nat)
}

proof fn lemma_scaled_below_range(v: int)
    requires
        0 <= v < 0x1_0000_0000,
    ensures
        0 <= v * 100_000 / 0x1_0000_0000 < 100_000,
{
    assert(v * 100_000 < 100_000 * 0x1_0000_0000) by (nonlinear_arith)
        requires
            0 <= v < 0x1_0000_0000,
    ;
    assert(0 <= v * 100_000) by (nonlinear_arith)
        requires
            0 <= v,
    ;
}

/// The program's pseudo-random number, in `[0, 100000)`.
///
/// Anyone who can read the same clock and identity can compute it in advance:
/// it is predictable, and not fit for anything that must resist tampering.
pub fn generate_random_number(key: &Identity, time: u64) -> (r: u64)
    ensures
        r as nat == draw(time, key@),
        r < DRAW_RANGE,
{
    let mut sum: u64 = 0;
    let mut i: usize = 0;
    while i < 32
        invariant
            0 <= i <= 32,
            key@.len() == 32,
            sum as nat == byte_sum(key@.take(i as int)),
            sum <= 255 * i,
        decreases 32 - i,
    {
        proof {
            assert(key@.take(i + 1).drop_last() =~= key@.take(i as int));
        }
        sum = sum + key.bytes[i] as u64;
        i = i + 1;
    }
    proof {
        assert(key@.take(32) =~= key@);
    }
    let x: u64 = time ^ sum;
    let ax: u128 = LCG_A as u128 * x as u128;
    assert(ax <= 1664525 * 0xffff_ffff_ffff_ffff) by (nonlinear_arith)
        requires
            ax == 1664525 * (x as int),
            x <= 0xffff_ffff_ffff_ffff,
    ;
    let value: u128 = (ax + LCG_C as u128) % (LCG_M as u128);
    proof {
        lemma_scaled_below_range(value as int);
    }
    let scaled: u128 = value * (DRAW_RANGE as u128) / (LCG_M as u128);
    scaled as u64
}

} // verus!
