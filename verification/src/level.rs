//! Leveling formula: experience required per level, and the carry-over rule
//! that turns accumulated experience into level-ups.

use vstd::prelude::*;

verus! {

/// Experience required to advance past `level`.
pub open spec fn spec_required_exp(level: nat) -> nat {
    (level * 50) / 2
}

/// Result of settling `exp` accumulated experience at `level`: repeatedly
/// subtract the requirement and advance one level while the requirement
/// is met.
pub open spec fn spec_apply_experience(level: nat, exp: nat) -> (nat, nat)
    decreases exp,
{
    if level >= 1 && exp >= spec_required_exp(level) {
        spec_apply_experience(level + 1, (exp - spec_required_exp(level)) as nat)
    } else {
        (level, exp)
    }
}

/// Experience required to advance past `level`, as executable code.
pub fn required_exp(level: u32) -> (r: u64)
    ensures
        r == spec_required_exp(level as nat),
{
    (level as u64) * 50 / 2
}

/// Settle a fresh experience gain: starting from `level` (at least 1) with
/// `exp` accumulated, add `gain` and level up while the requirement is met,
/// carrying leftover experience over. Handles multi-level jumps.
pub fn apply_experience(level: u32, exp: u32, gain: u32) -> (r: (u32, u32))
    requires
        level >= 1,
        exp + gain <= u32::MAX,
    ensures
        (r.0 as nat, r.1 as nat) == spec_apply_experience(level as nat, (exp + gain) as nat),
        r.0 >= level,
{
    let mut lvl: u32 = level;
    let mut e: u32 = exp + gain;
    while e as u64 >= required_exp(lvl)
        invariant
            lvl >= level >= 1,
            spec_apply_experience(lvl as nat, e as nat) == spec_apply_experience(
                level as nat,
                (exp + gain) as nat,
            ),
        decreases e,
    {
        let req = required_exp(lvl);
        proof {
            assert(spec_required_exp(lvl as nat) >= 25);
            assert(spec_required_exp(lvl as nat) <= e);
            // the requirement already exceeds any u32 amount of experience
            // well before the level counter could wrap
            assert(lvl < u32::MAX) by {
                if lvl >= 0xF000_0000 {
                    assert(spec_required_exp(lvl as nat) > u32::MAX);
                }
            }
        }
        e = e - (req as u32);
        lvl = lvl + 1;
    }
    (lvl, e)
}

/// The requirement is monotone: a higher level never asks for less
/// experience.
pub proof fn lemma_required_exp_monotone(l1: nat, l2: nat)
    requires
        l1 <= l2,
    ensures
        spec_required_exp(l1) <= spec_required_exp(l2),
{
}

/// Settling experience always lands strictly below the requirement of the
/// final level, so a player's stored experience is a proper remainder.
pub proof fn lemma_apply_experience_settles(level: nat, exp: nat)
    requires
        level >= 1,
    ensures
        spec_apply_experience(level, exp).1 < spec_required_exp(spec_apply_experience(level, exp).0),
        spec_apply_experience(level, exp).0 >= level,
    decreases exp,
{
    if exp >= spec_required_exp(level) {
        lemma_apply_experience_settles(level + 1, (exp - spec_required_exp(level)) as nat);
    }
}

} // verus!
