use snd_core::level::{apply_experience, required_exp};

#[test]
fn required_exp_is_half_of_fifty_per_level() {
    assert_eq!(required_exp(1), 25);
    assert_eq!(required_exp(2), 50);
    assert_eq!(required_exp(3), 75);
    assert_eq!(required_exp(10), 250);
    // the floor in the formula: 3 * 50 / 2 has no remainder, but an odd
    // product would be floored; spot-check monotonicity as well
    let mut prev: u64 = 0;
    for l in 1..200u32 {
        let r = required_exp(l);
        assert!(r >= prev);
        prev = r;
    }
}

#[test]
fn a_large_gain_settles_into_many_levels() {
    // 25 + 50 + 75 + 100 + 125 + 150 + 175 + 200 = 900, leaving 100
    // below the 225 required at level 9
    let (level, exp) = apply_experience(1, 0, 1000);
    assert_eq!(level, 9);
    assert_eq!(exp, 100);
    assert!((exp as u64) < required_exp(level));
}

#[test]
fn exact_boundary_levels_up_with_nothing_left() {
    assert_eq!(apply_experience(1, 0, 25), (2, 0));
    assert_eq!(apply_experience(1, 20, 5), (2, 0));
    assert_eq!(apply_experience(2, 49, 0), (2, 49));
    assert_eq!(apply_experience(2, 49, 1), (3, 0));
}

#[test]
fn small_gains_do_not_level() {
    assert_eq!(apply_experience(1, 0, 24), (1, 24));
    assert_eq!(apply_experience(5, 10, 10), (5, 20));
}
