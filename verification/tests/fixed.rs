use simulation::{clamp, is_weighable, minus, Fixed, RandomSource, Scalar, SeededSource};

fn fixed(micros: i64) -> Fixed {
    Fixed::from_micros(micros)
}

fn rng() -> SeededSource {
    SeededSource::new(0)
}

#[test]
fn fixed_keeps_its_millionths() {
    assert_eq!(fixed(1_250_000).micros(), 1_250_000);
    assert_eq!(fixed(-7).micros(), -7);
    assert_eq!(Fixed::zero(), fixed(0));
    assert_eq!(Fixed::one(), fixed(1_000_000));
    assert_eq!(Fixed::top(), fixed(i64::MAX));
}

#[test]
fn fixed_addition_is_exact_and_saturates() {
    assert_eq!(fixed(500_000).plus(fixed(250_000)), fixed(750_000));
    assert_eq!(fixed(500_000).plus(fixed(-750_000)), fixed(-250_000));
    assert_eq!(fixed(i64::MAX).plus(fixed(1)), fixed(i64::MAX));
    assert_eq!(fixed(i64::MIN).plus(fixed(-1)), fixed(i64::MIN));
    assert_eq!(fixed(i64::MAX).plus(fixed(i64::MIN)), fixed(-1));
}

#[test]
fn fixed_subtraction_adds_the_negation() {
    assert_eq!(minus(fixed(250_000), fixed(1_000_000)), fixed(-750_000));
    assert_eq!(minus(fixed(0), fixed(i64::MIN)), fixed(i64::MAX));
}

#[test]
fn fixed_multiplication_rounds_toward_zero_and_saturates() {
    assert_eq!(fixed(1_500_000).times(fixed(2_000_000)), fixed(3_000_000));
    assert_eq!(fixed(-300_000).times(fixed(500_000)), fixed(-150_000));
    assert_eq!(fixed(-300_000).times(fixed(-500_000)), fixed(150_000));
    assert_eq!(fixed(1).times(fixed(500_000)), fixed(0));
    assert_eq!(fixed(-1).times(fixed(500_000)), fixed(0));
    assert_eq!(fixed(3).times(fixed(500_000)), fixed(1));
    assert_eq!(fixed(-3).times(fixed(500_000)), fixed(-1));
    assert_eq!(fixed(i64::MAX).times(fixed(2_000_000)), fixed(i64::MAX));
    assert_eq!(fixed(i64::MAX).times(fixed(-2_000_000)), fixed(i64::MIN));
    assert_eq!(fixed(i64::MIN).times(fixed(i64::MIN)), fixed(i64::MAX));
}

#[test]
fn fixed_negation_saturates_at_the_least_value() {
    assert_eq!(fixed(250_000).negated(), fixed(-250_000));
    assert_eq!(fixed(0).negated(), fixed(0));
    assert_eq!(fixed(i64::MIN).negated(), fixed(i64::MAX));
}

#[test]
fn fixed_division_rounds_toward_zero() {
    assert_eq!(fixed(1_000_000).divided_by(fixed(4_000_000)), fixed(250_000));
    assert_eq!(fixed(-1_000_000).divided_by(fixed(3_000_000)), fixed(-333_333));
    assert_eq!(fixed(1_000_000).divided_by(fixed(-3_000_000)), fixed(-333_333));
    assert_eq!(fixed(-1_000_000).divided_by(fixed(-3_000_000)), fixed(333_333));
    assert_eq!(fixed(i64::MAX).divided_by(fixed(1)), fixed(i64::MAX));
    assert_eq!(fixed(i64::MIN).divided_by(fixed(-1_000_000)), fixed(i64::MAX));
}

#[test]
fn fixed_division_by_zero_goes_to_the_end_of_the_range() {
    assert_eq!(fixed(1).divided_by(fixed(0)), fixed(i64::MAX));
    assert_eq!(fixed(-1).divided_by(fixed(0)), fixed(i64::MIN));
    assert_eq!(fixed(0).divided_by(fixed(0)), fixed(0));
}

#[test]
fn fixed_division_by_a_count_rounds_toward_zero() {
    assert_eq!(fixed(1_000_000).over_count(3), fixed(333_333));
    assert_eq!(fixed(-1_000_000).over_count(3), fixed(-333_333));
    assert_eq!(fixed(10_000_000).over_count(4), fixed(2_500_000));
    assert_eq!(fixed(i64::MIN).over_count(1), fixed(i64::MIN));
}

#[test]
fn fixed_magnitude_drops_the_sign() {
    assert_eq!(fixed(-250_000).magnitude(), fixed(250_000));
    assert_eq!(fixed(250_000).magnitude(), fixed(250_000));
    assert_eq!(fixed(i64::MIN).magnitude(), fixed(i64::MAX));
}

#[test]
fn fixed_counts_and_indices_convert() {
    assert_eq!(Fixed::from_count(3), fixed(3_000_000));
    assert_eq!(Fixed::from_count(0), fixed(0));
    assert_eq!(Fixed::from_count(usize::MAX), fixed(i64::MAX));
    assert_eq!(fixed(2_999_999).to_index(), 2);
    assert_eq!(fixed(3_000_000).to_index(), 3);
    assert_eq!(fixed(999_999).to_index(), 0);
    assert_eq!(fixed(-5_000_000).to_index(), 0);
}

#[test]
fn fixed_order_compares_millionths() {
    assert!(fixed(1).less_than(fixed(2)));
    assert!(!fixed(2).less_than(fixed(2)));
    assert!(fixed(2).at_most(fixed(2)));
    assert!(!fixed(3).at_most(fixed(2)));
    assert!(fixed(-1).less_than(fixed(0)));
}

#[test]
fn fixed_rectified_is_never_below_zero() {
    assert_eq!(fixed(1_150_000).rectified(), fixed(1_150_000));
    assert_eq!(fixed(-4_500_000).rectified(), fixed(0));
    assert_eq!(fixed(0).rectified(), fixed(0));
    assert_eq!(fixed(i64::MIN).rectified(), fixed(0));
}

#[test]
fn clamp_keeps_a_scalar_within_its_bounds() {
    assert_eq!(clamp(fixed(5), fixed(1), fixed(3)), fixed(3));
    assert_eq!(clamp(fixed(-5), fixed(1), fixed(3)), fixed(1));
    assert_eq!(clamp(fixed(2), fixed(1), fixed(3)), fixed(2));
    assert_eq!(clamp(fixed(1), fixed(1), fixed(3)), fixed(1));
    assert_eq!(clamp(fixed(3), fixed(1), fixed(3)), fixed(3));
}

#[test]
fn weights_are_weighable_when_none_is_negative_and_some_is_positive() {
    assert!(is_weighable(&vec![fixed(0), fixed(1)]));
    assert!(is_weighable(&vec![fixed(1_000_000), fixed(2_000_000)]));
    assert!(!is_weighable(&vec![fixed(0), fixed(0)]));
    assert!(!is_weighable(&Vec::<Fixed>::new()));
    assert!(!is_weighable(&vec![fixed(-1), fixed(5)]));
    assert!(!is_weighable(&vec![fixed(i64::MAX), fixed(1)]));
    assert!(!is_weighable(&vec![fixed(i64::MAX)]));
    assert!(is_weighable(&vec![fixed(i64::MAX - 1)]));
}

#[test]
fn unit_draws_lie_in_the_unit_interval_and_vary() {
    let mut rng = rng();
    let draws: Vec<Fixed> = (0..1000).map(|_| rng.draw_unit()).collect();
    assert!(draws.iter().all(|d| 0 <= d.micros() && d.micros() < 1_000_000));
    assert!(draws.iter().any(|d| d.micros() < 100_000));
    assert!(draws.iter().any(|d| d.micros() >= 900_000));
    let mean = draws.iter().map(|d| d.micros()).sum::<i64>() / 1000;
    assert!((450_000..550_000).contains(&mean));
}

#[test]
fn weight_draws_lie_between_minus_one_and_one() {
    let mut rng = rng();
    let draws: Vec<Fixed> = (0..1000).map(|_| rng.draw_weight()).collect();
    assert!(draws
        .iter()
        .all(|d| -1_000_000 <= d.micros() && d.micros() <= 1_000_000));
    assert!(draws.iter().any(|d| d.micros() < -500_000));
    assert!(draws.iter().any(|d| d.micros() > 500_000));
}

#[test]
fn draws_below_a_bound_stay_below_it() {
    let mut rng = rng();
    let bound = fixed(2_500_000);
    let draws: Vec<Fixed> = (0..1000).map(|_| rng.draw_below(bound)).collect();
    assert!(draws.iter().all(|d| 0 <= d.micros() && d.micros() < 2_500_000));
    assert!(draws.iter().any(|d| d.micros() > 2_000_000));
    assert_eq!(rng.draw_below(fixed(1)), fixed(0));
}

#[test]
fn an_event_of_chance_zero_never_happens_and_one_of_chance_one_always() {
    let mut rng = rng();
    assert!((0..1000).all(|_| !rng.strikes(fixed(0))));
    assert!((0..1000).all(|_| rng.strikes(fixed(1_000_000))));
    let hits = (0..10_000)
        .filter(|_| rng.strikes(fixed(250_000)))
        .count();
    assert!((2_300..2_700).contains(&hits));
}

#[test]
fn a_fair_coin_shows_both_sides() {
    let mut rng = rng();
    let heads = (0..10_000).filter(|_| rng.flip()).count();
    assert!((4_700..5_300).contains(&heads));
}

#[test]
fn a_weighted_pick_follows_the_weights() {
    let mut rng = rng();
    let weights = vec![
        fixed(1_000_000),
        fixed(2_000_000),
        fixed(3_000_000),
        fixed(4_000_000),
    ];
    let mut counts = [0usize; 4];
    for _ in 0..10_000 {
        counts[rng.pick_weighted(&weights)] += 1;
    }
    assert!((800..1_200).contains(&counts[0]));
    assert!((1_800..2_200).contains(&counts[1]));
    assert!((2_800..3_200).contains(&counts[2]));
    assert!((3_800..4_200).contains(&counts[3]));
}

#[test]
fn a_weighted_pick_never_takes_a_weight_of_zero() {
    let mut rng = rng();
    let weights = vec![fixed(0), fixed(5), fixed(0), fixed(1), fixed(0)];
    for _ in 0..1_000 {
        let index = rng.pick_weighted(&weights);
        assert!(index == 1 || index == 3);
    }
    assert_eq!(rng.pick_weighted(&vec![fixed(0), fixed(7)]), 1);
}

#[test]
fn the_same_seed_gives_the_same_draws() {
    let draw = |seed: u64| {
        let mut rng = SeededSource::new(seed);
        let draws: Vec<Fixed> = (0..20).map(|_| rng.draw_unit()).collect();
        draws
    };
    assert_eq!(draw(7), draw(7));
    assert_ne!(draw(7), draw(8));
}

#[test]
fn a_fixed_point_number_is_brought_into_the_unit_interval() {
    assert_eq!(fixed(250_000).wrapped(), fixed(250_000));
    assert_eq!(fixed(0).wrapped(), fixed(0));
    assert_eq!(fixed(999_999).wrapped(), fixed(999_999));
    assert_eq!(fixed(1_000_000).wrapped(), fixed(0));
    assert_eq!(fixed(1_250_000).wrapped(), fixed(250_000));
    assert_eq!(fixed(-250_000).wrapped(), fixed(750_000));
    assert_eq!(fixed(-1).wrapped(), fixed(999_999));
    assert_eq!(fixed(-1_000_000).wrapped(), fixed(0));
    assert_eq!(fixed(-3_000_001).wrapped(), fixed(999_999));
    assert_eq!(fixed(i64::MAX).wrapped(), fixed(775_807));
    assert_eq!(fixed(i64::MIN).wrapped(), fixed(224_192));
}
