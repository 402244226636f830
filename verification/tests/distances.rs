// Distances are binary64 numbers given by their bit patterns: which patterns
// are numbers, and how the numbers are ordered.

use raytracer::distance::{bits_are_nan, Distance, HIDDEN_BIT, INFINITY_BITS, SIGN_BIT};
use raytracer::scene::nearest;

fn distance(x: f64) -> Distance {
    Distance::new(x.to_bits()).unwrap()
}

fn samples() -> Vec<f64> {
    vec![
        f64::NEG_INFINITY,
        f64::MIN,
        -1.0e300,
        -90.0,
        -40.0,
        -1.0,
        -f64::MIN_POSITIVE,
        -f64::from_bits(1),
        -0.0,
        0.0,
        f64::from_bits(1),
        f64::from_bits(HIDDEN_BIT - 1),
        f64::MIN_POSITIVE,
        0.5,
        1.0,
        1.0 + f64::EPSILON,
        2.0,
        40.0,
        50.0,
        90.0,
        1.0e300,
        f64::MAX,
        f64::INFINITY,
    ]
}

#[test]
fn constants_are_the_binary64_layout() {
    assert_eq!(SIGN_BIT, (-0.0f64).to_bits());
    assert_eq!(INFINITY_BITS, f64::INFINITY.to_bits());
    assert_eq!(HIDDEN_BIT, 1u64 << 52);
    assert_eq!(f64::MIN_POSITIVE.to_bits(), HIDDEN_BIT);
}

#[test]
fn a_nan_is_no_distance() {
    let nans = [
        f64::NAN.to_bits(),
        (-f64::NAN).to_bits(),
        0x7ff0_0000_0000_0001,
        0x7ff8_0000_0000_0000,
        0x7fff_ffff_ffff_ffff,
        0xfff0_0000_0000_0001,
        0xffff_ffff_ffff_ffff,
        (0.0f64 / 0.0).to_bits(),
    ];
    for bits in nans {
        assert!(f64::from_bits(bits).is_nan());
        assert!(bits_are_nan(bits));
        assert!(Distance::new(bits).is_none());
    }
}

#[test]
fn every_number_is_a_distance_and_keeps_its_bits() {
    for x in samples() {
        assert!(!bits_are_nan(x.to_bits()));
        let d = Distance::new(x.to_bits()).unwrap();
        assert_eq!(d.to_bits(), x.to_bits());
        assert_eq!(f64::from_bits(d.to_bits()).to_bits(), x.to_bits());
    }
}

#[test]
fn infinities_are_numbers() {
    assert!(Distance::new(0x7ff0_0000_0000_0000).is_some());
    assert!(Distance::new(0xfff0_0000_0000_0000).is_some());
    assert!(distance(f64::MAX).lt(&distance(f64::INFINITY)));
    assert!(distance(f64::NEG_INFINITY).lt(&distance(f64::MIN)));
    assert!(!distance(f64::INFINITY).lt(&distance(f64::INFINITY)));
}

#[test]
fn lt_orders_as_the_numbers_do() {
    let xs = samples();
    for &a in &xs {
        for &b in &xs {
            assert_eq!(distance(a).lt(&distance(b)), a < b, "{a:e} < {b:e}");
        }
    }
}

#[test]
fn the_two_zeros_are_one_number() {
    assert!(!distance(0.0).lt(&distance(-0.0)));
    assert!(!distance(-0.0).lt(&distance(0.0)));
    assert!(distance(-0.0).lt(&distance(f64::from_bits(1))));
    assert!(distance(-f64::from_bits(1)).lt(&distance(0.0)));
}

#[test]
fn lt_is_exact_between_neighbours() {
    let a = 40.0f64;
    let b = f64::from_bits(a.to_bits() + 1);
    assert!(distance(a).lt(&distance(b)));
    assert!(!distance(b).lt(&distance(a)));
    assert!(distance(-b).lt(&distance(-a)));
    assert!(!distance(-a).lt(&distance(-b)));
}

#[test]
fn nearest_of_nothing_is_nothing() {
    assert_eq!(nearest(&vec![]), None);
    assert_eq!(nearest(&vec![None]), None);
    assert_eq!(nearest(&vec![None, None, None]), None);
}

#[test]
fn nearest_is_the_shortest_in_any_order() {
    let (d40, d90) = (Some(distance(40.0)), Some(distance(90.0)));
    assert_eq!(nearest(&vec![d40, d90]), Some(0));
    assert_eq!(nearest(&vec![d90, d40]), Some(1));
    assert_eq!(nearest(&vec![None, d90, None, d40, None]), Some(3));
    assert_eq!(nearest(&vec![d90]), Some(0));
    assert_eq!(nearest(&vec![None, None, d90]), Some(2));
}

#[test]
fn nearest_of_equals_is_the_first() {
    let (d40, d90) = (Some(distance(40.0)), Some(distance(90.0)));
    assert_eq!(nearest(&vec![d90, d40, d40, d40]), Some(1));
    assert_eq!(nearest(&vec![d40, d90, d40]), Some(0));
    assert_eq!(nearest(&vec![Some(distance(0.0)), Some(distance(-0.0))]), Some(0));
    assert_eq!(nearest(&vec![Some(distance(-0.0)), Some(distance(0.0))]), Some(0));
}

#[test]
fn nearest_over_every_rotation_of_the_samples() {
    let xs: Vec<f64> = samples().into_iter().filter(|x| *x >= 0.5).collect();
    for shift in 0..xs.len() {
        let mut rotated = xs.clone();
        rotated.rotate_left(shift);
        let hits: Vec<_> = rotated.iter().map(|x| Some(distance(*x))).collect();
        let i = nearest(&hits).unwrap();
        assert_eq!(rotated[i], 0.5);
    }
}
