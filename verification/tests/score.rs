use damage_calc::score::{INFINITY_BITS, SIGN_BIT};
use damage_calc::{best_unused, score_key};
use ordered_float::OrderedFloat;

fn samples() -> Vec<f64> {
    vec![
        f64::NEG_INFINITY,
        f64::MIN,
        -1.0e300,
        -51.0,
        -1.5,
        -1.0,
        -f64::MIN_POSITIVE,
        -5e-324,
        -0.0,
        0.0,
        5e-324,
        f64::MIN_POSITIVE,
        0.5,
        1.0,
        1.35,
        51.0,
        78.73660272,
        100.0,
        1.0e300,
        f64::MAX,
        f64::INFINITY,
        f64::NAN,
        -f64::NAN,
        f64::from_bits(0x7ff0_0000_0000_0001),
        f64::from_bits(0xffff_ffff_ffff_ffff),
    ]
}

#[test]
fn keys_order_as_ordered_floats_do() {
    let values = samples();
    for &a in &values {
        for &b in &values {
            let (ka, kb) = (score_key(a.to_bits()), score_key(b.to_bits()));
            assert_eq!(ka < kb, OrderedFloat(a) < OrderedFloat(b), "{a} < {b}");
            assert_eq!(ka == kb, OrderedFloat(a) == OrderedFloat(b), "{a} == {b}");
            assert_eq!(ka.cmp(&kb), OrderedFloat(a).cmp(&OrderedFloat(b)), "{a} cmp {b}");
        }
    }
}

#[test]
fn keys_of_special_values() {
    assert_eq!(score_key(0.0f64.to_bits()), SIGN_BIT);
    assert_eq!(score_key((-0.0f64).to_bits()), SIGN_BIT);
    assert_eq!(score_key(f64::INFINITY.to_bits()), SIGN_BIT + INFINITY_BITS);
    assert_eq!(score_key(f64::NEG_INFINITY.to_bits()), SIGN_BIT - INFINITY_BITS);
    assert_eq!(score_key(f64::NAN.to_bits()), u64::MAX);
    assert_eq!(score_key(u64::MAX), u64::MAX);
    assert_eq!(score_key(1.0f64.to_bits()), 0xbff0_0000_0000_0000);
    assert_eq!(score_key((-1.0f64).to_bits()), 0x4010_0000_0000_0000);
    assert_ne!(score_key(1.0f64.to_bits()), 1.0f64.to_bits());
}

#[test]
fn keys_follow_neighbouring_numbers() {
    let mut x = -3.0f64;
    while x < 3.0 {
        let next = x + 0.001;
        assert!(score_key(x.to_bits()) < score_key(next.to_bits()));
        x = next;
    }
}

#[test]
fn highest_damage_wins_a_round() {
    let damages = [1.0e12, 3.5e12, 3.5e12, -1.0, 2.0e12];
    let keys: Vec<u64> = damages.iter().map(|d: &f64| score_key(d.to_bits())).collect();
    assert_eq!(best_unused(&vec![false; 5], &keys), Some(1));
    assert_eq!(best_unused(&vec![false, true, false, false, false], &keys), Some(2));
    assert_eq!(best_unused(&vec![false, true, true, false, false], &keys), Some(4));
    assert_eq!(best_unused(&vec![true, true, true, false, true], &keys), Some(3));
}
