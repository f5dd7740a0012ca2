use vps_monitor::quantity::Quantity;

fn q(x: f64) -> Quantity {
    Quantity { bits: x.to_bits() }
}

#[test]
fn comparisons_are_those_of_binary64() {
    let values = [
        0.0,
        -0.0,
        1.0,
        -1.0,
        0.1,
        89.9,
        90.0,
        100.0,
        f64::MIN_POSITIVE,
        5e-324,
        -5e-324,
        2.2250738585072011e-308,
        f64::MAX,
        f64::MIN,
        f64::INFINITY,
        f64::NEG_INFINITY,
        f64::NAN,
        -f64::NAN,
        1e300,
        -1e300,
    ];
    for a in values {
        for b in values {
            assert_eq!(q(a).at_least(q(b)), a >= b, "{} >= {}", a, b);
            assert_eq!(q(a).above(q(b)), a > b, "{} > {}", a, b);
        }
    }
}

#[test]
fn widened_single_precision_compares_alike() {
    for a in [0.0f32, 89.9, 90.0, 90.1, 1e-40, f32::INFINITY] {
        for b in [0.0f32, 89.9, 90.0, 90.1, 1e-40, f32::INFINITY] {
            assert_eq!(q(a as f64).at_least(q(b as f64)), a >= b);
        }
    }
}

#[test]
fn constants_have_their_values() {
    assert_eq!(Quantity::zero(), q(0.0));
    assert_eq!(Quantity::eighty(), q(80.0));
    assert_eq!(Quantity::ninety(), q(90.0));
    assert_eq!(Quantity::hundred(), q(100.0));
}

#[test]
fn counts_are_exact() {
    for n in [0u64, 1, 2, 3, 5, 10, 1440, 4503599627370495, 4503599627370496, 9007199254740991] {
        assert_eq!(Quantity::from_count(n), q(n as f64), "{}", n);
    }
}
