use raytracer::scalar::Scalar;

fn num(s: Scalar) -> f64 {
    f64::from_bits(s.to_bits())
}

fn lift(x: f64) -> Scalar {
    Scalar::from_bits(x.to_bits())
}

fn samples() -> Vec<f64> {
    let mut all = vec![
        0.0,
        -0.0,
        1.0,
        -1.0,
        0.5,
        -0.5,
        0.1,
        0.9,
        0.9999,
        1.0001,
        0.99999,
        1.00001,
        1e-4,
        -1e-4,
        0.99e-4,
        1.01e-4,
        2.0,
        -2.0,
        255.0,
        1e300,
        -1e300,
        1e-300,
        -1e-300,
        f64::MIN_POSITIVE,
        -f64::MIN_POSITIVE,
        f64::MIN_POSITIVE / 4.0,
        -f64::MIN_POSITIVE / 4.0,
        f64::from_bits(1),
        f64::MAX,
        f64::MIN,
        f64::INFINITY,
        f64::NEG_INFINITY,
        f64::NAN,
        -f64::NAN,
        f64::EPSILON,
        std::f64::consts::PI,
        1.0 - f64::EPSILON / 2.0,
        1.0 + f64::EPSILON,
    ];
    let mut x = 0.37;
    for _ in 0..40 {
        x = x * 3.7 - 1.1;
        all.push(x);
        all.push(1.0 / x);
        all.push(x * 1e-5);
    }
    all
}

#[test]
fn bits_go_in_and_come_out() {
    for x in samples() {
        assert_eq!(lift(x).to_bits(), x.to_bits());
    }
    assert_eq!(num(Scalar::zero()).to_bits(), 0.0f64.to_bits());
    assert_eq!(num(Scalar::one()), 1.0);
}

#[test]
fn equality_agrees_with_the_float() {
    for x in samples() {
        for y in samples() {
            assert_eq!(lift(x) == lift(y), x == y, "{x} == {y}");
            assert_eq!(lift(x) != lift(y), x != y, "{x} != {y}");
        }
    }
    assert!(lift(0.0) == lift(-0.0));
    assert!(lift(f64::NAN) != lift(f64::NAN));
}

#[test]
fn is_nan_agrees_with_the_float() {
    for x in samples() {
        assert_eq!(lift(x).is_nan(), x.is_nan(), "{x}");
    }
}

#[test]
fn is_finite_agrees_with_the_float() {
    for x in samples() {
        assert_eq!(lift(x).is_finite(), x.is_finite(), "{x}");
    }
}

#[test]
fn is_sign_negative_agrees_with_the_float() {
    for x in samples() {
        assert_eq!(lift(x).is_sign_negative(), x.is_sign_negative(), "{x}");
    }
}

#[test]
fn lt_agrees_with_the_float() {
    for x in samples() {
        for y in samples() {
            assert_eq!(lift(x).lt(lift(y)), x < y, "{x} < {y}");
        }
    }
}

#[test]
fn le_agrees_with_the_float() {
    for x in samples() {
        for y in samples() {
            assert_eq!(lift(x).le(lift(y)), x <= y, "{x} <= {y}");
        }
    }
}

#[test]
fn is_non_negative_agrees_with_the_float() {
    for x in samples() {
        assert_eq!(lift(x).is_non_negative(), x >= 0.0, "{x}");
    }
}

#[test]
fn ordinal_key_orders_as_the_numbers_do() {
    for x in samples() {
        for y in samples() {
            if x.is_nan() || y.is_nan() {
                continue;
            }
            let (a, b) = (lift(x).ordinal_key(), lift(y).ordinal_key());
            assert_eq!(a < b, x < y, "{x} < {y}");
            assert_eq!(a == b, x == y, "{x} == {y}");
        }
    }
    assert_eq!(lift(0.0).ordinal_key(), 0);
    assert_eq!(lift(-0.0).ordinal_key(), 0);
    assert_eq!(lift(f64::from_bits(1)).ordinal_key(), 1);
    assert_eq!(lift(-f64::from_bits(1)).ordinal_key(), -1);
    assert_eq!(lift(1.0).ordinal_key(), 0x3FF0_0000_0000_0000);
}

#[test]
fn neg_agrees_with_the_float() {
    for x in samples() {
        assert_eq!((-lift(x)).to_bits(), (-x).to_bits(), "{x}");
        assert_eq!((-(-lift(x))).to_bits(), x.to_bits(), "{x}");
    }
}

#[test]
fn clamped_agrees_with_the_float() {
    for x in samples() {
        if x.is_nan() {
            continue;
        }
        let expected = x.min(1.0).max(0.0);
        assert_eq!(num(lift(x).clamped()), expected, "{x}");
    }
    assert_eq!(lift(-0.0).clamped().to_bits(), 0);
    assert_eq!(num(lift(f64::NAN).clamped()), 1.0);
    assert_eq!(num(lift(2.3).clamped()), 1.0);
    assert_eq!(num(lift(-6.7).clamped()), 0.0);
    assert_eq!(num(lift(0.8).clamped()), 0.8);
}

#[test]
fn clamping_twice_is_clamping_once() {
    for x in samples() {
        let once = lift(x).clamped();
        assert_eq!(once.clamped().to_bits(), once.to_bits(), "{x}");
    }
}

#[test]
fn to_channel_of_each_level() {
    for k in 0..=255u32 {
        let x = k as f64 / 255.0;
        assert_eq!(lift(x).to_channel() as u32, k, "{x}");
    }
}

#[test]
fn to_channel_rounds_to_the_nearest_level() {
    assert_eq!(lift(0.0).to_channel(), 0);
    assert_eq!(lift(1.0).to_channel(), 255);
    assert_eq!(lift(0.5).to_channel(), 128);
    assert_eq!(lift(0.8).to_channel(), 204);
    assert_eq!(lift(0.6).to_channel(), 153);
    assert_eq!(lift(0.001).to_channel(), 0);
    assert_eq!(lift(0.00196).to_channel(), 0);
    assert_eq!(lift(0.00197).to_channel(), 1);
    assert_eq!(lift(0.998).to_channel(), 254);
    assert_eq!(lift(0.99804).to_channel(), 255);
    assert_eq!(lift(1.0 - f64::EPSILON / 2.0).to_channel(), 255);
    assert_eq!(lift(f64::MIN_POSITIVE).to_channel(), 0);
    assert_eq!(lift(f64::from_bits(1)).to_channel(), 0);
    assert_eq!(lift(1e-30).to_channel(), 0);
}

#[test]
fn to_channel_clamps_first() {
    assert_eq!(lift(1.5).to_channel(), 255);
    assert_eq!(lift(f64::INFINITY).to_channel(), 255);
    assert_eq!(lift(f64::NAN).to_channel(), 255);
    assert_eq!(lift(-0.5).to_channel(), 0);
    assert_eq!(lift(-0.0).to_channel(), 0);
    assert_eq!(lift(f64::NEG_INFINITY).to_channel(), 0);
}

#[test]
fn to_channel_agrees_with_the_float_away_from_the_halves() {
    let mut x = 0.0;
    while x <= 1.0 {
        let scaled: f64 = x * 255.0;
        if (scaled - scaled.floor() - 0.5).abs() > 1e-9 {
            assert_eq!(lift(x).to_channel() as f64, scaled.round(), "{x}");
        }
        x += 0.000_137;
    }
}

#[test]
fn to_index_agrees_with_the_float() {
    for x in samples() {
        assert_eq!(lift(x).to_index(), x.round() as usize, "{x}");
    }
    let mut x = 0.0;
    while x < 3000.0 {
        assert_eq!(lift(x).to_index(), x.round() as usize, "{x}");
        x += 0.125;
    }
    for k in 0..64 {
        let x = (1u64 << k) as f64;
        assert_eq!(lift(x).to_index(), x as usize, "{x}");
        assert_eq!(lift(x + 0.5).to_index(), (x + 0.5).round() as usize, "{x}");
        assert_eq!(lift(x * 1.5).to_index(), (x * 1.5).round() as usize, "{x}");
    }
}

#[test]
fn to_index_at_the_edges() {
    assert_eq!(lift(0.0).to_index(), 0);
    assert_eq!(lift(0.49999999).to_index(), 0);
    assert_eq!(lift(0.5).to_index(), 1);
    assert_eq!(lift(1.5).to_index(), 2);
    assert_eq!(lift(2.5).to_index(), 3);
    assert_eq!(lift(-0.0).to_index(), 0);
    assert_eq!(lift(-7.0).to_index(), 0);
    assert_eq!(lift(f64::NAN).to_index(), 0);
    assert_eq!(lift(f64::INFINITY).to_index(), usize::MAX);
    assert_eq!(lift(1e19).to_index(), 10_000_000_000_000_000_000);
    assert_eq!(lift(1.8446744073709552e19).to_index(), usize::MAX);
    assert_eq!(lift(9007199254740993.0).to_index(), 9007199254740992);
    assert_eq!(lift(4503599627370496.5).to_index(), 4503599627370496);
    assert_eq!(lift(f64::MIN_POSITIVE).to_index(), 0);
}

#[test]
fn approx_eq_agrees_with_the_float_away_from_the_tolerance() {
    for x in samples() {
        for y in samples() {
            let d = (x - y).abs();
            if d.is_nan() {
                assert!(!lift(x).approx_eq(lift(y)), "{x} {y}");
            } else if (d - 1e-4).abs() > 1e-12 {
                assert_eq!(lift(x).approx_eq(lift(y)), d < 1e-4, "{x} {y}");
            }
        }
    }
}

#[test]
fn approx_eq_at_the_tolerance() {
    assert!(lift(1.0).approx_eq(lift(1.00009)));
    assert!(lift(1.0).approx_eq(lift(0.99991)));
    assert!(!lift(1.0).approx_eq(lift(1.00011)));
    assert!(!lift(1.0).approx_eq(lift(0.99989)));
    assert!(lift(0.0).approx_eq(lift(0.00001)));
    assert!(lift(0.0).approx_eq(lift(-0.00009999)));
    assert!(!lift(0.0).approx_eq(lift(0.00010001)));
    assert!(lift(-0.00004).approx_eq(lift(0.00005)));
    assert!(!lift(-0.00006).approx_eq(lift(0.00005)));
    assert!(lift(0.0).approx_eq(lift(-0.0)));
    assert!(lift(1e300).approx_eq(lift(1e300)));
    assert!(!lift(1e300).approx_eq(lift(1.0000001e300)));
    assert!(lift(1e-300).approx_eq(lift(-1e-310)));
    assert!(lift(0.99e-4).approx_eq(lift(f64::from_bits(1))));
    assert!(!lift(1.01e-4).approx_eq(lift(-f64::from_bits(1))));
}

#[test]
fn approx_eq_takes_the_tolerance_as_the_exact_ten_thousandth() {
    // The double nearest to one ten-thousandth lies above it.
    let nearest = 1e-4f64;
    let below = f64::from_bits(nearest.to_bits() - 1);

    assert!(!lift(nearest).approx_eq(lift(0.0)));
    assert!(lift(below).approx_eq(lift(0.0)));
    assert!(!lift(0.0).approx_eq(lift(-nearest)));
    assert!(lift(0.0).approx_eq(lift(-below)));
    assert!(!lift(nearest).approx_eq(lift(f64::MIN_POSITIVE)));
    assert!(!lift(nearest).approx_eq(lift(-f64::MIN_POSITIVE)));
    assert!(lift(below).approx_eq(lift(f64::MIN_POSITIVE)));
    assert!(lift(below).approx_eq(lift(-f64::MIN_POSITIVE)));
    assert!(lift(nearest).approx_eq(lift(1e-20)));
    assert!(!lift(nearest).approx_eq(lift(1e-21)));
    assert!(lift(below).approx_eq(lift(-1e-21)));
    assert!(!lift(below).approx_eq(lift(-1e-20)));
}

#[test]
fn approx_eq_of_what_is_not_finite() {
    for x in [f64::INFINITY, f64::NEG_INFINITY, f64::NAN] {
        for y in samples() {
            assert!(!lift(x).approx_eq(lift(y)), "{x} {y}");
            assert!(!lift(y).approx_eq(lift(x)), "{y} {x}");
        }
    }
}

#[test]
fn approx_eq_does_not_depend_on_the_order() {
    for x in samples() {
        for y in samples() {
            assert_eq!(lift(x).approx_eq(lift(y)), lift(y).approx_eq(lift(x)), "{x} {y}");
        }
    }
}
