use ai_semantic_cache::ieee::{double_of, fixed, narrow, widen, Single};

fn single(v: f32) -> Single {
    Single { bits: v.to_bits() }
}

/// A spread of bit patterns, the same in every run.
fn patterns() -> Vec<u64> {
    let mut out = Vec::new();
    let mut x: u64 = 0x9e37_79b9_7f4a_7c15;
    for _ in 0..20000 {
        x ^= x << 13;
        x ^= x >> 7;
        x ^= x << 17;
        out.push(x);
    }
    out
}

#[test]
fn narrowing_is_a_cast() {
    let mut cases: Vec<f64> = vec![
        0.0, -0.0, 1.0, 0.1, 0.92, 1e-45, 7e-46, 7.006492321624086e-46, 1.401298464324817e-45,
        2.1019476964872256e-45, 1.17549435e-38, 1.1754942e-38, 3.4028234663852886e38,
        3.4028235677973366e38, 3.4028235677973362e38, 1e39, -1e300, 5e-324, f64::MAX,
        f64::INFINITY, f64::NEG_INFINITY, 16777217.0, 16777219.0, 0.953,
    ];
    for p in patterns() {
        cases.push(f64::from_bits(p));
        // Exponents near those of single precision.
        let e = 870 + (p >> 20) % 290;
        cases.push(f64::from_bits((p & 0x800f_ffff_ffff_ffff) | (e << 52)));
        // Midpoints between neighbours.
        cases.push(f64::from_bits(((p & 0x800f_ffff_ffff_ffff) | (e << 52)) & !0x1fff_ffff | 0x1000_0000));
    }
    for v in cases {
        let want = v as f32;
        let got = f32::from_bits(narrow(v.to_bits()).bits);
        if v.is_nan() {
            assert!(got.is_nan());
        } else {
            assert_eq!(got.to_bits(), want.to_bits(), "{v:e}");
        }
    }
}

#[test]
fn widening_is_a_cast() {
    let mut cases: Vec<u32> = vec![0, 0x8000_0000, 1, 2, 3, 0x7f_ffff, 0x80_0000, 0x7f7f_ffff];
    for p in patterns() {
        cases.push(p as u32);
        cases.push(p as u32 & 0x807f_ffff);
    }
    for bits in cases {
        let v = f32::from_bits(bits);
        let want = if v.is_finite() { Some((v as f64).to_bits()) } else { None };
        assert_eq!(widen(Single { bits }), want, "{v:e}");
    }
}

#[test]
fn widening_then_narrowing_changes_nothing() {
    for p in patterns() {
        let s = Single { bits: p as u32 };
        if let Some(bits) = widen(s) {
            assert_eq!(narrow(bits), s);
        }
    }
}

#[test]
fn whole_numbers_become_doubles() {
    let mut cases: Vec<u64> = vec![0, 1, 2, 200, (1 << 53) - 1, 1 << 53, (1 << 53) + 1, u64::MAX];
    for p in patterns() {
        cases.push(p);
        cases.push(p >> (p % 64));
    }
    for n in cases {
        assert_eq!(double_of(n), (n as f64).to_bits(), "{n}");
    }
}

#[test]
fn order_is_that_of_the_numbers() {
    let mut cases: Vec<f32> = vec![
        0.0, -0.0, 1.0, -1.0, 0.92, f32::MIN_POSITIVE, f32::INFINITY, f32::NEG_INFINITY, f32::NAN,
    ];
    for p in patterns().iter().take(200) {
        cases.push(f32::from_bits(*p as u32));
    }
    for a in &cases {
        for b in &cases {
            assert_eq!(single(*a).ge(single(*b)), a >= b, "{a:e} {b:e}");
        }
    }
}

#[test]
fn four_digits_after_the_point() {
    let mut cases: Vec<f32> = vec![
        0.0, -0.0, 0.953, 0.95, 1.0, 0.03125, 0.09375, -0.03125, 1e-10, 0.00005, 0.99995, 0.99996,
        123456.79, 1e20, f32::MAX, f32::MIN, f32::INFINITY, f32::NEG_INFINITY, f32::NAN, 9.99995,
        16777216.0, 1e-45, 2.5, 0.5,
    ];
    for p in patterns() {
        cases.push(f32::from_bits(p as u32));
        let e = 100 + (p >> 40) as u32 % 40;
        cases.push(f32::from_bits(p as u32 & 0x807f_ffff | (e << 23)));
    }
    for v in cases {
        assert_eq!(fixed(single(v)), format!("{:.4}", v), "{v:e}");
    }
}

#[test]
fn the_score_of_the_documentation() {
    assert_eq!(fixed(single(0.953)), "0.9530");
}
