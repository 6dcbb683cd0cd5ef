use volume_proxy::volume::{Volume, HALF, LOUDEST, NOT_A_NUMBER, THRESHOLD};

fn level(x: f32) -> Volume {
    Volume { bits: x.to_bits() }
}

fn number(v: Volume) -> f32 {
    f32::from_bits(v.bits)
}

/// The next value of a linear congruential sequence.
fn next(state: &mut u64) -> u32 {
    *state = state
        .wrapping_mul(6364136223846793005)
        .wrapping_add(1442695040888963407);
    (*state >> 32) as u32
}

fn assert_same(found: Volume, expected: f32) {
    if expected.is_nan() {
        assert_eq!(found.bits, NOT_A_NUMBER);
    } else {
        assert_eq!(found.bits, expected.to_bits());
    }
}

fn edge_encodings() -> Vec<u32> {
    let magnitudes = vec![
        0x0000_0000, 0x0000_0001, 0x0000_0002, 0x007f_ffff, 0x0080_0000, 0x0080_0001,
        0x00ff_ffff, 0x0100_0000, 0x0180_0000, 0x3380_0000, 0x3400_0000, 0x3a83_126e,
        0x3a83_126f, 0x3a83_1270, 0x3f00_0000, 0x3f7f_ffff, 0x3f80_0000, 0x3f80_0001,
        0x4b7f_ffff, 0x4b80_0000, 0x4c00_0000, 0x4c80_0000, 0x7e80_0000, 0x7f00_0000,
        0x7f7f_fffe, 0x7f7f_ffff, 0x7f80_0000, 0x7f80_0001, 0x7fc0_0000, 0x7fff_ffff,
    ];
    let mut all: Vec<u32> = Vec::new();
    for m in magnitudes {
        all.push(m);
        all.push(m | 0x8000_0000);
    }
    all
}

#[test]
fn sums_match_on_edges() {
    for a in edge_encodings() {
        for b in edge_encodings() {
            let (x, y) = (f32::from_bits(a), f32::from_bits(b));
            assert_same(level(x).plus(level(y)), x + y);
            assert_same(level(x).minus(level(y)), x - y);
        }
    }
}

#[test]
fn sums_match_on_any_encoding() {
    let mut state = 1;
    for _ in 0..200_000 {
        let x = f32::from_bits(next(&mut state));
        let y = f32::from_bits(next(&mut state));
        assert_same(level(x).plus(level(y)), x + y);
        assert_same(level(x).minus(level(y)), x - y);
    }
}

#[test]
fn sums_match_on_close_exponents() {
    let mut state = 7;
    for _ in 0..200_000 {
        let a = next(&mut state);
        let shift = next(&mut state) % 60;
        let b = next(&mut state) & 0x807f_ffff;
        let exponent = ((a >> 23) & 0xff).saturating_sub(shift / 2);
        let x = f32::from_bits(a);
        let y = f32::from_bits(b | (exponent << 23));
        assert_same(level(x).plus(level(y)), x + y);
        assert_same(level(y).minus(level(x)), y - x);
    }
}

#[test]
fn clamping_matches() {
    let mut state = 3;
    for _ in 0..100_000 {
        let x = f32::from_bits(next(&mut state));
        let kept = level(x).clamp();
        if x.is_nan() {
            assert_eq!(kept.bits, x.to_bits());
        } else {
            assert_eq!(kept.bits, x.clamp(0.0, 1.0).to_bits());
        }
    }
    for bits in edge_encodings() {
        let x = f32::from_bits(bits);
        if !x.is_nan() {
            assert_eq!(level(x).clamp().bits, x.clamp(0.0, 1.0).to_bits());
        }
    }
}

#[test]
fn thresholds_match() {
    for bits in edge_encodings() {
        let x = f32::from_bits(bits);
        assert_eq!(level(x).negligible(), x.abs() < 0.001);
        assert_eq!(level(x).notable(), x.abs() >= 0.001);
    }
}

#[test]
fn constants_match() {
    assert_eq!(f32::from_bits(THRESHOLD), 0.001);
    assert_eq!(f32::from_bits(HALF), 0.5);
    assert_eq!(f32::from_bits(LOUDEST), 1.0);
    assert!(f32::from_bits(NOT_A_NUMBER).is_nan());
}

#[test]
fn level_examples() {
    assert_eq!(number(level(0.25).plus(level(0.5))), 0.75);
    assert_eq!(number(level(0.25).minus(level(0.5))), -0.25);
    assert_eq!(number(level(0.75).plus(level(0.5)).clamp()), 1.0);
    assert_eq!(number(level(0.25).minus(level(0.5)).clamp()), 0.0);
    assert_eq!(level(0.5).negate(), level(-0.5));
    assert_eq!(level(0.5).minus(level(0.5)).bits, 0);
}

#[test]
fn sums_commute() {
    for a in edge_encodings() {
        for b in edge_encodings() {
            let (x, y) = (Volume { bits: a }, Volume { bits: b });
            assert_eq!(x.plus(y).bits, y.plus(x).bits);
        }
    }
}

#[test]
fn exact_sums_are_kept() {
    assert_eq!(number(level(0.5).plus(level(0.25))), 0.75);
    assert_eq!(number(level(0.75).minus(level(0.5))), 0.25);
    assert_eq!(number(level(0.125).minus(level(0.125))), 0.0);
}
