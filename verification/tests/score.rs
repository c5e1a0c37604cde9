use utility_flow::score::{Score, Scoreable, INFINITY_BITS, MAX_BITS, MIN_BITS};

fn score(value: f32) -> Score {
    Score::new(value.to_bits())
}

fn value(score: Score) -> f32 {
    f32::from_bits(score.get())
}

#[test]
fn new_keeps_values_of_the_unit_interval() {
    assert_eq!(value(score(0.0)), 0.0);
    assert_eq!(value(score(0.5)), 0.5);
    assert_eq!(value(score(0.0225)), 0.0225);
    assert_eq!(value(score(1.0)), 1.0);
    assert_eq!(score(0.5).get(), 0x3F00_0000);
}

#[test]
fn new_clamps_to_the_unit_interval() {
    assert_eq!(value(score(1.5)), 1.0);
    assert_eq!(value(score(-0.3)), 0.0);
    assert_eq!(value(score(f32::INFINITY)), 1.0);
    assert_eq!(value(score(f32::NEG_INFINITY)), 0.0);
    assert_eq!(value(score(f32::MAX)), 1.0);
    assert_eq!(value(score(f32::MIN)), 0.0);
    assert_eq!(score(-0.0).get(), MIN_BITS);
    assert_eq!(Score::new(INFINITY_BITS).get(), MAX_BITS);
    assert_eq!(Score::new(MAX_BITS + 1).get(), MAX_BITS);
    assert_eq!(Score::new(MAX_BITS - 1).get(), MAX_BITS - 1);
}

#[test]
fn every_score_lies_in_the_unit_interval() {
    let samples = [-2.0f32, -1e-20, 0.0, 1e-40, 0.1, 0.999_999_9, 1.0, 1.000_000_1, 7.0];
    for sample in samples {
        let got = value(score(sample));
        assert!((0.0..=1.0).contains(&got));
        assert_eq!(got, sample.clamp(0.0, 1.0));
    }
}

#[test]
fn nan_is_no_score() {
    assert!(Score::is_nan(f32::NAN.to_bits()));
    assert!(Score::is_nan((-f32::NAN).to_bits()));
    assert!(Score::is_nan(0x7F80_0001));
    assert!(Score::is_nan(0xFFFF_FFFF));
    assert!(!Score::is_nan(f32::INFINITY.to_bits()));
    assert!(!Score::is_nan(f32::NEG_INFINITY.to_bits()));
    assert!(!Score::is_nan(0.5f32.to_bits()));
    assert!(Score::try_new(f32::NAN.to_bits()).is_none());
    assert_eq!(Score::try_new(0.25f32.to_bits()), Some(score(0.25)));
    assert_eq!(Score::try_new(3.0f32.to_bits()), Some(Score::max_score()));
}

#[test]
fn is_nan_agrees_with_the_floating_point_test() {
    let patterns = [
        0u32, 1, 0x3F80_0000, 0x7F7F_FFFF, 0x7F80_0000, 0x7F80_0001, 0x7FC0_0000, 0x7FFF_FFFF,
        0x8000_0000, 0x8000_0001, 0xBF80_0000, 0xFF80_0000, 0xFF80_0001, 0xFFC0_0000, 0xFFFF_FFFF,
    ];
    for bits in patterns {
        assert_eq!(Score::is_nan(bits), f32::from_bits(bits).is_nan());
    }
}

#[test]
fn bounds_and_default() {
    assert_eq!(value(Score::min_score()), 0.0);
    assert_eq!(value(Score::max_score()), 1.0);
    assert_eq!(Score::default(), Score::min_score());
    assert_eq!(Score::min_score().get(), MIN_BITS);
    assert_eq!(Score::max_score().get(), MAX_BITS);
}

#[test]
fn set_clamps_like_new() {
    let mut s = score(0.2);
    s.set(0.7f32.to_bits());
    assert_eq!(value(s), 0.7);
    s.set(12.0f32.to_bits());
    assert_eq!(s, Score::max_score());
    s.set((-12.0f32).to_bits());
    assert_eq!(s, Score::min_score());
}

#[test]
fn order_of_scores_is_the_order_of_their_values() {
    let samples = [0.0f32, 1e-40, 0.15, 0.3, 0.5, 0.999, 1.0];
    for a in samples {
        for b in samples {
            assert_eq!(score(a).below(&score(b)), a < b);
            assert_eq!(score(a) < score(b), a < b);
            assert_eq!(score(a) == score(b), a == b);
        }
    }
}

#[test]
fn a_score_scores_as_itself() {
    assert_eq!(score(0.4).score(), score(0.4));
}
