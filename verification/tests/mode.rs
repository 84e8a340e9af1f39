use stt::mode::{changes_volume, check_gain, choose_mode, GainCheck, Mode};
use stt::scores::{is_end_of_turn, is_scored, vad_score};
use stt::single::{equal, greater};

fn samples() -> Vec<f32> {
    vec![
        0.0,
        -0.0,
        1.0,
        -1.0,
        0.5,
        0.50000006,
        0.49999997,
        10.0,
        10.000001,
        9.999999,
        f32::MIN_POSITIVE,
        -f32::MIN_POSITIVE,
        1e-45,
        -1e-45,
        f32::MAX,
        f32::MIN,
        f32::INFINITY,
        f32::NEG_INFINITY,
        f32::NAN,
        -f32::NAN,
    ]
}

#[test]
fn bit_patterns_compare_as_numbers() {
    for a in samples() {
        for b in samples() {
            assert_eq!(greater(a.to_bits(), b.to_bits()), a > b, "{a} > {b}");
            assert_eq!(equal(a.to_bits(), b.to_bits()), a == b, "{a} == {b}");
        }
    }
}

#[test]
fn order_of_numbers_is_transitive() {
    for a in samples() {
        for b in samples() {
            for c in samples() {
                let (a, b, c) = (a.to_bits(), b.to_bits(), c.to_bits());
                assert!(!(greater(a, b) && greater(b, c)) || greater(a, c));
            }
        }
    }
}

#[test]
fn gains_are_checked() {
    for gain in samples() {
        let expected = if gain <= 0.0 {
            GainCheck::NotPositive
        } else if gain > 10.0 {
            GainCheck::VeryHigh
        } else {
            GainCheck::Fine
        };
        assert_eq!(check_gain(gain.to_bits()), expected, "{gain}");
        assert_eq!(changes_volume(gain.to_bits()), gain != 1.0, "{gain}");
    }
    assert_eq!(check_gain((-1.0f32).to_bits()), GainCheck::NotPositive);
    assert_eq!(check_gain(0.0f32.to_bits()), GainCheck::NotPositive);
    assert_eq!(check_gain(1.0f32.to_bits()), GainCheck::Fine);
    assert_eq!(check_gain(10.0f32.to_bits()), GainCheck::Fine);
    assert_eq!(check_gain(10.5f32.to_bits()), GainCheck::VeryHigh);
}

#[test]
fn turns_end_above_one_half() {
    for score in samples() {
        assert_eq!(is_end_of_turn(score.to_bits()), score > 0.5, "{score}");
    }
}

#[test]
fn the_third_head_scores_turns() {
    let scores = vec![vec![1], vec![2], vec![3, 4], vec![5]];
    assert!(is_scored(&scores));
    assert_eq!(vad_score(&scores), 3);
    assert!(!is_scored(&vec![vec![1], vec![2]]));
}

#[test]
fn arguments_choose_the_mode() {
    let file = "talk.wav".to_string();
    let dash = "--mic".to_string();
    assert_eq!(choose_mode(true, true, &dash, true), Mode::ListDevices);
    assert_eq!(choose_mode(false, true, &file, false), Mode::Stream);
    assert_eq!(choose_mode(false, true, &file, true), Mode::Record);
    assert_eq!(choose_mode(false, false, &dash, false), Mode::Stream);
    assert_eq!(choose_mode(false, false, &dash, true), Mode::Record);
    assert_eq!(choose_mode(false, false, &file, false), Mode::File);
    assert_eq!(choose_mode(false, false, &file, true), Mode::File);
    assert_eq!(choose_mode(false, false, &"--mic ".to_string(), false), Mode::File);
}
