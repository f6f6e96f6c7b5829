use adaptive_zoom::smoothing::{
    apply_render_range, check_plan, constant_keys, min_rolling, pad_edge, rolling_minimum, settle_fov,
    smooth_keys, SmoothingMode, FULL_FRAME_KEY,
};
use adaptive_zoom::window::odd_window;
use adaptive_zoom::ZoomError;

fn keys(values: &[f64]) -> Vec<u64> {
    values.iter().map(|v| v.to_bits()).collect()
}

fn values(keys: &[u64]) -> Vec<f64> {
    keys.iter().map(|k| f64::from_bits(*k)).collect()
}

#[test]
fn full_frame_key_is_one() {
    assert_eq!(f64::from_bits(FULL_FRAME_KEY), 1.0);
}

#[test]
fn padding_replicates_the_edges() {
    assert_eq!(pad_edge(&vec![4, 5, 6], 2, 1), vec![4, 4, 4, 5, 6, 6]);
    assert_eq!(pad_edge(&vec![9], 0, 0), vec![9]);
}

#[test]
fn rolling_window_minimum() {
    assert_eq!(min_rolling(&vec![5, 3, 9, 4, 8], 3), vec![3, 3, 4]);
    assert_eq!(min_rolling(&vec![5, 3], 1), vec![5, 3]);
    assert_eq!(min_rolling(&vec![5, 3], 3), Vec::<u64>::new());
}

#[test]
fn rolling_minimum_keeps_length_and_is_below_its_window() {
    let raw = [0.9, 0.8, 1.0, 0.6, 0.95, 1.0, 0.7];
    let out = values(&rolling_minimum(&keys(&raw), 3).unwrap());
    assert_eq!(out, vec![0.8, 0.8, 0.6, 0.6, 0.6, 0.7, 0.7]);
    for i in 0..raw.len() {
        let lo = i.saturating_sub(1);
        let hi = (i + 2).min(raw.len());
        for j in lo..hi {
            assert!(out[i] <= raw[j]);
        }
    }
}

#[test]
fn rolling_minimum_with_a_window_longer_than_the_sequence() {
    let out = values(&rolling_minimum(&keys(&[0.9, 0.5, 0.7]), 61).unwrap());
    assert_eq!(out, vec![0.5, 0.5, 0.5]);
}

#[test]
fn identity_scenario_settles_to_full_frame() {
    let raw = keys(&[1.0; 30]);
    let window = odd_window((2.0f64 * 30.0).floor() as usize);
    assert_eq!(window, 61);
    let out = settle_fov(&raw, None, SmoothingMode::Gaussian { window }).unwrap();
    assert_eq!(values(&out), vec![1.0; 30]);
    let padded = pad_edge(&out, window / 2, window / 2);
    assert_eq!(padded.len(), 30 + 60);
    assert!(padded.iter().all(|k| f64::from_bits(*k) == 1.0));
}

#[test]
fn disabled_smoothing_takes_the_global_minimum() {
    let raw = keys(&[1.0, 0.9, 0.85, 0.97, 1.0]);
    let out = settle_fov(&raw, None, SmoothingMode::ConstantMinimum).unwrap();
    assert_eq!(values(&out), vec![0.85; 5]);
}

#[test]
fn single_frame_cannot_be_smoothed() {
    let raw = keys(&[1.0]);
    assert_eq!(settle_fov(&raw, None, SmoothingMode::Gaussian { window: 61 }), Err(ZoomError::InvalidInput));
    assert_eq!(rolling_minimum(&raw, 1), Err(ZoomError::InvalidInput));
}

#[test]
fn no_crop_mode_is_full_frame() {
    let raw = keys(&[0.5, 0.7]);
    let out = smooth_keys(&raw, SmoothingMode::NoCrop).unwrap();
    assert_eq!(values(&out), vec![1.0, 1.0]);
}

#[test]
fn passthrough_keeps_values() {
    let raw = keys(&[0.5, 0.7, 0.6]);
    assert_eq!(smooth_keys(&raw, SmoothingMode::Passthrough).unwrap(), raw);
}

#[test]
fn empty_sequence_is_refused_by_every_mode() {
    let empty: Vec<u64> = Vec::new();
    for mode in [
        SmoothingMode::Gaussian { window: 3 },
        SmoothingMode::ConstantMinimum,
        SmoothingMode::NoCrop,
        SmoothingMode::Passthrough,
    ] {
        assert_eq!(smooth_keys(&empty, mode), Err(ZoomError::InvalidInput));
    }
}

#[test]
fn render_range_lifts_frames_outside_it() {
    let raw = keys(&[0.6, 0.7, 0.8, 0.9, 0.5]);
    let out = apply_render_range(&raw, 1, 3).unwrap();
    assert_eq!(values(&out), vec![0.9, 0.7, 0.8, 0.9, 0.9]);
}

#[test]
fn malformed_render_ranges_are_refused() {
    let raw = keys(&[0.6, 0.7]);
    assert_eq!(apply_render_range(&raw, 2, 1), Err(ZoomError::InvalidInput));
    assert_eq!(apply_render_range(&raw, 0, 3), Err(ZoomError::InvalidInput));
    assert_eq!(apply_render_range(&Vec::new(), 0, 0), Err(ZoomError::InvalidInput));
    assert_eq!(settle_fov(&raw, Some((2, 1)), SmoothingMode::Passthrough), Err(ZoomError::InvalidInput));
}

#[test]
fn whole_render_range_matches_no_range() {
    let raw = keys(&[0.6, 0.9, 0.8, 0.7]);
    for mode in [SmoothingMode::Gaussian { window: 3 }, SmoothingMode::ConstantMinimum, SmoothingMode::Passthrough] {
        assert_eq!(settle_fov(&raw, Some((0, 4)), mode), settle_fov(&raw, None, mode));
    }
}

#[test]
fn range_ending_at_last_frame_lifts_it() {
    let raw = keys(&[1.0, 0.5]);
    let out = settle_fov(&raw, Some((0, 1)), SmoothingMode::Passthrough).unwrap();
    assert_eq!(values(&out), vec![1.0, 1.0]);
}

#[test]
fn constant_sequence() {
    assert_eq!(constant_keys(7, 3), vec![7, 7, 7]);
    assert!(constant_keys(7, 0).is_empty());
}

#[test]
fn plan_is_checked_before_any_frame() {
    assert_eq!(check_plan(1, None, SmoothingMode::Gaussian { window: 61 }), Err(ZoomError::InvalidInput));
    assert_eq!(check_plan(30, None, SmoothingMode::Gaussian { window: 61 }), Ok(()));
    assert_eq!(check_plan(1, None, SmoothingMode::ConstantMinimum), Ok(()));
    assert_eq!(check_plan(0, None, SmoothingMode::Passthrough), Err(ZoomError::InvalidInput));
    assert_eq!(check_plan(5, Some((3, 2)), SmoothingMode::Passthrough), Err(ZoomError::InvalidInput));
    assert_eq!(check_plan(5, Some((0, 6)), SmoothingMode::Passthrough), Err(ZoomError::InvalidInput));
    assert_eq!(check_plan(5, Some((0, 4)), SmoothingMode::NoCrop), Ok(()));
}
