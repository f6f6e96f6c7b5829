use adaptive_zoom::keys::{check_fov_keys, find_binding_vertex, max_key, min_key, INFINITY_KEY};
use adaptive_zoom::{FovStage, ZoomError};

fn keys(values: &[f64]) -> Vec<u64> {
    values.iter().map(|v| v.to_bits()).collect()
}

#[test]
fn binding_vertex_is_first_largest_factor() {
    let factors = keys(&[0.8, 1.25, 0.3, 1.25, 1.1]);
    let (f, idx) = find_binding_vertex(&factors).unwrap();
    assert_eq!(idx, 1);
    assert_eq!(f64::from_bits(f), 1.25);
}

#[test]
fn binding_vertex_matches_brute_force() {
    let values = [0.5, 0.9, 2.0, 1.999, 0.001, 2.0000001, 1.0];
    let (f, idx) = find_binding_vertex(&keys(&values)).unwrap();
    let mut best = 0usize;
    for (i, v) in values.iter().enumerate() {
        if *v > values[best] {
            best = i;
        }
    }
    assert_eq!(idx, best);
    assert_eq!(f64::from_bits(f), values[best]);
    assert!(idx < values.len());
}

#[test]
fn binding_vertex_of_empty_polygon_is_refused() {
    assert_eq!(find_binding_vertex(&Vec::new()), Err(ZoomError::InvalidInput));
}

#[test]
fn min_and_max_follow_the_numbers() {
    let values = keys(&[0.75, 0.5, 1.0, 0.9999]);
    assert_eq!(f64::from_bits(min_key(&values).unwrap()), 0.5);
    assert_eq!(f64::from_bits(max_key(&values).unwrap()), 1.0);
    assert_eq!(min_key(&Vec::new()), Err(ZoomError::InvalidInput));
    assert_eq!(max_key(&Vec::new()), Err(ZoomError::InvalidInput));
}

#[test]
fn infinity_key_is_the_infinity_pattern() {
    assert_eq!(INFINITY_KEY, f64::INFINITY.to_bits());
}

#[test]
fn anomalies_are_reported_at_their_first_frame() {
    let raw = FovStage::CropSearch;
    let smoothed = FovStage::Smoothing;
    assert_eq!(check_fov_keys(&keys(&[0.5, 1.0, 0.25]), raw), Ok(()));
    assert_eq!(check_fov_keys(&keys(&[0.5, f64::NAN, 0.0]), raw), Err(ZoomError::NumericAnomaly { frame: 1, stage: raw }));
    assert_eq!(check_fov_keys(&keys(&[0.5, 1.0, 0.0]), smoothed), Err(ZoomError::NumericAnomaly { frame: 2, stage: smoothed }));
    assert_eq!(check_fov_keys(&keys(&[-0.5]), raw), Err(ZoomError::NumericAnomaly { frame: 0, stage: raw }));
    assert_eq!(check_fov_keys(&keys(&[1.0, f64::INFINITY]), smoothed), Err(ZoomError::NumericAnomaly { frame: 1, stage: smoothed }));
    assert_eq!(check_fov_keys(&keys(&[f64::MAX, f64::MIN_POSITIVE]), raw), Ok(()));
}

#[test]
fn binding_vertex_of_single_factor() {
    assert_eq!(find_binding_vertex(&keys(&[0.4])), Ok((0.4f64.to_bits(), 0)));
}
