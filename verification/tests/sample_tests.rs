use grafatui::sample::{downsample, is_finite_bits, val_key_of, Sample};

fn pts(values: &[f64]) -> Vec<Sample> {
    values
        .iter()
        .enumerate()
        .map(|(i, v)| Sample { ts_bits: (i as f64).to_bits(), val_bits: v.to_bits() })
        .collect()
}

#[test]
fn test_downsample() {
    let points: Vec<Sample> = (0..1000)
        .map(|i| Sample { ts_bits: (i as f64).to_bits(), val_bits: (i as f64).to_bits() })
        .collect();
    let downsampled = downsample(points, 100);
    assert_eq!(downsampled.len(), 100);
    // Max pooling should preserve the max value in each chunk
    // Last point should be 999.0
    assert_eq!(downsampled.last().unwrap().val_bits, 999.0f64.to_bits());
}

#[test]
fn test_downsample_short_input_unchanged() {
    let points = pts(&[1.0, 5.0, 2.0]);
    let out = downsample(points.clone(), 5);
    assert_eq!(out, points);
}

#[test]
fn test_downsample_idempotent() {
    let points = pts(&[3.0, 1.0, 4.0, 1.0, 5.0, 9.0, 2.0, 6.0, 5.0, 3.0, 5.0]);
    let once = downsample(points.clone(), 4);
    let twice = downsample(once.clone(), 4);
    assert!(once.len() <= 4);
    assert_eq!(once, twice);
}

#[test]
fn test_downsample_keeps_peaks() {
    // one spike hidden in each chunk
    let points = pts(&[0.0, 7.0, 0.0, 0.0, 9.0, 0.0]);
    let out = downsample(points, 2);
    assert_eq!(out.len(), 2);
    assert_eq!(out[0].val_bits, 7.0f64.to_bits());
    assert_eq!(out[1].val_bits, 9.0f64.to_bits());
}

#[test]
fn test_downsample_tie_keeps_first() {
    let points = pts(&[2.0, 2.0, 1.0, 0.0]);
    let out = downsample(points, 1);
    assert_eq!(out.len(), 1);
    // first occurrence of the maximum wins the chunk
    assert_eq!(out[0].ts_bits, 0.0f64.to_bits());
}

#[test]
fn test_downsample_bound_one() {
    let points = pts(&[1.0, 2.0, 3.0]);
    let out = downsample(points, 1);
    assert_eq!(out.len(), 1);
    assert_eq!(out[0].val_bits, 3.0f64.to_bits());
}

#[test]
fn test_downsample_empty() {
    let out = downsample(Vec::new(), 3);
    assert!(out.is_empty());
}

#[test]
fn test_finite_bits_matches_ieee() {
    assert!(is_finite_bits(0.0f64.to_bits()));
    assert!(is_finite_bits((-12.5f64).to_bits()));
    assert!(!is_finite_bits(f64::NAN.to_bits()));
    assert!(!is_finite_bits(f64::INFINITY.to_bits()));
    assert!(!is_finite_bits(f64::NEG_INFINITY.to_bits()));
}

#[test]
fn test_val_key_orders_like_doubles() {
    let samples = [-1000.0f64, -1.5, -0.0, 0.0, 0.25, 3.0, 1e18];
    for w in samples.windows(2) {
        assert!(val_key_of(w[0].to_bits()) <= val_key_of(w[1].to_bits()));
    }
    assert!(val_key_of((-2.0f64).to_bits()) < val_key_of(1.0f64.to_bits()));
}
