use md_rs::{MdError, MD};

const SAMPLES: [f64; 15] = [
    81.59, 81.06, 82.87, 83.00, 83.61, 83.15, 82.84, 83.99, 84.55, 84.36, 85.53, 86.54, 86.89,
    87.77, 87.29,
];

/// Mean absolute deviation of a window from its plain arithmetic mean.
fn mean_deviation(window: &[f64]) -> f64 {
    let n = window.len() as f64;
    let mean = window.iter().sum::<f64>() / n;
    window.iter().map(|p| (p - mean).abs()).sum::<f64>() / n
}

#[test]
fn zero_period_is_refused() {
    assert_eq!(MD::<f64>::new(0).err(), Some(MdError::InvalidPeriod));
    assert!(MD::<f64>::new(1).is_ok());
}

#[test]
fn keeps_its_period() {
    let md = MD::<f64>::new(5).unwrap();
    assert_eq!(md.period(), 5);
}

#[test]
fn warms_up_after_period_samples() {
    for period in 1..8u32 {
        let mut md = MD::<u32>::new(period).unwrap();
        for k in 1..20u32 {
            let r = md.next(k);
            assert_eq!(r.is_some(), k >= period, "period {} sample {}", period, k);
        }
    }
}

#[test]
fn window_is_latest_period_samples() {
    let mut md = MD::<u32>::new(3).unwrap();
    assert_eq!(md.next(10), None);
    assert_eq!(md.next(20), None);
    assert_eq!(md.next(30), Some(vec![10, 20, 30]));
    assert_eq!(md.next(40), Some(vec![20, 30, 40]));
    assert_eq!(md.next(50), Some(vec![30, 40, 50]));
    assert_eq!(md.next(60), Some(vec![40, 50, 60]));
}

#[test]
fn period_one_reports_each_sample() {
    let mut md = MD::<i64>::new(1).unwrap();
    assert_eq!(md.next(-4), Some(vec![-4]));
    assert_eq!(md.next(9), Some(vec![9]));
}

#[test]
fn reset_replays_outputs() {
    let mut md = MD::<f64>::new(5).unwrap();
    let first: Vec<Option<Vec<f64>>> = SAMPLES.iter().map(|&x| md.next(x)).collect();
    md.reset();
    assert_eq!(md.period(), 5);
    let second: Vec<Option<Vec<f64>>> = SAMPLES.iter().map(|&x| md.next(x)).collect();
    assert_eq!(first, second);
    let mut fresh = MD::<f64>::new(5).unwrap();
    let third: Vec<Option<Vec<f64>>> = SAMPLES.iter().map(|&x| fresh.next(x)).collect();
    assert_eq!(first, third);
}

#[test]
fn reset_restarts_warm_up() {
    let mut md = MD::<u8>::new(2).unwrap();
    md.next(1);
    assert_eq!(md.next(2), Some(vec![1, 2]));
    md.reset();
    assert_eq!(md.next(3), None);
    assert_eq!(md.next(4), Some(vec![3, 4]));
}

#[test]
fn reference_windows() {
    let mut md = MD::<f64>::new(5).unwrap();
    for &x in &SAMPLES[..4] {
        assert_eq!(md.next(x), None);
    }
    assert_eq!(md.next(83.61), Some(vec![81.59, 81.06, 82.87, 83.00, 83.61]));
    assert_eq!(md.next(83.15), Some(vec![81.06, 82.87, 83.00, 83.61, 83.15]));
    assert_eq!(md.next(82.84), Some(vec![82.87, 83.00, 83.61, 83.15, 82.84]));
}

#[test]
fn reference_deviations() {
    let expected = [
        0.8808, 0.6712, 0.2288, 0.3856, 0.5136, 0.6264, 0.6712, 0.8328, 0.9128, 1.0184, 0.6152,
    ];
    let mut md = MD::<f64>::new(5).unwrap();
    let mut got = Vec::new();
    for &x in &SAMPLES {
        if let Some(window) = md.next(x) {
            got.push(mean_deviation(&window));
        }
    }
    assert_eq!(got.len(), expected.len());
    for (g, e) in got.iter().zip(expected.iter()) {
        assert!((g - e).abs() < 1e-9, "{} vs {}", g, e);
    }
}
