use crb::flux_density::{
    Estimate, FluxDensity, FluxDensityType, FluxError, SpectralIndex, DEFAULT_SPEC_INDEX,
};

use vec1::Vec1;

const MHZ: u64 = 1_000_000_000;

fn list(v: Vec<FluxDensity>) -> FluxDensityType {
    FluxDensityType::List(Vec1::try_from_vec(v).unwrap())
}

fn fd(freq: u64, i: i64) -> FluxDensity {
    FluxDensity { freq, i, q: 0, u: 0, v: 0 }
}

fn two_samples(i1: i64, i2: i64) -> FluxDensityType {
    list(vec![fd(100 * MHZ, i1), fd(200 * MHZ, i2)])
}

#[test]
fn power_law_at_reference_returns_sample() {
    let r = FluxDensity { freq: 150 * MHZ, i: 7_000_000, q: 1, u: 2, v: 3 };
    let m = FluxDensityType::PowerLaw { si: -700_000, fd: r };
    assert_eq!(m.estimate_at_freq(150 * MHZ), Ok(Estimate::Sample(r)));
}

#[test]
fn power_law_elsewhere_scales_reference() {
    let r = fd(150 * MHZ, 7_000_000);
    let m = FluxDensityType::PowerLaw { si: -700_000, fd: r };
    assert_eq!(
        m.estimate_at_freq(180 * MHZ),
        Ok(Estimate::Scaled { anchor: r, index: SpectralIndex::Given(-700_000), curvature: 0 })
    );
}

#[test]
fn curved_power_law_keeps_curvature() {
    let r = fd(150 * MHZ, 7_000_000);
    let m = FluxDensityType::CurvedPowerLaw { si: -700_000, fd: r, q: 250_000 };
    assert_eq!(
        m.estimate_at_freq(180 * MHZ),
        Ok(Estimate::Scaled { anchor: r, index: SpectralIndex::Given(-700_000), curvature: 250_000 })
    );
}

#[test]
fn curved_zero_curvature_matches_power_law() {
    let r = fd(150 * MHZ, 7_000_000);
    let curved = FluxDensityType::CurvedPowerLaw { si: -700_000, fd: r, q: 0 };
    let plain = FluxDensityType::PowerLaw { si: -700_000, fd: r };
    for f in [50 * MHZ, 150 * MHZ, 151 * MHZ, 300 * MHZ] {
        assert_eq!(curved.estimate_at_freq(f), plain.estimate_at_freq(f));
    }
}

#[test]
fn list_exact_hit() {
    let m = two_samples(10_000_000, 5_000_000);
    assert_eq!(m.estimate_at_freq(200 * MHZ), Ok(Estimate::Sample(fd(200 * MHZ, 5_000_000))));
    assert_eq!(m.estimate_at_freq(100 * MHZ), Ok(Estimate::Sample(fd(100 * MHZ, 10_000_000))));
}

#[test]
fn list_interpolation_direction() {
    let lo = fd(100 * MHZ, 10_000_000);
    let hi = fd(200 * MHZ, 5_000_000);
    let m = two_samples(10_000_000, 5_000_000);
    let e = m.estimate_at_freq(150 * MHZ);
    assert_eq!(
        e,
        Ok(Estimate::Scaled { anchor: lo, index: SpectralIndex::Fitted { lo, hi }, curvature: 0 })
    );
    let si = (5.0f64 / 10.0).ln() / (200.0f64 / 100.0).ln();
    assert!((si + 1.0).abs() < 1e-12);
    let i = 10.0 * (150.0f64 / 100.0).powf(si);
    assert!((i - 6.667).abs() < 1e-3);
}

#[test]
fn list_sign_change_falls_back_to_linear() {
    let lo = fd(100 * MHZ, 2_000_000);
    let hi = fd(200 * MHZ, -2_000_000);
    let m = two_samples(2_000_000, -2_000_000);
    assert_eq!(m.estimate_at_freq(150 * MHZ), Ok(Estimate::Linear { lo, hi }));
    let slope = (hi.i - lo.i) as f64 / (hi.freq - lo.freq) as f64;
    let i = lo.i as f64 + slope * (150 * MHZ - lo.freq) as f64;
    assert!(i.abs() < 1e-9);
}

#[test]
fn list_zero_stokes_i_falls_back_to_linear() {
    let lo = fd(100 * MHZ, 0);
    let hi = fd(200 * MHZ, 3);
    let m = list(vec![lo, hi]);
    assert_eq!(m.estimate_at_freq(150 * MHZ), Ok(Estimate::Linear { lo, hi }));
    let m = list(vec![hi, fd(300 * MHZ, 0)]);
    assert_eq!(
        m.estimate_at_freq(250 * MHZ),
        Ok(Estimate::Linear { lo: hi, hi: fd(300 * MHZ, 0) })
    );
}

#[test]
fn list_negative_pair_fits_an_index() {
    let lo = fd(100 * MHZ, -4);
    let hi = fd(200 * MHZ, -2);
    let m = list(vec![lo, hi]);
    assert_eq!(
        m.estimate_at_freq(150 * MHZ),
        Ok(Estimate::Scaled { anchor: lo, index: SpectralIndex::Fitted { lo, hi }, curvature: 0 })
    );
}

#[test]
fn list_single_sample_uses_default_index() {
    let s = fd(100 * MHZ, 4_000_000);
    let m = list(vec![s]);
    assert_eq!(DEFAULT_SPEC_INDEX, -800_000);
    assert_eq!(
        m.estimate_at_freq(170 * MHZ),
        Ok(Estimate::Scaled { anchor: s, index: SpectralIndex::Given(DEFAULT_SPEC_INDEX), curvature: 0 })
    );
    assert_eq!(m.estimate_at_freq(100 * MHZ), Ok(Estimate::Sample(s)));
}

#[test]
fn list_beyond_end_anchors_on_last_sample() {
    let a = fd(100 * MHZ, 9);
    let b = fd(150 * MHZ, 8);
    let c = fd(200 * MHZ, 7);
    let m = list(vec![a, b, c]);
    assert_eq!(
        m.estimate_at_freq(250 * MHZ),
        Ok(Estimate::Scaled { anchor: c, index: SpectralIndex::Fitted { lo: b, hi: c }, curvature: 0 })
    );
}

#[test]
fn list_below_start_uses_first_pair() {
    let a = fd(100 * MHZ, 9);
    let b = fd(150 * MHZ, 8);
    let c = fd(200 * MHZ, 7);
    let m = list(vec![a, b, c]);
    assert_eq!(
        m.estimate_at_freq(50 * MHZ),
        Ok(Estimate::Scaled { anchor: a, index: SpectralIndex::Fitted { lo: a, hi: b }, curvature: 0 })
    );
    assert_eq!(
        m.estimate_at_freq(175 * MHZ),
        Ok(Estimate::Scaled { anchor: b, index: SpectralIndex::Fitted { lo: b, hi: c }, curvature: 0 })
    );
}

#[test]
fn list_within_a_millihertz_is_a_hit_only_when_equal() {
    let a = fd(100 * MHZ, 9);
    let b = fd(200 * MHZ, 7);
    let m = list(vec![a, b]);
    assert_eq!(m.estimate_at_freq(200 * MHZ), Ok(Estimate::Sample(b)));
    assert!(matches!(m.estimate_at_freq(200 * MHZ - 1), Ok(Estimate::Scaled { .. })));
}

#[test]
fn list_unsorted_is_refused() {
    let m = list(vec![fd(200 * MHZ, 1), fd(100 * MHZ, 2), fd(300 * MHZ, 3)]);
    assert_eq!(m.estimate_at_freq(250 * MHZ), Err(FluxError::UnsortedList));
    let late = list(vec![fd(100 * MHZ, 1), fd(200 * MHZ, 2), fd(150 * MHZ, 3)]);
    assert_eq!(late.estimate_at_freq(120 * MHZ), Err(FluxError::UnsortedList));
}
