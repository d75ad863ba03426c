use crb::component_list::{ComponentList, VetoError};
use crb::components::{ComponentType, LmOffset, RaDec, ShapeletCoeff, SourceComponent};
use crb::flux_density::{FluxDensity, FluxDensityType};
use crb::source_list::{Source, SourceList};
use vec1::Vec1;

fn power_law(ra: i64, i: i64) -> SourceComponent {
    SourceComponent {
        radec: RaDec { ra, dec: 0 },
        comp_type: ComponentType::Point,
        flux_type: FluxDensityType::PowerLaw {
            si: -800_000,
            fd: FluxDensity { freq: 150_000_000_000, i, q: 0, u: 0, v: 0 },
        },
    }
}

fn listed(ra: i64) -> SourceComponent {
    SourceComponent {
        radec: RaDec { ra, dec: 0 },
        comp_type: ComponentType::Gaussian { maj: 1, min: 1, pa: 0 },
        flux_type: FluxDensityType::List(
            Vec1::try_from_vec(vec![FluxDensity {
                freq: 150_000_000_000,
                i: 1_000_000_000,
                q: 0,
                u: 0,
                v: 0,
            }])
            .unwrap(),
        ),
    }
}

fn ras(l: &ComponentList) -> Vec<i64> {
    l.0.iter().map(|c| c.radec.ra).collect()
}

#[test]
fn flux_veto_keeps_bright_non_list_components() {
    let mut l = ComponentList(vec![power_law(1, 0), listed(2), power_law(3, 0), power_law(4, 0)]);
    let mut b = vec![50, 1_000, 10, 51];
    l.veto_by_flux(&mut b, 50).unwrap();
    assert_eq!(ras(&l), vec![4]);
    assert_eq!(b, vec![51]);
}

#[test]
fn flux_veto_idempotent() {
    let mut l = ComponentList(vec![power_law(1, 0), listed(2), power_law(3, 0), power_law(4, 0)]);
    let mut b = vec![70, 1_000, 90, 10];
    l.veto_by_flux(&mut b, 60).unwrap();
    let (once_ra, once_b) = (ras(&l), b.clone());
    l.veto_by_flux(&mut b, 60).unwrap();
    assert_eq!(ras(&l), once_ra);
    assert_eq!(b, once_b);
    assert_eq!(once_ra, vec![1, 3]);
}

#[test]
fn flux_veto_monotone_in_threshold() {
    let base = vec![5, 15, 25, 35, 45];
    let mut last = usize::MAX;
    for noise in [0, 10, 20, 30, 40, 50] {
        let mut l = ComponentList((0..5).map(|k| power_law(k, 0)).collect());
        let mut b = base.clone();
        let _ = l.veto_by_flux(&mut b, noise);
        assert!(l.len() <= last);
        last = l.len();
    }
    assert_eq!(last, 0);
}

#[test]
fn fov_veto_keeps_components_inside_radius() {
    let mut l = ComponentList((0..4).map(|k| power_law(k, 0)).collect());
    let mut o = vec![
        LmOffset { l: 3, m: 4 },
        LmOffset { l: 0, m: 0 },
        LmOffset { l: -6, m: 0 },
        LmOffset { l: 2, m: -4 },
    ];
    l.veto_by_fov(&mut o, 5).unwrap();
    assert_eq!(ras(&l), vec![1, 3]);
    assert_eq!(o, vec![LmOffset { l: 0, m: 0 }, LmOffset { l: 2, m: -4 }]);
}

#[test]
fn fov_veto_handles_extreme_offsets() {
    let mut l = ComponentList(vec![power_law(0, 0), power_law(1, 0)]);
    let mut o = vec![LmOffset { l: i64::MIN, m: i64::MIN }, LmOffset { l: i64::MAX, m: 0 }];
    l.veto_by_fov(&mut o, u64::MAX).unwrap();
    assert_eq!(ras(&l), vec![0, 1]);
}

#[test]
fn fov_veto_monotone_in_radius() {
    let offsets: Vec<LmOffset> = (0..6).map(|k| LmOffset { l: k * 10, m: -k * 5 }).collect();
    let mut last = 0usize;
    for radius in [0u64, 10, 30, 60, 100] {
        let mut l = ComponentList((0..6).map(|k| power_law(k, 0)).collect());
        let mut o = offsets.clone();
        let _ = l.veto_by_fov(&mut o, radius);
        assert!(l.len() >= last);
        last = l.len();
    }
    assert_eq!(last, 6);
}

#[test]
fn new_takes_last_source_first() {
    let mut sl = SourceList::new();
    sl.insert("a".to_string(), Source { components: vec![power_law(1, 0), power_law(2, 0)] });
    sl.insert("b".to_string(), Source { components: vec![power_law(3, 0)] });
    sl.insert("c".to_string(), Source { components: vec![power_law(4, 0), power_law(5, 0)] });
    let l = ComponentList::new(sl);
    assert_eq!(ras(&l), vec![4, 5, 3, 1, 2]);
}

#[test]
fn slice_to_struct_takes_range() {
    let l = ComponentList((0..6).map(|k| power_law(k, 0)).collect());
    let s = l.slice_to_struct(2, 5).unwrap();
    assert_eq!(ras(&s), vec![2, 3, 4]);
}

#[test]
fn slice_to_struct_refuses_empty_list() {
    let l = ComponentList(vec![]);
    assert_eq!(l.slice_to_struct(0, 500).err(), Some(VetoError::NoSourcesAfterVeto));
}

#[test]
fn slice_to_struct_reports_too_few() {
    let l = ComponentList((0..3).map(|k| power_law(k, 0)).collect());
    assert_eq!(
        l.slice_to_struct(0, 500).err(),
        Some(VetoError::VetoTooFewSources { requested: 500, available: 3 })
    );
}

#[test]
fn component_kind_predicates() {
    let p = power_law(0, 0);
    assert!(p.is_point() && !p.is_gaussian() && !p.is_shapelet());
    let g = listed(0);
    assert!(!g.is_point() && g.is_gaussian() && !g.is_shapelet());
    let s = ComponentType::Shapelet {
        maj: 1,
        min: 1,
        pa: 0,
        coeffs: vec![ShapeletCoeff { n1: 0, n2: 1, value: 5 }],
    };
    assert!(!s.is_point() && !s.is_gaussian() && s.is_shapelet());
}

#[test]
fn component_estimate_delegates_to_model() {
    let c = power_law(0, 42);
    let direct = c.flux_type.estimate_at_freq(150_000_000_000);
    assert_eq!(c.estimate_at_freq(150_000_000_000), direct);
}

#[test]
fn flux_veto_reports_when_none_survive() {
    let mut l = ComponentList(vec![power_law(1, 0), listed(2)]);
    let mut b = vec![10, 1_000];
    assert_eq!(l.veto_by_flux(&mut b, 10), Err(VetoError::NoSourcesAfterVeto));
    assert_eq!(l.len(), 0);
    assert!(b.is_empty());
}

#[test]
fn fov_veto_reports_when_none_survive() {
    let mut l = ComponentList(vec![power_law(1, 0)]);
    let mut o = vec![LmOffset { l: 5, m: 0 }];
    assert_eq!(l.veto_by_fov(&mut o, 5), Err(VetoError::NoSourcesAfterVeto));
    assert_eq!(l.len(), 0);
}
