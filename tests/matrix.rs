use crb::baselines::create_baselines;
use crb::component_list::VetoError;
use crb::frequencies::analysis_frequencies;
use crb::matrix::{
    build, compute_cell, Cplx, Phasor, MAX_BRIGHTNESS, MAX_COMPONENTS, MAX_SELF_WEIGHT, PHASOR_ONE,
};

const ONE: i32 = PHASOR_ONE;

fn one() -> Phasor {
    Phasor { re: ONE, im: 0 }
}

fn two_antennas(weight: u64, sigma: u64) -> crb::matrix::InformationMatrix {
    let b = vec![3i64, 4];
    let phasors = vec![
        vec![one(), one()],
        vec![one(), Phasor { re: 0, im: ONE }],
        vec![],
        vec![one(), one()],
    ];
    build(2, &b, &phasors, weight, sigma).unwrap()
}

#[test]
fn build_cells_and_self_term() {
    let m = two_antennas(131, 10);
    let unit = (ONE as i128) * (ONE as i128);
    assert_eq!(m.dim, 2);
    assert_eq!(m.cells[0], Cplx { re: (1 + 131) * 49 * unit, im: 0 });
    assert_eq!(m.cells[1], Cplx { re: 25 * unit, im: 0 });
    assert_eq!(m.cells[3], Cplx { re: (1 + 131) * 49 * unit, im: 0 });
}

#[test]
fn build_is_hermitian() {
    let b = vec![5i64, -2, 7];
    let p = |re: i32, im: i32| Phasor { re, im };
    let row = vec![p(40000, 30000), p(-20000, 50000), p(0, -65536)];
    let phasors: Vec<Vec<Phasor>> = (0..9).map(|_| row.clone()).collect();
    let m = build(3, &b, &phasors, 7, 3).unwrap();
    for a in 0..3 {
        for c in 0..3 {
            let x = m.cells[a * 3 + c];
            let y = m.cells[c * 3 + a];
            assert_eq!(x, Cplx { re: y.re, im: -y.im });
        }
    }
}

#[test]
fn cell_equals_sum_over_component_pairs() {
    let b = vec![5i64, -2, 7];
    let ps = vec![
        Phasor { re: 40000, im: 30000 },
        Phasor { re: -20000, im: 50000 },
        Phasor { re: 0, im: -65536 },
    ];
    let mut re: i128 = 0;
    let mut im: i128 = 0;
    for i in 0..3 {
        for j in 0..3 {
            let (ar, ai) = (ps[i].re as i128, ps[i].im as i128);
            let (br, bi) = (ps[j].re as i128, -(ps[j].im as i128));
            let w = (b[i] as i128) * (b[j] as i128);
            re += w * (ar * br - ai * bi);
            im += w * (ar * bi + ai * br);
        }
    }
    assert_eq!(im, 0);
    assert_eq!(compute_cell(&b, &ps, 0, false), Cplx { re, im: 0 });
    let s: i128 = b.iter().map(|&x| x as i128).sum();
    let unit = (ONE as i128) * (ONE as i128);
    assert_eq!(compute_cell(&b, &ps, 2, true), Cplx { re: re + 2 * s * s * unit, im: 0 });
}

#[test]
fn doubling_noise_quarters_entries() {
    let m1 = two_antennas(131, 10);
    let m2 = two_antennas(131, 20);
    assert_eq!(m1.cells, m2.cells);
    let unit = (ONE as f64) * (ONE as f64);
    for k in 0..4 {
        let e1 = 2.0 * m1.cells[k].re as f64 / ((m1.noise_sigma as f64).powi(2) * unit);
        let e2 = 2.0 * m2.cells[k].re as f64 / ((m2.noise_sigma as f64).powi(2) * unit);
        assert_eq!(e1, 4.0 * e2);
    }
}

#[test]
fn baselines_are_pairwise_differences() {
    let east = vec![0i64, 1000, -500];
    let north = vec![0i64, 0, 2000];
    let r = create_baselines(&east, &north);
    assert_eq!(r.len(), 9);
    assert_eq!(r[0 * 3 + 1], (-1000, 0));
    assert_eq!(r[1 * 3 + 0], (1000, 0));
    assert_eq!(r[2 * 3 + 1], (-1500, 2000));
    for a in 0..3 {
        assert_eq!(r[a * 3 + a], (0, 0));
        for b in 0..3 {
            assert_eq!(r[a * 3 + b].0, -r[b * 3 + a].0);
            assert_eq!(r[a * 3 + b].1, -r[b * 3 + a].1);
        }
    }
}

#[test]
fn analysis_frequencies_span_the_band() {
    assert_eq!(analysis_frequencies(100, 200, 25), vec![100, 133, 166, 200]);
    assert_eq!(analysis_frequencies(100, 200, 60), vec![100]);
    assert_eq!(analysis_frequencies(100, 200, 101), Vec::<u64>::new());
    assert_eq!(analysis_frequencies(200, 100, 10), Vec::<u64>::new());
    assert_eq!(analysis_frequencies(0, u64::MAX, u64::MAX / 3), vec![0, u64::MAX / 2, u64::MAX]);
}

#[test]
fn cell_at_largest_admitted_inputs() {
    for sign in [1i64, -1] {
        let b = vec![sign * MAX_BRIGHTNESS; MAX_COMPONENTS];
        let ps = vec![one(); MAX_COMPONENTS];
        let c = compute_cell(&b, &ps, MAX_SELF_WEIGHT, true);
        assert_eq!(c, Cplx { re: (1i128 << 118) + (1i128 << 126), im: 0 });
    }
}

#[test]
fn build_refuses_no_components() {
    let phasors = vec![vec![]];
    assert_eq!(build(1, &vec![], &phasors, 131, 10).err(), Some(VetoError::NoSourcesAfterVeto));
}
