//! The information matrix of an array for a set of sky components.
//!
//! Cell `(a, b)` sums, over every ordered pair of components `(i, j)`, the
//! product of their Stokes I brightnesses `B_i B_j` and the phase term
//! `exp(2 pi i (u (l_i - l_j) + v (m_i - m_j)))` of the baseline `(u, v)`
//! between antennas `a` and `b`. With the phasor `P_i = exp(2 pi i (u l_i +
//! v m_i))` of each component that term is `P_i conj(P_j)`, so the double sum
//! is `|sum_i B_i P_i|^2`. Diagonal cells add `K B_i B_j` for every pair, that
//! is `K (sum_i B_i)^2`. Phasors are fixed-point numbers of unit
//! `PHASOR_ONE`; cells are held in units of `PHASOR_ONE^2` and microjansky
//! squared, and the matrix scales them all by `2 / sigma^2`, with `sigma` the
//! noise in microjansky.
use vstd::prelude::*;

use crate::component_list::VetoError;

verus! {

/// A complex number with integer parts.
#[derive(Clone, Copy, Debug, PartialEq, Eq, Structural)]
pub struct Cplx {
    pub re: i128,
    pub im: i128,
}

/// A complex number of modulus at most one, in units of `PHASOR_ONE`.
#[derive(Clone, Copy, Debug, PartialEq, Eq, Structural)]
pub struct Phasor {
    pub re: i32,
    pub im: i32,
}

/// The fixed-point unit of a phasor.
pub const PHASOR_ONE: i32 = 65536;

/// The most components one cell sums over.
pub const MAX_COMPONENTS: usize = 512;

/// The largest magnitude of a brightness, in microjansky.
pub const MAX_BRIGHTNESS: i64 = 17179869184;

/// The largest weight of the diagonal self-term.
pub const MAX_SELF_WEIGHT: u64 = 256;

/// The largest number of antennas.
pub const MAX_ANTENNAS: usize = 4096;

pub open spec fn conj(z: Cplx) -> Cplx {
    Cplx { re: z.re, im: (-z.im) as i128 }
}

pub open spec fn phasor_ok(p: Phasor) -> bool {
    -PHASOR_ONE <= p.re <= PHASOR_ONE && -PHASOR_ONE <= p.im <= PHASOR_ONE
}

/// Brightnesses and phasors that one cell can sum.
pub open spec fn cell_inputs_ok(bs: Seq<i64>, ps: Seq<Phasor>) -> bool {
    &&& bs.len() == ps.len()
    &&& bs.len() <= MAX_COMPONENTS
    &&& forall|i: int| 0 <= i < bs.len() ==> -MAX_BRIGHTNESS <= #[trigger] bs[i] <= MAX_BRIGHTNESS
    &&& forall|i: int| 0 <= i < ps.len() ==> phasor_ok(#[trigger] ps[i])
}

/// Real part of `sum_{i < n} B_i P_i`.
pub open spec fn vis_re(bs: Seq<i64>, ps: Seq<Phasor>, n: int) -> int
    decreases n,
{
    if n <= 0 {
        0
    } else {
        vis_re(bs, ps, n - 1) + bs[n - 1] * ps[n - 1].re
    }
}

/// Imaginary part of `sum_{i < n} B_i P_i`.
pub open spec fn vis_im(bs: Seq<i64>, ps: Seq<Phasor>, n: int) -> int
    decreases n,
{
    if n <= 0 {
        0
    } else {
        vis_im(bs, ps, n - 1) + bs[n - 1] * ps[n - 1].im
    }
}

/// `sum_{i < n} B_i`.
pub open spec fn flux_sum(bs: Seq<i64>, n: int) -> int
    decreases n,
{
    if n <= 0 {
        0
    } else {
        flux_sum(bs, n - 1) + bs[n - 1]
    }
}

/// Real part of `B_i B_j P_i conj(P_j)`, written as `B_i P_i conj(B_j P_j)`.
pub open spec fn pair_re(bs: Seq<i64>, ps: Seq<Phasor>, i: int, j: int) -> int {
    bs[i] * (ps[i].re * (bs[j] * ps[j].re) + ps[i].im * (bs[j] * ps[j].im))
}

/// Imaginary part of `B_i B_j P_i conj(P_j)`, written as `B_i P_i conj(B_j P_j)`.
pub open spec fn pair_im(bs: Seq<i64>, ps: Seq<Phasor>, i: int, j: int) -> int {
    bs[i] * (ps[i].im * (bs[j] * ps[j].re) - ps[i].re * (bs[j] * ps[j].im))
}

/// `sum_{j < m}` of the real parts for component `i`.
pub open spec fn row_re(bs: Seq<i64>, ps: Seq<Phasor>, i: int, m: int) -> int
    decreases m,
{
    if m <= 0 {
        0
    } else {
        row_re(bs, ps, i, m - 1) + pair_re(bs, ps, i, m - 1)
    }
}

/// `sum_{j < m}` of the imaginary parts for component `i`.
pub open spec fn row_im(bs: Seq<i64>, ps: Seq<Phasor>, i: int, m: int) -> int
    decreases m,
{
    if m <= 0 {
        0
    } else {
        row_im(bs, ps, i, m - 1) + pair_im(bs, ps, i, m - 1)
    }
}

/// Real part of `sum_{i < n} sum_{j < m} B_i B_j P_i conj(P_j)`.
pub open spec fn pairs_re(bs: Seq<i64>, ps: Seq<Phasor>, n: int, m: int) -> int
    decreases n,
{
    if n <= 0 {
        0
    } else {
        pairs_re(bs, ps, n - 1, m) + row_re(bs, ps, n - 1, m)
    }
}

/// Imaginary part of `sum_{i < n} sum_{j < m} B_i B_j P_i conj(P_j)`.
pub open spec fn pairs_im(bs: Seq<i64>, ps: Seq<Phasor>, n: int, m: int) -> int
    decreases n,
{
    if n <= 0 {
        0
    } else {
        pairs_im(bs, ps, n - 1, m) + row_im(bs, ps, n - 1, m)
    }
}

/// `sum_{j < m} B_i B_j`.
pub open spec fn row_flux(bs: Seq<i64>, i: int, m: int) -> int
    decreases m,
{
    if m <= 0 {
        0
    } else {
        row_flux(bs, i, m - 1) + bs[i] * bs[m - 1]
    }
}

/// `sum_{i < n} sum_{j < m} B_i B_j`.
pub open spec fn pairs_flux(bs: Seq<i64>, n: int, m: int) -> int
    decreases n,
{
    if n <= 0 {
        0
    } else {
        pairs_flux(bs, n - 1, m) + row_flux(bs, n - 1, m)
    }
}

/// The value of one cell: over every ordered pair of components `(i, j)`,
/// `B_i B_j P_i conj(P_j)`, plus `K B_i B_j` (in phasor units squared) on
/// the diagonal.
pub open spec fn cell_re(bs: Seq<i64>, ps: Seq<Phasor>, weight: u64, diagonal: bool) -> int {
    let n = bs.len() as int;
    pairs_re(bs, ps, n, n) + if diagonal {
        weight * pairs_flux(bs, n, n) * PHASOR_ONE * PHASOR_ONE
    } else {
        0
    }
}

/// The imaginary part of one cell.
pub open spec fn cell_im(bs: Seq<i64>, ps: Seq<Phasor>) -> int {
    pairs_im(bs, ps, bs.len() as int, bs.len() as int)
}

proof fn lemma_row(bs: Seq<i64>, ps: Seq<Phasor>, i: int, m: int)
    requires
        0 <= m <= bs.len(),
        bs.len() == ps.len(),
        0 <= i < bs.len(),
    ensures
        row_re(bs, ps, i, m) == bs[i] * (ps[i].re * vis_re(bs, ps, m) + ps[i].im * vis_im(bs, ps, m)),
        row_im(bs, ps, i, m) == bs[i] * (ps[i].im * vis_re(bs, ps, m) - ps[i].re * vis_im(bs, ps, m)),
        row_flux(bs, i, m) == bs[i] * flux_sum(bs, m),
    decreases m,
{
    if m > 0 {
        lemma_row(bs, ps, i, m - 1);
        let (b, pr, pi) = (bs[i] as int, ps[i].re as int, ps[i].im as int);
        let c = bs[m - 1] as int;
        let (t1, t2) = (c * ps[m - 1].re, c * ps[m - 1].im);
        let (x, y, s) = (vis_re(bs, ps, m - 1), vis_im(bs, ps, m - 1), flux_sum(bs, m - 1));
        assert(pair_re(bs, ps, i, m - 1) == b * (pr * t1 + pi * t2));
        assert(pair_im(bs, ps, i, m - 1) == b * (pi * t1 - pr * t2));
        assert(vis_re(bs, ps, m) == x + t1);
        assert(vis_im(bs, ps, m) == y + t2);
        assert(b * (pr * x + pi * y) + b * (pr * t1 + pi * t2) == b * (pr * (x + t1) + pi * (y + t2)))
            by (nonlinear_arith);
        assert(b * (pi * x - pr * y) + b * (pi * t1 - pr * t2) == b * (pi * (x + t1) - pr * (y + t2)))
            by (nonlinear_arith);
        assert(b * s + b * c == b * (s + c)) by (nonlinear_arith);
        assert(row_re(bs, ps, i, m) == row_re(bs, ps, i, m - 1) + pair_re(bs, ps, i, m - 1));
        assert(row_im(bs, ps, i, m) == row_im(bs, ps, i, m - 1) + pair_im(bs, ps, i, m - 1));
        assert(row_re(bs, ps, i, m) == b * (pr * (x + t1) + pi * (y + t2)));
        assert(row_im(bs, ps, i, m) == b * (pi * (x + t1) - pr * (y + t2)));
    } else {
        let (b, pr, pi) = (bs[i] as int, ps[i].re as int, ps[i].im as int);
        assert(b * (pr * 0 + pi * 0) == 0 && b * (pi * 0 - pr * 0) == 0 && b * 0 == 0)
            by (nonlinear_arith);
    }
}

proof fn lemma_pairs(bs: Seq<i64>, ps: Seq<Phasor>, n: int, m: int)
    requires
        0 <= n <= bs.len(),
        0 <= m <= bs.len(),
        bs.len() == ps.len(),
    ensures
        pairs_re(bs, ps, n, m) == vis_re(bs, ps, n) * vis_re(bs, ps, m) + vis_im(bs, ps, n) * vis_im(
            bs,
            ps,
            m,
        ),
        pairs_im(bs, ps, n, m) == vis_im(bs, ps, n) * vis_re(bs, ps, m) - vis_re(bs, ps, n) * vis_im(
            bs,
            ps,
            m,
        ),
        pairs_flux(bs, n, m) == flux_sum(bs, n) * flux_sum(bs, m),
    decreases n,
{
    if n > 0 {
        lemma_pairs(bs, ps, n - 1, m);
        lemma_row(bs, ps, n - 1, m);
        let (b, pr, pi) = (bs[n - 1] as int, ps[n - 1].re as int, ps[n - 1].im as int);
        let (x, y, s) = (vis_re(bs, ps, n - 1), vis_im(bs, ps, n - 1), flux_sum(bs, n - 1));
        let (xm, ym, sm) = (vis_re(bs, ps, m), vis_im(bs, ps, m), flux_sum(bs, m));
        let (t1, t2) = (b * pr, b * pi);
        assert(b * (pr * xm + pi * ym) == t1 * xm + t2 * ym) by (nonlinear_arith)
            requires
                t1 == b * pr,
                t2 == b * pi,
        ;
        assert(b * (pi * xm - pr * ym) == t2 * xm - t1 * ym) by (nonlinear_arith)
            requires
                t1 == b * pr,
                t2 == b * pi,
        ;
        assert(x * xm + y * ym + (t1 * xm + t2 * ym) == (x + t1) * xm + (y + t2) * ym)
            by (nonlinear_arith);
        assert(y * xm - x * ym + (t2 * xm - t1 * ym) == (y + t2) * xm - (x + t1) * ym)
            by (nonlinear_arith);
        assert(s * sm + b * sm == (s + b) * sm) by (nonlinear_arith);
    } else {
        let (xm, ym, sm) = (vis_re(bs, ps, m), vis_im(bs, ps, m), flux_sum(bs, m));
        assert(0 * xm + 0 * ym == 0 && 0 * xm - 0 * ym == 0 && 0 * sm == 0) by (nonlinear_arith);
    }
}

/// The sum over ordered pairs of components factors: its real part is
/// `|sum_i B_i P_i|^2`, its imaginary part is zero, and the self-term sum
/// is `(sum_i B_i)^2`.
pub proof fn lemma_pair_sum_factors(bs: Seq<i64>, ps: Seq<Phasor>)
    requires
        bs.len() == ps.len(),
    ensures
        pairs_re(bs, ps, bs.len() as int, bs.len() as int) == vis_re(bs, ps, bs.len() as int)
            * vis_re(bs, ps, bs.len() as int) + vis_im(bs, ps, bs.len() as int) * vis_im(
            bs,
            ps,
            bs.len() as int,
        ),
        cell_im(bs, ps) == 0,
        pairs_flux(bs, bs.len() as int, bs.len() as int) == flux_sum(bs, bs.len() as int)
            * flux_sum(bs, bs.len() as int),
{
    let n = bs.len() as int;
    lemma_pairs(bs, ps, n, n);
    let (x, y) = (vis_re(bs, ps, n), vis_im(bs, ps, n));
    assert(y * x - x * y == 0) by (nonlinear_arith);
}

proof fn lemma_mul_bound(x: int, y: int, bx: int, by_: int)
    requires
        -bx <= x <= bx,
        -by_ <= y <= by_,
    ensures
        -(bx * by_) <= x * y <= bx * by_,
{
    assert(-(bx * by_) <= x * y <= bx * by_) by (nonlinear_arith)
        requires
            -bx <= x <= bx,
            -by_ <= y <= by_,
    ;
}

/// Computes one cell of the information matrix from the brightness and the
/// phasor of each component.
pub fn compute_cell(brightness: &Vec<i64>, phasors: &Vec<Phasor>, weight: u64, diagonal: bool) -> (r: Cplx)
    requires
        cell_inputs_ok(brightness@, phasors@),
        weight <= MAX_SELF_WEIGHT,
    ensures
        r.re == cell_re(brightness@, phasors@, weight, diagonal),
        r.im == cell_im(brightness@, phasors@),
        r.im == 0,
{
    let n = brightness.len();
    let mut x: i128 = 0;
    let mut y: i128 = 0;
    let mut s: i128 = 0;
    let mut k: usize = 0;
    while k < n
        invariant
            cell_inputs_ok(brightness@, phasors@),
            n == brightness@.len(),
            k <= n,
            x == vis_re(brightness@, phasors@, k as int),
            y == vis_im(brightness@, phasors@, k as int),
            s == flux_sum(brightness@, k as int),
            -(k * 0x4_0000_0000_0000) <= x <= k * 0x4_0000_0000_0000,
            -(k * 0x4_0000_0000_0000) <= y <= k * 0x4_0000_0000_0000,
            -(k * 0x4_0000_0000) <= s <= k * 0x4_0000_0000,
        decreases n - k,
    {
        let b = brightness[k];
        let p = phasors[k];
        proof {
            assert(phasor_ok(phasors@[k as int]));
            lemma_mul_bound(b as int, p.re as int, 0x4_0000_0000, 0x1_0000);
            lemma_mul_bound(b as int, p.im as int, 0x4_0000_0000, 0x1_0000);
        }
        x = x + (b as i128) * (p.re as i128);
        y = y + (b as i128) * (p.im as i128);
        s = s + b as i128;
        k = k + 1;
    }
    proof {
        lemma_mul_bound(x as int, x as int, 0x800_0000_0000_0000, 0x800_0000_0000_0000);
        lemma_mul_bound(y as int, y as int, 0x800_0000_0000_0000, 0x800_0000_0000_0000);
        lemma_mul_bound(s as int, s as int, 0x800_0000_0000, 0x800_0000_0000);
    }
    let mut re: i128 = x * x + y * y;
    if diagonal {
        let ss: i128 = s * s;
        proof {
            assert(0 <= ss) by (nonlinear_arith)
                requires
                    ss == s * s,
            ;
            assert(weight * ss <= 0x100 * 0x40_0000_0000_0000_0000_0000) by (nonlinear_arith)
                requires
                    weight <= 0x100,
                    0 <= ss <= 0x40_0000_0000_0000_0000_0000,
            ;
            assert(0 <= weight * ss) by (nonlinear_arith)
                requires
                    0 <= ss,
            ;
        }
        let ws: i128 = (weight as i128) * ss;
        let one: i128 = PHASOR_ONE as i128;
        assert(0 <= ws * one * one <= 0x4000_0000_0000_0000_0000_0000_0000_0000) by (nonlinear_arith)
            requires
                0 <= ws <= 0x100 * 0x40_0000_0000_0000_0000_0000,
                one == 0x1_0000,
        ;
        re = re + ws * one * one;
        assert(ws * one * one == weight * s * s * PHASOR_ONE * PHASOR_ONE) by (nonlinear_arith)
            requires
                ws == weight * ss,
                ss == s * s,
                one == PHASOR_ONE,
        ;
    }
    proof {
        lemma_pair_sum_factors(brightness@, phasors@);
    }
    Cplx { re, im: 0 }
}

/// The information matrix of `dim` antennas, row by row, and the noise
/// (microjansky) that scales it: entry `(a, b)` is
/// `2 * cells[a * dim + b] / (noise_sigma^2 * PHASOR_ONE^2)`.
#[derive(Clone, Debug)]
pub struct InformationMatrix {
    pub dim: usize,
    pub cells: Vec<Cplx>,
    pub noise_sigma: u64,
}

/// The inputs of cell `(a, b)`, for `a <= b`, stand at `a * dim + b`.
pub open spec fn pair_index(dim: int, a: int, b: int) -> int {
    a * dim + b
}

/// Brightnesses, and phasors for every cell on or above the diagonal, that
/// a matrix of `dim` antennas can be built from.
pub open spec fn build_inputs_ok(dim: int, bs: Seq<i64>, phs: Seq<Vec<Phasor>>) -> bool {
    &&& 0 < dim <= MAX_ANTENNAS
    &&& phs.len() == dim * dim
    &&& forall|a: int, b: int|
        0 <= a <= b < dim ==> cell_inputs_ok(bs, #[trigger] phs[pair_index(dim, a, b)]@)
}

/// What cell `(a, b)` holds: the accumulated sum on and above the diagonal,
/// its conjugate below.
pub open spec fn expected_cell(dim: int, bs: Seq<i64>, phs: Seq<Vec<Phasor>>, weight: u64, a: int, b: int) -> Cplx {
    if a <= b {
        Cplx {
            re: cell_re(bs, phs[pair_index(dim, a, b)]@, weight, a == b) as i128,
            im: cell_im(bs, phs[pair_index(dim, a, b)]@) as i128,
        }
    } else {
        conj(
            Cplx {
                re: cell_re(bs, phs[pair_index(dim, b, a)]@, weight, false) as i128,
                im: cell_im(bs, phs[pair_index(dim, b, a)]@) as i128,
            },
        )
    }
}

impl InformationMatrix {
    pub open spec fn wf(&self) -> bool {
        &&& 0 < self.dim <= MAX_ANTENNAS
        &&& self.cells@.len() == self.dim * self.dim
    }

    pub open spec fn at(&self, a: int, b: int) -> Cplx {
        self.cells@[pair_index(self.dim as int, a, b)]
    }

    /// Every entry is the conjugate of its mirror image.
    pub open spec fn is_hermitian(&self) -> bool {
        forall|a: int, b: int|
            0 <= a < self.dim && 0 <= b < self.dim ==> #[trigger] self.at(a, b) == conj(
                self.at(b, a),
            )
    }

    /// Numerator of entry `(a, b)` after scaling.
    pub open spec fn entry_num(&self, a: int, b: int) -> int {
        2 * self.at(a, b).re
    }

    /// Denominator of every entry after scaling.
    pub open spec fn entry_den(&self) -> int {
        self.noise_sigma * self.noise_sigma * PHASOR_ONE * PHASOR_ONE
    }
}

proof fn lemma_index_in_bounds(dim: int, a: int, b: int)
    requires
        0 <= a < dim,
        0 <= b < dim,
    ensures
        0 <= pair_index(dim, a, b) < dim * dim,
{
    assert(0 <= a * dim + b < dim * dim) by (nonlinear_arith)
        requires
            0 <= a < dim,
            0 <= b < dim,
    ;
}

proof fn lemma_index_order(dim: int, a1: int, b1: int, a2: int, b2: int)
    requires
        0 <= b1 < dim,
        0 <= b2 < dim,
        0 <= a1,
        0 <= a2,
        a1 < a2 || (a1 == a2 && b1 < b2),
    ensures
        pair_index(dim, a1, b1) < pair_index(dim, a2, b2),
{
    if a1 < a2 {
        assert(a1 * dim + b1 < a2 * dim + b2) by (nonlinear_arith)
            requires
                a1 < a2,
                0 <= b1 < dim,
                0 <= b2,
        ;
    }
}

/// `m` is the matrix of `dim` antennas that the brightnesses, the phasors,
/// the self-term weight and the noise give: each cell as `expected_cell`
/// says, and Hermitian.
pub open spec fn built_from(
    m: InformationMatrix,
    dim: usize,
    bs: Seq<i64>,
    phs: Seq<Vec<Phasor>>,
    weight: u64,
    noise_sigma: u64,
) -> bool {
    &&& m.wf()
    &&& m.dim == dim
    &&& m.noise_sigma == noise_sigma
    &&& forall|a: int, b: int|
        0 <= a < dim && 0 <= b < dim ==> #[trigger] m.at(a, b) == expected_cell(
            dim as int,
            bs,
            phs,
            weight,
            a,
            b,
        )
    &&& m.is_hermitian()
}

/// Builds the information matrix of `dim` antennas from the Stokes I
/// brightness of each component, the phasors of each baseline `(a, b)` with
/// `a <= b` at `phasors[a * dim + b]`, the weight `K` of the diagonal
/// self-term, and the noise `sigma`.
///
/// Cells on and above the diagonal hold the accumulated sums; each cell
/// below holds the conjugate of its mirror image, so the matrix is
/// Hermitian. With no components there is nothing to build from, and that
/// is reported.
pub fn build(
    dim: usize,
    brightness: &Vec<i64>,
    phasors: &Vec<Vec<Phasor>>,
    weight: u64,
    noise_sigma: u64,
) -> (r: Result<InformationMatrix, VetoError>)
    requires
        build_inputs_ok(dim as int, brightness@, phasors@),
        weight <= MAX_SELF_WEIGHT,
        noise_sigma > 0,
    ensures
        brightness@.len() == 0 ==> r == Err::<InformationMatrix, VetoError>(
            VetoError::NoSourcesAfterVeto,
        ),
        brightness@.len() > 0 ==> r is Ok && built_from(
            r->Ok_0,
            dim,
            brightness@,
            phasors@,
            weight,
            noise_sigma,
        ),
{
    if brightness.len() == 0 {
        return Err(VetoError::NoSourcesAfterVeto);
    }
    Ok(build_cells(dim, brightness, phasors, weight, noise_sigma))
}

fn build_cells(
    dim: usize,
    brightness: &Vec<i64>,
    phasors: &Vec<Vec<Phasor>>,
    weight: u64,
    noise_sigma: u64,
) -> (m: InformationMatrix)
    requires
        build_inputs_ok(dim as int, brightness@, phasors@),
        weight <= MAX_SELF_WEIGHT,
    ensures
        built_from(m, dim, brightness@, phasors@, weight, noise_sigma),
{
    let ghost bs = brightness@;
    let ghost phs = phasors@;
    let total = phasors.len();
    let mut cells: Vec<Cplx> = Vec::new();
    let mut a: usize = 0;
    while a < dim
        invariant
            build_inputs_ok(dim as int, bs, phs),
            bs == brightness@,
            phs == phasors@,
            total == dim * dim,
            weight <= MAX_SELF_WEIGHT,
            a <= dim,
            cells@.len() == a * dim,
            forall|i: int, j: int|
                0 <= i < a && 0 <= j < dim ==> #[trigger] cells@[pair_index(dim as int, i, j)]
                    == expected_cell(dim as int, bs, phs, weight, i, j),
        decreases dim - a,
    {
        let mut b: usize = 0;
        while b < dim
            invariant
                build_inputs_ok(dim as int, bs, phs),
                bs == brightness@,
                phs == phasors@,
                total == dim * dim,
                weight <= MAX_SELF_WEIGHT,
                a < dim,
                b <= dim,
                cells@.len() == a * dim + b,
                forall|i: int, j: int|
                    0 <= i < a && 0 <= j < dim ==> #[trigger] cells@[pair_index(dim as int, i, j)]
                        == expected_cell(dim as int, bs, phs, weight, i, j),
                forall|j: int|
                    0 <= j < b ==> #[trigger] cells@[pair_index(dim as int, a as int, j)]
                        == expected_cell(dim as int, bs, phs, weight, a as int, j),
            decreases dim - b,
        {
            let ghost before = cells@;
            proof {
                lemma_index_in_bounds(dim as int, a as int, b as int);
                lemma_index_in_bounds(dim as int, b as int, a as int);
            }
            let idx = a * dim + b;
            if a <= b {
                assert(cell_inputs_ok(bs, phs[pair_index(dim as int, a as int, b as int)]@));
                let c = compute_cell(brightness, &phasors[idx], weight, a == b);
                cells.push(c);
            } else {
                let mirror = b * dim + a;
                proof {
                    lemma_index_order(dim as int, b as int, a as int, a as int, b as int);
                }
                proof {
                    lemma_pair_sum_factors(bs, phs[pair_index(dim as int, b as int, a as int)]@);
                }
                let c = cells[mirror];
                cells.push(Cplx { re: c.re, im: -c.im });
            }
            assert forall|i: int, j: int|
                0 <= i < a && 0 <= j < dim implies #[trigger] cells@[pair_index(dim as int, i, j)]
                    == expected_cell(dim as int, bs, phs, weight, i, j) by {
                lemma_index_order(dim as int, i, j, a as int, b as int);
                assert(cells@[pair_index(dim as int, i, j)] == before[pair_index(dim as int, i, j)]);
            }
            assert forall|j: int|
                0 <= j < b + 1 implies #[trigger] cells@[pair_index(dim as int, a as int, j)]
                    == expected_cell(dim as int, bs, phs, weight, a as int, j) by {
                if j < b {
                    lemma_index_order(dim as int, a as int, j, a as int, b as int);
                    assert(cells@[pair_index(dim as int, a as int, j)] == before[pair_index(dim as int, a as int, j)]);
                }
            }
            b = b + 1;
        }
        assert((a + 1) * dim == a * dim + dim) by (nonlinear_arith);
        a = a + 1;
    }
    let m = InformationMatrix { dim, cells, noise_sigma };
    assert forall|i: int, j: int|
        0 <= i < dim && 0 <= j < dim implies #[trigger] m.at(i, j) == conj(m.at(j, i)) by {
        assert(m.at(i, j) == expected_cell(dim as int, bs, phs, weight, i, j));
        assert(m.at(j, i) == expected_cell(dim as int, bs, phs, weight, j, i));
        if i <= j {
            lemma_pair_sum_factors(bs, phs[pair_index(dim as int, i, j)]@);
        } else {
            lemma_pair_sum_factors(bs, phs[pair_index(dim as int, j, i)]@);
        }
    }
    m
}

/// Doubling the noise, with the cells unchanged, divides every scaled entry
/// by exactly four: `entry_num / entry_den` becomes a quarter of itself.
pub proof fn lemma_double_noise_quarters_entries(m1: InformationMatrix, m2: InformationMatrix, a: int, b: int)
    requires
        m1.wf(),
        m2.dim == m1.dim,
        m2.cells@ == m1.cells@,
        m2.noise_sigma == 2 * m1.noise_sigma,
    ensures
        m2.entry_num(a, b) == m1.entry_num(a, b),
        m2.entry_den() == 4 * m1.entry_den(),
{
    let s = m1.noise_sigma as int;
    assert((2 * s) * (2 * s) * PHASOR_ONE * PHASOR_ONE == 4 * (s * s * PHASOR_ONE * PHASOR_ONE))
        by (nonlinear_arith);
}

} // verus!
