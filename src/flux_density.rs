//! Flux densities and the spectral models that estimate them at a frequency.
use vstd::prelude::*;

use vec1::Vec1;

verus! {

#[verifier::external_type_specification]
#[verifier::external_body]
#[verifier::reject_recursive_types(I)]
pub struct ExVec1<I>(Vec1<I>);

pub assume_specification<T: Clone>[ <Vec1<T> as Clone>::clone ](v: &Vec1<T>) -> Vec1<T>;

/// The samples a non-empty vector of flux densities holds, in order.
pub uninterp spec fn flux_samples(v: Vec1<FluxDensity>) -> Seq<FluxDensity>;

/// Relies on `Vec1::as_vec`: the samples as a `Vec`, of which there is at
/// least one.
#[verifier::external_body]
fn samples(v: &Vec1<FluxDensity>) -> (r: &Vec<FluxDensity>)
    ensures
        r@ == flux_samples(*v),
        r@.len() >= 1,
{
    v.as_vec()
}

/// Spectral index assumed for a list model that holds a single sample, in
/// millionths.
pub const DEFAULT_SPEC_INDEX: i64 = -800000;

/// Brightness in four polarisation bases at one frequency.
/// `freq` is in millihertz; `i`, `q`, `u`, `v` are in microjansky.
#[derive(Clone, Copy, Debug, PartialEq, Eq, Structural)]
pub struct FluxDensity {
    pub freq: u64,
    pub i: i64,
    pub q: i64,
    pub u: i64,
    pub v: i64,
}

/// The spectral model of a sky component.
/// Spectral indices `si` and the curvature `q` are in millionths.
#[derive(Clone, Debug)]
pub enum FluxDensityType {
    /// Samples in ascending order of frequency; never empty.
    List(Vec1<FluxDensity>),
    PowerLaw { si: i64, fd: FluxDensity },
    CurvedPowerLaw { si: i64, fd: FluxDensity, q: i64 },
}

/// The spectral index an estimate scales with.
#[derive(Clone, Copy, Debug, PartialEq, Eq, Structural)]
pub enum SpectralIndex {
    /// A catalogued index, in millionths.
    Given(i64),
    /// The index that fits the Stokes I of two samples:
    /// `ln(hi.i / lo.i) / ln(hi.freq / lo.freq)`.
    Fitted { lo: FluxDensity, hi: FluxDensity },
}

/// How a flux density at a target frequency follows from a spectral model.
/// Every variant stands for a flux density whose frequency is the target.
#[derive(Clone, Copy, Debug, PartialEq, Eq, Structural)]
pub enum Estimate {
    /// This sample, unchanged.
    Sample(FluxDensity),
    /// Every Stokes value of `anchor` times `(f / anchor.freq) ^ index`,
    /// times `exp(curvature * ln(f / anchor.freq) ^ 2)`.
    Scaled { anchor: FluxDensity, index: SpectralIndex, curvature: i64 },
    /// Every Stokes value on the straight line through `lo` and `hi`.
    Linear { lo: FluxDensity, hi: FluxDensity },
}

#[derive(Clone, Copy, Debug, PartialEq, Eq, Structural)]
pub enum FluxError {
    /// The samples of a list model are not in ascending order of frequency.
    UnsortedList,
}

/// Frequencies never decrease along the list.
pub open spec fn sorted_by_freq(s: Seq<FluxDensity>) -> bool {
    forall|k: int| 0 < k < s.len() ==> #[trigger] s[k].freq >= s[k - 1].freq
}

/// The first index at or after `k` whose sample lies at `f`.
pub open spec fn first_hit(s: Seq<FluxDensity>, f: u64, k: int) -> Option<int>
    decreases s.len() - k,
{
    if k < 0 || k >= s.len() {
        None
    } else if s[k].freq == f {
        Some(k)
    } else {
        first_hit(s, f, k + 1)
    }
}

/// The first index `j` at or after `k` such that `f` lies below sample
/// `j + 1`; the start of the last pair when there is none.
pub open spec fn bracket(s: Seq<FluxDensity>, f: u64, k: int) -> int
    decreases s.len() - k,
{
    if k < 0 || k + 2 >= s.len() {
        s.len() - 2
    } else if f < s[k + 1].freq {
        k
    } else {
        bracket(s, f, k + 1)
    }
}

/// Scaling from `anchor`, which at its own frequency is the anchor itself.
pub open spec fn scale_from(anchor: FluxDensity, index: SpectralIndex, curvature: i64, f: u64) -> Estimate {
    if anchor.freq == f {
        Estimate::Sample(anchor)
    } else {
        Estimate::Scaled { anchor, index, curvature }
    }
}

/// Both values are non-zero and share a sign, so that their ratio has a
/// logarithm.
pub open spec fn same_sign(a: i64, b: i64) -> bool {
    (a > 0 && b > 0) || (a < 0 && b < 0)
}

/// The estimate from a sorted list of two or more samples.
pub open spec fn list_estimate(s: Seq<FluxDensity>, f: u64) -> Estimate {
    match first_hit(s, f, 0) {
        Some(j) => Estimate::Sample(s[j]),
        None => {
            let k = bracket(s, f, 0);
            let lo = s[k];
            let hi = s[k + 1];
            if !same_sign(lo.i, hi.i) {
                Estimate::Linear { lo, hi }
            } else {
                Estimate::Scaled {
                    anchor: if hi.freq < f { hi } else { lo },
                    index: SpectralIndex::Fitted { lo, hi },
                    curvature: 0,
                }
            }
        },
    }
}

/// What `estimate_at_freq` returns.
pub open spec fn estimate_spec(m: FluxDensityType, f: u64) -> Result<Estimate, FluxError> {
    match m {
        FluxDensityType::PowerLaw { si, fd } => Ok(scale_from(fd, SpectralIndex::Given(si), 0, f)),
        FluxDensityType::CurvedPowerLaw { si, fd, q } => Ok(
            scale_from(fd, SpectralIndex::Given(si), q, f),
        ),
        FluxDensityType::List(v) => {
            let fds = flux_samples(v);
            if fds.len() == 1 {
                Ok(scale_from(fds[0], SpectralIndex::Given(DEFAULT_SPEC_INDEX), 0, f))
            } else if !sorted_by_freq(fds) {
                Err(FluxError::UnsortedList)
            } else {
                Ok(list_estimate(fds, f))
            }
        },
    }
}

fn scale_from_exec(anchor: FluxDensity, index: SpectralIndex, curvature: i64, f: u64) -> (r: Estimate)
    ensures
        r == scale_from(anchor, index, curvature, f),
{
    if anchor.freq == f {
        Estimate::Sample(anchor)
    } else {
        Estimate::Scaled { anchor, index, curvature }
    }
}

fn is_sorted_by_freq(fds: &Vec<FluxDensity>) -> (r: bool)
    ensures
        r == sorted_by_freq(fds@),
{
    let n = fds.len();
    let mut k: usize = 1;
    while k < n
        invariant
            1 <= k,
            n == fds@.len(),
            forall|j: int| 0 < j < k && j < n ==> #[trigger] fds@[j].freq >= fds@[j - 1].freq,
        decreases n - k,
    {
        if fds[k].freq < fds[k - 1].freq {
            assert(!(fds@[k as int].freq >= fds@[k - 1].freq));
            return false;
        }
        k = k + 1;
    }
    true
}

fn first_hit_exec(fds: &Vec<FluxDensity>, f: u64) -> (r: Option<usize>)
    ensures
        match r {
            Some(j) => first_hit(fds@, f, 0) == Some(j as int) && j < fds@.len(),
            None => first_hit(fds@, f, 0) == None::<int>,
        },
{
    let n = fds.len();
    let mut h: usize = 0;
    while h < n
        invariant
            h <= n,
            n == fds@.len(),
            first_hit(fds@, f, 0) == first_hit(fds@, f, h as int),
        decreases n - h,
    {
        if fds[h].freq == f {
            return Some(h);
        }
        h = h + 1;
    }
    None
}

/// The pair of samples that brackets `f`.
fn bracket_exec(fds: &Vec<FluxDensity>, f: u64) -> (r: (FluxDensity, FluxDensity))
    requires
        fds@.len() >= 2,
    ensures
        r.0 == fds@[bracket(fds@, f, 0)],
        r.1 == fds@[bracket(fds@, f, 0) + 1],
{
    let n = fds.len();
    let mut b: usize = 0;
    while b + 2 < n && !(f < fds[b + 1].freq)
        invariant
            b + 2 <= n,
            n == fds@.len(),
            bracket(fds@, f, 0) == bracket(fds@, f, b as int),
        decreases n - b,
    {
        b = b + 1;
    }
    (fds[b], fds[b + 1])
}

fn list_estimate_exec(fds: &Vec<FluxDensity>, f: u64) -> (r: Estimate)
    requires
        fds@.len() >= 2,
    ensures
        r == list_estimate(fds@, f),
{
    if let Some(j) = first_hit_exec(fds, f) {
        return Estimate::Sample(fds[j]);
    }
    let (lo, hi) = bracket_exec(fds, f);
    if !((lo.i > 0 && hi.i > 0) || (lo.i < 0 && hi.i < 0)) {
        Estimate::Linear { lo, hi }
    } else {
        let anchor = if hi.freq < f {
            hi
        } else {
            lo
        };
        Estimate::Scaled { anchor, index: SpectralIndex::Fitted { lo, hi }, curvature: 0 }
    }
}

impl FluxDensityType {
    /// Estimates the flux density at `freq_hz` (in millihertz).
    ///
    /// A power law scales its reference sample; a curved power law does so
    /// with its curvature. A list with one sample scales it with the default
    /// index. A longer list returns a sample that lies at the frequency,
    /// else takes the first pair whose upper frequency exceeds it (the last
    /// pair past the end): unless their Stokes I are non-zero with one sign
    /// it interpolates linearly, else it scales with the pair's fitted index from the lower
    /// sample, or from the upper one when the frequency lies beyond it.
    /// A list out of frequency order is refused.
    pub fn estimate_at_freq(&self, freq_hz: u64) -> (r: Result<Estimate, FluxError>)
        ensures
            r == estimate_spec(*self, freq_hz),
    {
        match self {
            FluxDensityType::PowerLaw { si, fd } => Ok(
                scale_from_exec(*fd, SpectralIndex::Given(*si), 0, freq_hz),
            ),
            FluxDensityType::CurvedPowerLaw { si, fd, q } => Ok(
                scale_from_exec(*fd, SpectralIndex::Given(*si), *q, freq_hz),
            ),
            FluxDensityType::List(v) => {
                let fds = samples(v);
                if fds.len() == 1 {
                    Ok(scale_from_exec(fds[0], SpectralIndex::Given(DEFAULT_SPEC_INDEX), 0, freq_hz))
                } else if !is_sorted_by_freq(fds) {
                    Err(FluxError::UnsortedList)
                } else {
                    Ok(list_estimate_exec(fds, freq_hz))
                }
            },
        }
    }
}

/// A power law estimated at its reference frequency gives back its
/// reference sample unchanged.
pub proof fn lemma_power_law_at_reference(si: i64, fd: FluxDensity)
    ensures
        estimate_spec(FluxDensityType::PowerLaw { si, fd }, fd.freq) == Ok::<Estimate, FluxError>(
            Estimate::Sample(fd),
        ),
{
}

/// A curved power law with zero curvature estimates, at every frequency,
/// what the power law with the same index and reference sample does.
pub proof fn lemma_zero_curvature_is_power_law(si: i64, fd: FluxDensity, f: u64)
    ensures
        estimate_spec(FluxDensityType::CurvedPowerLaw { si, fd, q: 0 }, f) == estimate_spec(
            FluxDensityType::PowerLaw { si, fd },
            f,
        ),
{
}

} // verus!
