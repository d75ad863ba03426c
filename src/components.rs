//! Sky-model components: where they are, their shape, and their spectrum.
use vstd::prelude::*;

use crate::flux_density::{estimate_spec, Estimate, FluxDensityType, FluxError};

verus! {

/// A position on the sky, in microdegrees.
#[derive(Clone, Copy, Debug, PartialEq, Eq, Structural)]
pub struct RaDec {
    pub ra: i64,
    pub dec: i64,
}

/// The direction cosines `l` and `m` of a position relative to a phase
/// centre, in billionths.
#[derive(Clone, Copy, Debug, PartialEq, Eq, Structural)]
pub struct LmOffset {
    pub l: i64,
    pub m: i64,
}

/// One shapelet basis coefficient; `value` is in millionths.
#[derive(Clone, Copy, Debug, PartialEq, Eq, Structural)]
pub struct ShapeletCoeff {
    pub n1: u8,
    pub n2: u8,
    pub value: i64,
}

/// The shape of a component. Axes are in microarcseconds, position angles
/// in microdegrees.
#[derive(Clone, Debug)]
pub enum ComponentType {
    Point,
    Gaussian { maj: i64, min: i64, pa: i64 },
    Shapelet { maj: i64, min: i64, pa: i64, coeffs: Vec<ShapeletCoeff> },
}

impl ComponentType {
    pub fn is_point(&self) -> (r: bool)
        ensures
            r == (*self is Point),
    {
        match self {
            ComponentType::Point => true,
            _ => false,
        }
    }

    pub fn is_gaussian(&self) -> (r: bool)
        ensures
            r == (*self is Gaussian),
    {
        match self {
            ComponentType::Gaussian { .. } => true,
            _ => false,
        }
    }

    pub fn is_shapelet(&self) -> (r: bool)
        ensures
            r == (*self is Shapelet),
    {
        match self {
            ComponentType::Shapelet { .. } => true,
            _ => false,
        }
    }
}

/// A sky-model component.
#[derive(Clone, Debug)]
pub struct SourceComponent {
    pub radec: RaDec,
    pub comp_type: ComponentType,
    pub flux_type: FluxDensityType,
}

impl SourceComponent {
    /// Estimates the flux density of this component at `freq_hz` (in
    /// millihertz).
    pub fn estimate_at_freq(&self, freq_hz: u64) -> (r: Result<Estimate, FluxError>)
        ensures
            r == estimate_spec(self.flux_type, freq_hz),
    {
        self.flux_type.estimate_at_freq(freq_hz)
    }

    pub fn is_point(&self) -> (r: bool)
        ensures
            r == (self.comp_type is Point),
    {
        self.comp_type.is_point()
    }

    pub fn is_gaussian(&self) -> (r: bool)
        ensures
            r == (self.comp_type is Gaussian),
    {
        self.comp_type.is_gaussian()
    }

    pub fn is_shapelet(&self) -> (r: bool)
        ensures
            r == (self.comp_type is Shapelet),
    {
        self.comp_type.is_shapelet()
    }
}

} // verus!
