//! Sensitivity of a radio-interferometer array to a sky model: spectral
//! models of sky components, the vetoes that prune a component list, and the
//! information matrix built from baselines and components.
//!
//! Quantities are held as integers in fixed units: frequencies in millihertz,
//! flux densities in microjansky, spectral indices and curvatures in
//! millionths. Transcendental functions (powers, logarithms, exponentials,
//! trigonometry) are evaluated by the caller; the library decides which
//! samples and which formula apply, and does all exact arithmetic.
pub mod baselines;
pub mod component_list;
pub mod components;
pub mod flux_density;
pub mod frequencies;
pub mod matrix;
pub mod source_list;
