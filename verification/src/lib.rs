//! Procedural placement of non-overlapping triangular obstacles inside a
//! bounded planar region.
//!
//! The crate is split in two layers. The geometry kernel (`scalar`, `point`,
//! `rat`, `segment`, `triangle`, `rotation`, `region`) provides exact
//! integer geometry on a fixed-point grid of one thousandth of a world unit:
//! distances are handled as exact rational squared distances, so every
//! comparison the placement logic makes is exact. The placement layer
//! (`sampler`, `generator`) turns externally supplied random draws into
//! candidate placements and runs the acceptance test that keeps every pair
//! of accepted shapes separated by the larger of their personal-space radii.

pub mod scalar;

pub mod point;

pub mod rat;

pub mod segment;

pub mod triangle;

pub mod rotation;

pub mod region;

pub mod sampler;

pub mod generator;
