//! Deterministic layout and color-selection engine for procedurally
//! generated 2-D vector sketches.
//!
//! Given a seed, a canvas size and a palette table, the library
//! derives the geometric skeleton of a sketch — grids, node
//! sequences, jittered polylines, smoothed paths — and the colors
//! that decorate it. All geometry is exact: coordinates are
//! rationals held as integer numerators over an explicit common
//! denominator, and the random context is a pure function of its
//! 64-bit seed, so every layout function's contract pins its whole
//! result as a function of the seed and its inputs; two runs from
//! one seed produce identical geometry.
//!
//! The drawing surface itself — path filling, stroking, encoding —
//! is an outside collaborator: the library ends at ordered lists of
//! path-construction commands and resolved colors.

pub mod arith;
pub mod burst;
pub mod color;
pub mod dual;
pub mod grid;
pub mod nodes;
pub mod ribbon;
pub mod rng;
pub mod seed;
pub mod segment;
pub mod series;
pub mod size;
pub mod smooth;
pub mod theme;
pub mod vline;
pub mod wires;
