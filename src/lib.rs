//! Lloyd relaxation of a point set over Voronoi cells, in fixed-point
//! integer coordinates.
//!
//! Coordinates are integers on a grid whose unit the caller chooses (for
//! example a fraction of a pixel). The blend factor is counted in hundredths:
//! `0` leaves a point where it is, `100` moves it onto its cell's centroid.

pub mod geometry;
pub mod centroid;
pub mod point_set;
pub mod relax;
pub mod controller;
pub mod stippler;
