//! Sector viewer core: the in-memory sector data model, the hex-grid
//! occupancy index, the hex/Cartesian coordinate transform, the seeded
//! starfield, and the selection state machine.
//!
//! Cartesian plot coordinates are carried as integers in milli-units:
//! one plot unit is 1000 milli-units, so a half-cell offset is 500.

pub mod app;
pub mod coords;
pub mod grid;
pub mod model;
pub mod starfield;
