//! Table-driven byte signal processing: 256-entry lookup tables and
//! named reductions over byte sequences.

pub mod neural;
