//! Building blocks of a byte-level computation graph.

pub mod traits;
pub mod reduction;
pub mod mapper;
pub mod mapper_defaults;
pub mod combinator;
pub mod nodes;
