//! Survey data on wireless networks: nodes recorded at positions in space,
//! each with the networks that a scan found there, kept in one scan map.
//!
//! The library decides and computes; it reads no input, runs no scan and
//! writes no file. [`acquire`] leads the recording of one node and [`setup`]
//! the making of a new map, [`scan`] orders and shows what a scan found,
//! [`export`] writes the map as tables, and [`model`] holds the data.

pub mod acquire;
pub mod error;
pub mod export;
pub mod model;
pub mod order;
pub mod scan;
pub mod setup;
pub mod text;
