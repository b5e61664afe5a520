//! A weather client's local forecast cache and read path.
//!
//! The cache keeps cities and their per-day forecasts, with idempotent city
//! insertion, last-write-wins forecast upserts, cascading deletion and a
//! staleness-aware selection of the requested day offsets. Network and disk
//! sit outside this crate; everything here works on plain values.

pub mod args;
pub mod cities;
pub mod date;
pub mod db;
pub mod models;
pub mod render;
pub mod text;
pub mod wmo;
