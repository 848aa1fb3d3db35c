//! Instrument lookup with cached price histories: the freshness rule of the
//! resource cache, the price-history parser, query matching and the assembly
//! of enriched results.

pub mod cache;
pub mod text;
pub mod series;
pub mod stock;
