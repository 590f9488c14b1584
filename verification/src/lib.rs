//! Deterministic experiment bookkeeping for route-visible routing simulations:
//! parameter sets, suite matrices, scenario families, replay reduction and
//! report aggregation.
use vstd::prelude::*;

pub mod text;
pub mod stats;
pub mod topology;
pub mod params;
pub mod summary;
pub mod breakdown;
pub mod external;
pub mod replay;
pub mod run_metrics;
pub mod scenario;
pub mod comparison;
pub mod comparison_families;
pub mod pathway;
pub mod batman;
pub mod suite;
pub mod run_summary;
pub mod aggregate_order;

verus! {
} // verus!
