//! Search of an options chain for balanced butterfly and condor spreads
//! around a target price, with exact risk/reward metrics.
//!
//! All prices and strikes are carried as integer cents; every quotient the
//! metric formulas produce is kept as an exact `Ratio`, so the whole
//! computation is deterministic and free of rounding.

pub mod butterfly;
pub mod chain;
pub mod condor;
pub mod laws;
pub mod locate;
pub mod metrics;
pub mod structs;
