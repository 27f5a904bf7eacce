//! Core of an automated judge for programming submissions: output comparison,
//! per-test verdicts, score aggregation, the admission gate and the judging
//! pipeline that sequences them.
pub mod compare;
pub mod verdict;
pub mod gate;
pub mod catalog;
pub mod pipeline;
pub mod sandbox;
