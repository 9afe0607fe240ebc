//! Difficulty and performance calculation for rhythm-game play data.
//!
//! The crate covers the parts of the calculation pipeline with exact,
//! integer-expressible semantics: reconciling a target accuracy or partial
//! judgement counts into a complete hit-statistic set, estimating effective
//! misses from achieved combo, counting the combo contributions of normalized
//! objects, and an incremental difficulty cursor that recomputes aggregate
//! attributes one object at a time.
//!
//! Quantities that are fractional in nature (accuracy, skill ratings,
//! multipliers) are carried as scaled integers: accuracy in hundredths of a
//! percent ("basis points"), ratings and multipliers in thousandths
//! ("milli-units").

pub mod attributes;
pub mod gradual;
pub mod mods;
pub mod pp;
