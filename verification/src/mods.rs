//! Modifier flags: an opaque bitmask exposing boolean capability queries and
//! a clock-rate multiplier. The bit encoding follows the conventional game
//! API layout; the flags are queried, never mutated.

use vstd::prelude::*;

verus! {

/// No-fail modifier bit.
pub const NO_FAIL: u32 = 1;
/// Touch-device modifier bit.
pub const TOUCH_DEVICE: u32 = 4;
/// Hidden modifier bit.
pub const HIDDEN: u32 = 8;
/// Double-time modifier bit (raises the clock rate).
pub const DOUBLE_TIME: u32 = 64;
/// Relax modifier bit.
pub const RELAX: u32 = 128;
/// Half-time modifier bit (lowers the clock rate).
pub const HALF_TIME: u32 = 256;
/// Nightcore modifier bit (raises the clock rate like double-time).
pub const NIGHTCORE: u32 = 512;
/// Flashlight modifier bit.
pub const FLASHLIGHT: u32 = 1024;
/// Spun-out modifier bit (spinner-penalty relevant).
pub const SPUN_OUT: u32 = 4096;

/// Modifier flags of a play, stored as a bitmask.
#[derive(Clone, Copy, Debug)]
pub struct ModFlags {
    pub bits: u32,
}

impl ModFlags {
    /// Wrap a raw modifier bitmask.
    pub fn new(bits: u32) -> (r: Self)
        ensures
            r.bits == bits,
    {
        ModFlags { bits }
    }

    /// Whether the no-fail modifier is active.
    pub fn nf(&self) -> (r: bool)
        ensures
            r == (self.bits & NO_FAIL != 0),
    {
        self.bits & NO_FAIL != 0
    }

    /// Whether the spun-out modifier is active.
    pub fn so(&self) -> (r: bool)
        ensures
            r == (self.bits & SPUN_OUT != 0),
    {
        self.bits & SPUN_OUT != 0
    }

    /// Whether the relax modifier is active.
    pub fn rx(&self) -> (r: bool)
        ensures
            r == (self.bits & RELAX != 0),
    {
        self.bits & RELAX != 0
    }

    /// Whether the touch-device modifier is active.
    pub fn td(&self) -> (r: bool)
        ensures
            r == (self.bits & TOUCH_DEVICE != 0),
    {
        self.bits & TOUCH_DEVICE != 0
    }

    /// Whether the hidden modifier is active.
    pub fn hd(&self) -> (r: bool)
        ensures
            r == (self.bits & HIDDEN != 0),
    {
        self.bits & HIDDEN != 0
    }

    /// Whether the flashlight modifier is active.
    pub fn fl(&self) -> (r: bool)
        ensures
            r == (self.bits & FLASHLIGHT != 0),
    {
        self.bits & FLASHLIGHT != 0
    }

    /// The clock-rate multiplier in percent: 150 under double-time or
    /// nightcore, 75 under half-time, and 100 otherwise.
    pub fn clock_rate_percent(&self) -> (r: u32)
        ensures
            r == (if self.bits & (DOUBLE_TIME | NIGHTCORE) != 0 {
                150u32
            } else if self.bits & HALF_TIME != 0 {
                75u32
            } else {
                100u32
            }),
    {
        if self.bits & (DOUBLE_TIME | NIGHTCORE) != 0 {
            150
        } else if self.bits & HALF_TIME != 0 {
            75
        } else {
            100
        }
    }
}

} // verus!
