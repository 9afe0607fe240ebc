//! Aggregated per-map difficulty attributes: object-kind counts and the
//! maximum achievable combo, together with the combo accounting of the
//! object normalizer.
//!
//! A normalized object contributes one combo increment for its head, and a
//! slider additionally contributes one increment for every visited vertex:
//! each tick of the first span, one reverse point per extra span plus a
//! replay of the ticks, and the final tail vertex.

use vstd::prelude::*;

verus! {

/// How many combo increments one slider contributes: the head, the `ticks`
/// ticks of the first span, one reverse vertex and `ticks` replayed ticks
/// for each of the `repeats - 1` extra spans, and the tail vertex.
pub open spec fn slider_combo(ticks: int, repeats: int) -> int {
    1 + ticks + (repeats - 1) * (ticks + 1) + 1
}

/// Aggregated difficulty attributes of one map under one modifier set:
/// object-kind counts and the maximum achievable combo.
#[derive(Clone, Copy, Debug)]
pub struct DifficultyAttributes {
    pub n_circles: usize,
    pub n_sliders: usize,
    pub n_spinners: usize,
    pub max_combo: usize,
}

impl Default for DifficultyAttributes {
    /// Attributes of an empty map: every count is zero.
    fn default() -> (r: Self)
        ensures
            r.n_circles == 0,
            r.n_sliders == 0,
            r.n_spinners == 0,
            r.max_combo == 0,
    {
        DifficultyAttributes { n_circles: 0, n_sliders: 0, n_spinners: 0, max_combo: 0 }
    }
}

impl DifficultyAttributes {
    /// Account for one circle: one more circle, one combo increment.
    pub fn add_circle(&mut self)
        requires
            old(self).n_circles < usize::MAX,
            old(self).max_combo < usize::MAX,
        ensures
            final(self).n_circles == old(self).n_circles + 1,
            final(self).max_combo == old(self).max_combo + 1,
            final(self).n_sliders == old(self).n_sliders,
            final(self).n_spinners == old(self).n_spinners,
    {
        self.n_circles = self.n_circles + 1;
        self.max_combo = self.max_combo + 1;
    }

    /// Account for one spinner: one more spinner, one combo increment.
    pub fn add_spinner(&mut self)
        requires
            old(self).n_spinners < usize::MAX,
            old(self).max_combo < usize::MAX,
        ensures
            final(self).n_spinners == old(self).n_spinners + 1,
            final(self).max_combo == old(self).max_combo + 1,
            final(self).n_circles == old(self).n_circles,
            final(self).n_sliders == old(self).n_sliders,
    {
        self.n_spinners = self.n_spinners + 1;
        self.max_combo = self.max_combo + 1;
    }

    /// Account for one slider with `ticks` ticks in its first span and
    /// `repeats` spans in total: one more slider, and exactly
    /// `slider_combo(ticks, repeats)` combo increments — the head plus every
    /// visited vertex.
    pub fn add_slider(&mut self, ticks: usize, repeats: usize)
        requires
            repeats >= 1,
            ticks <= 0xFFFF_FFFF,
            repeats <= 0xFFFF_FFFF,
            old(self).n_sliders < usize::MAX,
            old(self).max_combo + slider_combo(ticks as int, repeats as int) <= usize::MAX,
        ensures
            final(self).n_sliders == old(self).n_sliders + 1,
            final(self).max_combo == old(self).max_combo + slider_combo(
                ticks as int,
                repeats as int,
            ),
            final(self).n_circles == old(self).n_circles,
            final(self).n_spinners == old(self).n_spinners,
    {
        let extra_spans = repeats - 1;
        proof {
            assert(0 <= (extra_spans as int) * (ticks as int + 1) <= 0xFFFF_FFFFint
                * 0x1_0000_0000int) by (nonlinear_arith)
                requires
                    0 <= extra_spans as int <= 0xFFFF_FFFFint,
                    0 <= ticks as int <= 0xFFFF_FFFFint,
            ;
        }
        self.n_sliders = self.n_sliders + 1;
        // head of the slider
        self.max_combo = self.max_combo + 1;
        // ticks of the first span
        self.max_combo = self.max_combo + ticks;
        // one reverse vertex and a tick replay per extra span
        self.max_combo = self.max_combo + extra_spans * (ticks + 1);
        // tail vertex
        self.max_combo = self.max_combo + 1;
    }
}

/// Anything that can supply previously computed difficulty attributes, so a
/// later calculation on the same map and modifier set can reuse them.
pub trait OsuAttributeProvider {
    /// The attributes this value supplies, if any.
    spec fn provided(&self) -> Option<DifficultyAttributes>;

    /// Extract the supplied attributes.
    fn attributes(self) -> (r: Option<DifficultyAttributes>)
        ensures
            r == self.provided(),
    ;
}

impl OsuAttributeProvider for DifficultyAttributes {
    open spec fn provided(&self) -> Option<DifficultyAttributes> {
        Some(*self)
    }

    fn attributes(self) -> (r: Option<DifficultyAttributes>) {
        Some(self)
    }
}

} // verus!
