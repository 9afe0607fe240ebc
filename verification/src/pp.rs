//! Performance-request configuration and judgement-count reconciliation.
//!
//! A performance request collects optional inputs — modifier bits, achieved
//! combo, explicit judgement counts, a miss count, a passed-object count for
//! partial plays, and a target accuracy — and one finalize step reconciles
//! them into a complete, consistent hit-statistic set together with the
//! effective miss count.
//!
//! Accuracy is carried in basis points: one hundredth of a percent, so
//! `10000` stands for 100%. A hit is worth 6 weighted points as a 300, 2 as
//! a 100 and 1 as a 50; accuracy is the ratio of achieved to achievable
//! weighted points.

use vstd::prelude::*;

use crate::attributes::DifficultyAttributes;
use crate::attributes::OsuAttributeProvider;

verus! {

/// The minimum of two integers.
pub open spec fn min_i(a: int, b: int) -> int {
    if a <= b {
        a
    } else {
        b
    }
}

/// The maximum of two integers.
pub open spec fn max_i(a: int, b: int) -> int {
    if a >= b {
        a
    } else {
        b
    }
}

/// Subtraction that never goes below zero.
pub open spec fn pos_sub(a: int, b: int) -> int {
    if a >= b {
        a - b
    } else {
        0
    }
}

/// The value of an optional count, with zero for an absent one.
pub open spec fn or_zero(o: Option<usize>) -> int {
    match o {
        Some(v) => v as int,
        None => 0,
    }
}

/// The weighted point budget of a target accuracy of `bp` basis points over
/// `n` objects: `6 * n * bp / 10000`, rounded to the nearest integer.
pub open spec fn target_total(n: int, bp: int) -> int {
    (6 * n * bp + 5000) / 10000
}

/// The weighted points of a judgement-count set.
pub open spec fn acc_points(n300: int, n100: int, n50: int) -> int {
    6 * n300 + 2 * n100 + n50
}

/// The accuracy, in basis points, of `points` weighted points over `n`
/// objects, rounded to the nearest integer.
pub open spec fn recomputed_bp(points: int, n: int) -> int {
    (points * 10000 + 3 * n) / (if n > 0 {
        6 * n
    } else {
        1
    })
}

/// The canonical judgement-count solution for a target accuracy when no
/// partial counts were given: derive the 300-count from the point budget in
/// excess of one point per non-missed object, spill the remainder into
/// 100s, fill the rest of the objects with 50s, then convert blocks of four
/// 50s into one fewer 300 and five more 100s while possible — minimizing
/// the 50-count for the achieved accuracy.
pub open spec fn solve_full(n: int, bp: int, misses: int) -> (int, int, int) {
    let m = min_i(misses, n);
    let t = target_total(n, bp);
    let delta = pos_sub(t, n - m);
    let q = delta / 5;
    let r = delta % 5;
    let n100_0 = min_i(r, pos_sub(n, q + m));
    let n50_0 = pos_sub(n, q + n100_0 + m);
    let k = min_i(q, n50_0 / 4);
    (q - k, n100_0 + 5 * k, n50_0 - 4 * k)
}

/// The judgement-count solution when 100s or 50s were pre-specified: fill
/// the remaining objects with 300s up to the remaining point budget, spill
/// the leftover objects into 50s, and — when only the 50-count was fixed by
/// the caller — move blocks of four surplus 50s back into one fewer 300 and
/// five more 100s, respecting the caller's intent.
pub open spec fn solve_partial(
    n: int,
    bp: int,
    n100_in: int,
    n50_in: int,
    misses: int,
    only_n50: bool,
) -> (int, int, int) {
    let placed = 2 * n100_in + n50_in + misses;
    let missing_objects = pos_sub(pos_sub(pos_sub(n, n100_in), n50_in), misses);
    let missing_points = pos_sub(target_total(n, bp), placed);
    let n300_0 = min_i(missing_objects, missing_points / 6);
    let n50_1 = n50_in + missing_objects - n300_0;
    if only_n50 {
        let k = min_i(n300_0, (missing_objects - n300_0) / 4);
        (n300_0 - k, n100_in + 5 * k, n50_1 - 4 * k)
    } else {
        (n300_0, n100_in, n50_1)
    }
}

/// The completion step when neither an accuracy nor a full count set was
/// given: the shortfall between the provided counts plus misses and the
/// object budget goes into the first not-yet-specified field in priority
/// order 300 → 100 → 50, or is added to the 300-count when all three were
/// specified.
pub open spec fn complete_counts(
    n300: Option<usize>,
    n100: Option<usize>,
    n50: Option<usize>,
    misses: int,
    n: int,
) -> (int, int, int) {
    let rem = pos_sub(n, or_zero(n300) + or_zero(n100) + or_zero(n50) + misses);
    if rem > 0 {
        if n300 is Some {
            if n100 is None {
                (or_zero(n300), rem, or_zero(n50))
            } else if n50 is None {
                (or_zero(n300), or_zero(n100), rem)
            } else {
                (or_zero(n300) + rem, or_zero(n100), or_zero(n50))
            }
        } else {
            (rem, or_zero(n100), or_zero(n50))
        }
    } else {
        (or_zero(n300), or_zero(n100), or_zero(n50))
    }
}

/// The effective miss count: misses plus combo breaks inferred from an
/// achieved combo below the full-combo threshold `max_combo - 0.1 *
/// n_sliders`. The inferred estimate `threshold / max(combo, 1)` is clamped
/// to the judged hit total, and the reported miss count is a lower bound.
pub open spec fn effective_misses_spec(
    attrs: DifficultyAttributes,
    combo: Option<usize>,
    n_misses: int,
    total_hits: int,
) -> int {
    let combo_based = if attrs.n_sliders > 0 {
        match combo {
            Some(c) => {
                let thr10 = 10 * attrs.max_combo - attrs.n_sliders;
                if 10 * c < thr10 {
                    thr10 / (10 * max_i(c as int, 1))
                } else {
                    0
                }
            },
            None => 0,
        }
    } else {
        0
    };
    max_i(n_misses, min_i(combo_based, total_hits))
}

/// A map, reduced to what the performance request reads of it: its
/// hit-object count. Parsing maps is an external collaborator's concern.
#[derive(Clone, Copy, Debug)]
pub struct Beatmap {
    pub n_hit_objects: usize,
}

impl Default for Beatmap {
    /// An empty map.
    fn default() -> (r: Self)
        ensures
            r.n_hit_objects == 0,
    {
        Beatmap { n_hit_objects: 0 }
    }
}

/// Performance-request configuration for one play: pure data until
/// `assert_hitresults` reconciles it.
#[derive(Clone, Debug)]
pub struct OsuPP {
    pub attributes: Option<DifficultyAttributes>,
    pub mods: u32,
    pub combo: Option<usize>,
    /// The recomputed accuracy in basis points, set by `accuracy`.
    pub acc: Option<u64>,
    pub n300: Option<usize>,
    pub n100: Option<usize>,
    pub n50: Option<usize>,
    pub n_misses: usize,
    pub passed_objects: Option<usize>,
    /// The hit-object count of the map the request is about.
    pub n_map_objects: usize,
}

/// The reconciled request: a complete judgement-count set, the judged hit
/// total, the effective miss count, and the attributes to synthesize
/// performance from.
#[derive(Clone, Debug)]
pub struct OsuPPInner {
    pub attributes: DifficultyAttributes,
    pub mods: u32,
    pub combo: Option<usize>,
    pub n300: usize,
    pub n100: usize,
    pub n50: usize,
    /// The object budget the counts were reconciled against.
    pub n_objects: usize,
    /// The weighted points of the reconciled counts.
    pub acc_points: u64,
    /// The judged hit total, clamped to the object budget.
    pub total_hits: usize,
    pub effective_misses: usize,
}

impl OsuAttributeProvider for OsuPPInner {
    open spec fn provided(&self) -> Option<DifficultyAttributes> {
        Some(self.attributes)
    }

    fn attributes(self) -> (r: Option<DifficultyAttributes>) {
        Some(self.attributes)
    }
}

/// Subtraction on machine integers that never goes below zero.
fn sat_sub(a: usize, b: usize) -> (r: usize)
    ensures
        r == pos_sub(a as int, b as int),
{
    if a >= b {
        a - b
    } else {
        0
    }
}

/// The smaller of two machine integers.
fn min_usize(a: usize, b: usize) -> (r: usize)
    ensures
        r == min_i(a as int, b as int),
{
    if a <= b {
        a
    } else {
        b
    }
}

impl OsuPP {
    /// A fresh request for the given map, with nothing specified yet.
    pub fn new(map: &Beatmap) -> (r: Self)
        ensures
            r.attributes is None,
            r.mods == 0,
            r.combo is None,
            r.acc is None,
            r.n300 is None,
            r.n100 is None,
            r.n50 is None,
            r.n_misses == 0,
            r.passed_objects is None,
            r.n_map_objects == map.n_hit_objects,
    {
        OsuPP {
            attributes: None,
            mods: 0,
            combo: None,
            acc: None,
            n300: None,
            n100: None,
            n50: None,
            n_misses: 0,
            passed_objects: None,
            n_map_objects: map.n_hit_objects,
        }
    }

    /// The object budget the reconciliation works against: the passed-object
    /// count of a partial play, or the whole map.
    pub open spec fn n_objects_spec(self) -> int {
        match self.passed_objects {
            Some(p) => p as int,
            None => self.n_map_objects as int,
        }
    }

    /// Supply previously computed difficulty attributes to skip their
    /// recomputation; a provider with none to give leaves the request
    /// unchanged.
    pub fn attributes<P: OsuAttributeProvider>(self, attributes: P) -> (r: Self)
        ensures
            r.attributes == (if attributes.provided() is Some {
                attributes.provided()
            } else {
                self.attributes
            }),
            r.mods == self.mods && r.combo == self.combo && r.acc == self.acc,
            r.n300 == self.n300 && r.n100 == self.n100 && r.n50 == self.n50,
            r.n_misses == self.n_misses && r.passed_objects == self.passed_objects,
            r.n_map_objects == self.n_map_objects,
    {
        let mut s = self;
        if let Some(a) = attributes.attributes() {
            s.attributes = Some(a);
        }
        s
    }

    /// Specify the modifier bits of the play.
    pub fn mods(self, mods: u32) -> (r: Self)
        ensures
            r == (OsuPP { mods, ..self }),
    {
        let mut s = self;
        s.mods = mods;
        s
    }

    /// Specify the maximum combo achieved in the play.
    pub fn combo(self, combo: usize) -> (r: Self)
        ensures
            r == (OsuPP { combo: Some(combo), ..self }),
    {
        let mut s = self;
        s.combo = Some(combo);
        s
    }

    /// Specify the number of 300s of the play.
    pub fn n300(self, n300: usize) -> (r: Self)
        ensures
            r == (OsuPP { n300: Some(n300), ..self }),
    {
        let mut s = self;
        s.n300 = Some(n300);
        s
    }

    /// Specify the number of 100s of the play.
    pub fn n100(self, n100: usize) -> (r: Self)
        ensures
            r == (OsuPP { n100: Some(n100), ..self }),
    {
        let mut s = self;
        s.n100 = Some(n100);
        s
    }

    /// Specify the number of 50s of the play.
    pub fn n50(self, n50: usize) -> (r: Self)
        ensures
            r == (OsuPP { n50: Some(n50), ..self }),
    {
        let mut s = self;
        s.n50 = Some(n50);
        s
    }

    /// Specify the number of misses of the play.
    pub fn misses(self, n_misses: usize) -> (r: Self)
        ensures
            r == (OsuPP { n_misses, ..self }),
    {
        let mut s = self;
        s.n_misses = n_misses;
        s
    }

    /// Specify the number of passed objects of a partial play.
    pub fn passed_objects(self, passed_objects: usize) -> (r: Self)
        ensures
            r == (OsuPP { passed_objects: Some(passed_objects), ..self }),
    {
        let mut s = self;
        s.passed_objects = Some(passed_objects);
        s
    }

    /// Solve the judgement counts for a target accuracy of `acc_bp` basis
    /// points (0 to 10000, standing for 0% to 100%).
    ///
    /// Any miss count and passed-object count must be set beforehand. When
    /// 100s or 50s were pre-specified, only the gap to the target is
    /// distributed; otherwise the canonical full solution is derived. The
    /// request then carries the exactly recomputed accuracy of the solved
    /// counts, which rounding may place off the target.
    #[verifier::rlimit(100)]
    pub fn accuracy(self, acc_bp: u32) -> (r: Self)
        requires
            acc_bp <= 10000,
            self.n_objects_spec() <= 0x0FFF_FFFF,
            or_zero(self.n100) <= 0x0FFF_FFFF,
            or_zero(self.n50) <= 0x0FFF_FFFF,
            self.n_misses <= 0x0FFF_FFFF,
        ensures
            ({
                let n = self.n_objects_spec();
                let bp = acc_bp as int;
                let sol = if self.n100 is Some || self.n50 is Some {
                    solve_partial(
                        n,
                        bp,
                        or_zero(self.n100),
                        or_zero(self.n50),
                        self.n_misses as int,
                        self.n50 is Some && self.n100 is None,
                    )
                } else {
                    solve_full(n, bp, self.n_misses as int)
                };
                &&& or_zero(r.n300) == sol.0
                &&& or_zero(r.n100) == sol.1
                &&& or_zero(r.n50) == sol.2
                &&& r.n300 is Some && r.n100 is Some && r.n50 is Some
                &&& r.acc matches Some(a) && a as int == recomputed_bp(
                    acc_points(sol.0, sol.1, sol.2),
                    n,
                )
            }),
            r.attributes == self.attributes && r.mods == self.mods && r.combo == self.combo,
            r.n_misses == self.n_misses && r.passed_objects == self.passed_objects,
            r.n_map_objects == self.n_map_objects,
    {
        let n_objects = match self.passed_objects {
            Some(p) => p,
            None => self.n_map_objects,
        };
        let n64: u64 = n_objects as u64;
        let bp64: u64 = acc_bp as u64;
        proof {
            assert(0 <= 6 * (n64 as int) * (bp64 as int) <= 60000 * 0x0FFF_FFFFint)
                by (nonlinear_arith)
                requires
                    0 <= n64 as int <= 0x0FFF_FFFFint,
                    0 <= bp64 as int <= 10000int,
            ;
        }
        let t64: u64 = (6 * n64 * bp64 + 5000) / 10000;
        proof {
            lemma_target_bounds(n64 as int, bp64 as int);
        }
        let t: usize = t64 as usize;

        let mut s = self;
        let (n300, n100, n50): (usize, usize, usize) = if s.n100.is_some() || s.n50.is_some() {
            let n100_0 = match s.n100 {
                Some(v) => v,
                None => 0,
            };
            let n50_0 = match s.n50 {
                Some(v) => v,
                None => 0,
            };
            let only_n50 = s.n50.is_some() && s.n100.is_none();
            apply_partial(n_objects, acc_bp, t, n100_0, n50_0, s.n_misses, only_n50)
        } else {
            apply_full(n_objects, acc_bp, t, s.n_misses)
        };

        let points64: u64 = 6 * (n300 as u64) + 2 * (n100 as u64) + (n50 as u64);
        let denom: u64 = if n_objects == 0 {
            1
        } else {
            6 * n64
        };
        let acc_v: u64 = (points64 * 10000 + 3 * n64) / denom;

        s.n300 = Some(n300);
        s.n100 = Some(n100);
        s.n50 = Some(n50);
        s.acc = Some(acc_v);
        s
    }
}

/// The partial-count policy of the accuracy solve, on machine integers.
fn apply_partial(
    n_objects: usize,
    acc_bp: u32,
    t: usize,
    n100_0: usize,
    n50_0: usize,
    n_misses: usize,
    only_n50: bool,
) -> (r: (usize, usize, usize))
    requires
        acc_bp <= 10000,
        n_objects <= 0x0FFF_FFFF,
        n100_0 <= 0x0FFF_FFFF,
        n50_0 <= 0x0FFF_FFFF,
        n_misses <= 0x0FFF_FFFF,
        t as int == target_total(n_objects as int, acc_bp as int),
    ensures
        ({
            let sol = solve_partial(
                n_objects as int,
                acc_bp as int,
                n100_0 as int,
                n50_0 as int,
                n_misses as int,
                only_n50,
            );
            r.0 == sol.0 && r.1 == sol.1 && r.2 == sol.2
        }),
{
    let placed = 2 * n100_0 + n50_0 + n_misses;
    let missing_objects = sat_sub(sat_sub(sat_sub(n_objects, n100_0), n50_0), n_misses);
    let missing_points = sat_sub(t, placed);
    proof {
        lemma_target_bounds(n_objects as int, acc_bp as int);
        lemma_div_bound(missing_points as int, 6);
    }
    let n300_0 = min_usize(missing_objects, missing_points / 6);
    let mut n300 = n300_0;
    let mut n100 = n100_0;
    let mut n50 = n50_0 + (missing_objects - n300_0);
    if only_n50 {
        // Only the 50-count was fixed by the caller: move surplus 50s back
        // into 100s in blocks of four.
        let difference = missing_objects - n300_0;
        proof {
            lemma_div_bound(difference as int, 4);
            vstd::arithmetic::div_mod::lemma_fundamental_div_mod(difference as int, 4);
            vstd::arithmetic::div_mod::lemma_mod_bound(difference as int, 4);
        }
        let k = min_usize(n300, difference / 4);
        n300 = n300 - k;
        n100 = n100 + 5 * k;
        n50 = n50 - 4 * k;
    }
    (n300, n100, n50)
}

/// The full-solve policy of the accuracy solve, on machine integers.
fn apply_full(n_objects: usize, acc_bp: u32, t: usize, n_misses: usize) -> (r: (
    usize,
    usize,
    usize,
))
    requires
        acc_bp <= 10000,
        n_objects <= 0x0FFF_FFFF,
        n_misses <= 0x0FFF_FFFF,
        t as int == target_total(n_objects as int, acc_bp as int),
    ensures
        ({
            let sol = solve_full(n_objects as int, acc_bp as int, n_misses as int);
            r.0 == sol.0 && r.1 == sol.1 && r.2 == sol.2
        }),
{
    proof {
        lemma_target_bounds(n_objects as int, acc_bp as int);
    }
    let misses_c = min_usize(n_misses, n_objects);
    let delta = sat_sub(t, n_objects - misses_c);
    proof {
        lemma_div_bound(delta as int, 5);
        vstd::arithmetic::div_mod::lemma_mod_bound(delta as int, 5);
    }
    let q = delta / 5;
    let rr = delta % 5;
    let n100_1 = min_usize(rr, sat_sub(n_objects, q + misses_c));
    let n50_1 = sat_sub(n_objects, q + n100_1 + misses_c);
    proof {
        lemma_div_bound(n50_1 as int, 4);
        vstd::arithmetic::div_mod::lemma_fundamental_div_mod(n50_1 as int, 4);
        vstd::arithmetic::div_mod::lemma_mod_bound(n50_1 as int, 4);
    }
    let k = min_usize(q, n50_1 / 4);
    (q - k, n100_1 + 5 * k, n50_1 - 4 * k)
}

/// `0 <= target_total(n, bp) <= 6 * n` whenever the accuracy is at most
/// 100%: the weighted point budget never exceeds six points per object.
pub proof fn lemma_target_bounds(n: int, bp: int)
    requires
        n >= 0,
        0 <= bp <= 10000,
    ensures
        0 <= target_total(n, bp) <= 6 * n,
{
    let x = 6 * n * bp + 5000;
    assert(0 <= 6 * n * bp <= 60000 * n) by (nonlinear_arith)
        requires
            n >= 0,
            0 <= bp <= 10000,
    ;
    vstd::arithmetic::div_mod::lemma_fundamental_div_mod(x, 10000);
    vstd::arithmetic::div_mod::lemma_mod_bound(x, 10000);
}

/// Division by a positive constant stays within `[0, x]`, and multiplying
/// the quotient back never exceeds `x`.
proof fn lemma_div_bound(x: int, c: int)
    requires
        x >= 0,
        c >= 1,
    ensures
        0 <= x / c <= x,
        c * (x / c) <= x,
{
    vstd::arithmetic::div_mod::lemma_fundamental_div_mod(x, c);
    vstd::arithmetic::div_mod::lemma_mod_bound(x, c);
    assert(x / c <= c * (x / c)) by (nonlinear_arith)
        requires
            x / c >= 0,
            c >= 1,
    ;
    vstd::arithmetic::div_mod::lemma_div_pos_is_pos(x, c);
}

/// The effective miss count of a play, from the reported misses, the
/// achieved combo, and the slider count of the map (a dropped slider breaks
/// combo without registering as a miss).
pub fn calculate_effective_misses(
    attributes: &DifficultyAttributes,
    combo: Option<usize>,
    n_misses: usize,
    total_hits: usize,
) -> (r: usize)
    requires
        attributes.max_combo <= 0x0FFF_FFFF,
        or_zero(combo) <= 0x0FFF_FFFF,
    ensures
        r == effective_misses_spec(*attributes, combo, n_misses as int, total_hits as int),
{
    let mut combo_based: usize = 0;
    if attributes.n_sliders > 0 {
        if let Some(c) = combo {
            let thr10_full = 10 * attributes.max_combo;
            if thr10_full > attributes.n_sliders {
                let thr10 = thr10_full - attributes.n_sliders;
                if 10 * c < thr10 {
                    let denom = if c >= 1 {
                        c
                    } else {
                        1
                    };
                    proof {
                        lemma_div_bound(thr10 as int, 10 * (denom as int));
                    }
                    combo_based = thr10 / (10 * denom);
                }
            }
        }
    }
    if combo_based > total_hits {
        combo_based = total_hits;
    }
    if n_misses > combo_based {
        n_misses
    } else {
        combo_based
    }
}

/// The relax adjustment on the effective miss count: 100s and 50s are
/// folded into the misses before the skill values are computed.
pub fn relax_effective_misses(effective_misses: usize, n100: usize, n50: usize) -> (r: usize)
    requires
        effective_misses + n100 + n50 <= usize::MAX,
    ensures
        r == effective_misses + n100 + n50,
{
    effective_misses + n100 + n50
}

/// The no-fail penalty on the global multiplier, in milli-units: `1 - 0.02
/// * effective_misses`, floored at `0.9`.
pub fn nofail_multiplier_milli(effective_misses: usize) -> (r: u64)
    ensures
        r == max_i(1000 - 20 * (effective_misses as int), 900),
{
    if effective_misses < 5 {
        1000 - 20 * (effective_misses as u64)
    } else {
        900
    }
}

impl OsuPP {
    /// Reconcile the request into a complete judgement-count set.
    ///
    /// When an accuracy was solved, its counts are taken as they stand;
    /// otherwise the completion step distributes the shortfall between the
    /// provided counts plus misses and the object budget. Either way the
    /// judged hit total is clamped to the budget, the exact accuracy of the
    /// final counts is recorded as weighted points, and the effective miss
    /// count is estimated from the achieved combo.
    #[verifier::rlimit(100)]
    pub fn assert_hitresults(self, attributes: DifficultyAttributes) -> (r: OsuPPInner)
        requires
            self.n_objects_spec() <= 0x0FFF_FFFF,
            or_zero(self.n300) <= 0x0FFF_FFFF,
            or_zero(self.n100) <= 0x0FFF_FFFF,
            or_zero(self.n50) <= 0x0FFF_FFFF,
            self.n_misses <= 0x0FFF_FFFF,
            attributes.max_combo <= 0x0FFF_FFFF,
            or_zero(self.combo) <= 0x0FFF_FFFF,
        ensures
            ({
                let n = self.n_objects_spec();
                let counts = if self.acc is Some {
                    (or_zero(self.n300), or_zero(self.n100), or_zero(self.n50))
                } else {
                    complete_counts(self.n300, self.n100, self.n50, self.n_misses as int, n)
                };
                &&& r.n300 == counts.0
                &&& r.n100 == counts.1
                &&& r.n50 == counts.2
                &&& r.acc_points == acc_points(counts.0, counts.1, counts.2)
                &&& r.total_hits == min_i(counts.0 + counts.1 + counts.2 + self.n_misses, n)
            }),
            r.effective_misses == effective_misses_spec(
                attributes,
                self.combo,
                self.n_misses as int,
                r.total_hits as int,
            ),
            r.attributes == attributes,
            r.mods == self.mods,
            r.combo == self.combo,
            r.n_objects == self.n_objects_spec(),
    {
        let n_objects = match self.passed_objects {
            Some(p) => p,
            None => self.n_map_objects,
        };
        let n300_0 = match self.n300 {
            Some(v) => v,
            None => 0,
        };
        let n100_0 = match self.n100 {
            Some(v) => v,
            None => 0,
        };
        let n50_0 = match self.n50 {
            Some(v) => v,
            None => 0,
        };
        let (c300, c100, c50): (usize, usize, usize) = if self.acc.is_some() {
            (n300_0, n100_0, n50_0)
        } else {
            let rem = sat_sub(n_objects, n300_0 + n100_0 + n50_0 + self.n_misses);
            if rem > 0 {
                if self.n300.is_some() {
                    if self.n100.is_none() {
                        (n300_0, rem, n50_0)
                    } else if self.n50.is_none() {
                        (n300_0, n100_0, rem)
                    } else {
                        (n300_0 + rem, n100_0, n50_0)
                    }
                } else {
                    (rem, n100_0, n50_0)
                }
            } else {
                (n300_0, n100_0, n50_0)
            }
        };
        let points64: u64 = 6 * (c300 as u64) + 2 * (c100 as u64) + (c50 as u64);
        let total_hits = min_usize(c300 + c100 + c50 + self.n_misses, n_objects);
        let effective_misses = calculate_effective_misses(
            &attributes,
            self.combo,
            self.n_misses,
            total_hits,
        );
        OsuPPInner {
            attributes,
            mods: self.mods,
            combo: self.combo,
            n300: c300,
            n100: c100,
            n50: c50,
            n_objects,
            acc_points: points64,
            total_hits,
            effective_misses,
        }
    }
}

/// Law: a full solve uses the object budget exactly. Whenever the miss
/// count fits the budget and the target point budget is reachable with the
/// remaining objects, `n300 + n100 + n50 + misses == n`.
pub proof fn lemma_solve_full_exact_budget(n: int, bp: int, misses: int)
    requires
        0 <= misses <= n,
        0 <= bp <= 10000,
        target_total(n, bp) <= 6 * (n - misses),
    ensures
        ({
            let sol = solve_full(n, bp, misses);
            &&& sol.0 + sol.1 + sol.2 + misses == n
            &&& sol.0 >= 0 && sol.1 >= 0 && sol.2 >= 0
        }),
{
    let m = min_i(misses, n);
    let t = target_total(n, bp);
    lemma_target_bounds(n, bp);
    let delta = pos_sub(t, n - m);
    assert(delta <= 5 * (n - m));
    let q = delta / 5;
    let r = delta % 5;
    vstd::arithmetic::div_mod::lemma_fundamental_div_mod(delta, 5);
    vstd::arithmetic::div_mod::lemma_mod_bound(delta, 5);
    assert(q <= n - m);
    let n100_0 = min_i(r, pos_sub(n, q + m));
    let n50_0 = pos_sub(n, q + n100_0 + m);
    assert(n50_0 == n - q - n100_0 - m);
    lemma_div_bound(n50_0, 4);
    let k = min_i(q, n50_0 / 4);
    assert(4 * k <= n50_0) by {
        vstd::arithmetic::div_mod::lemma_fundamental_div_mod(n50_0, 4);
        vstd::arithmetic::div_mod::lemma_mod_bound(n50_0, 4);
    }
}

/// Law: a partial solve uses the object budget exactly. Whenever the
/// pre-specified counts and misses fit the budget,
/// `n300 + n100 + n50 + misses == n`.
pub proof fn lemma_solve_partial_exact_budget(
    n: int,
    bp: int,
    n100_in: int,
    n50_in: int,
    misses: int,
    only_n50: bool,
)
    requires
        0 <= n100_in,
        0 <= n50_in,
        0 <= misses,
        n100_in + n50_in + misses <= n,
    ensures
        ({
            let sol = solve_partial(n, bp, n100_in, n50_in, misses, only_n50);
            &&& sol.0 + sol.1 + sol.2 + misses == n
            &&& sol.0 >= 0 && sol.1 >= 0 && sol.2 >= 0
        }),
{
    let mo = pos_sub(pos_sub(pos_sub(n, n100_in), n50_in), misses);
    assert(mo == n - n100_in - n50_in - misses);
    let mp = pos_sub(target_total(n, bp), 2 * n100_in + n50_in + misses);
    lemma_div_bound(mp, 6);
    let n300_0 = min_i(mo, mp / 6);
    let n50_1 = n50_in + mo - n300_0;
    if only_n50 {
        lemma_div_bound(mo - n300_0, 4);
        let k = min_i(n300_0, (mo - n300_0) / 4);
        assert(4 * k <= mo - n300_0) by {
            vstd::arithmetic::div_mod::lemma_fundamental_div_mod(mo - n300_0, 4);
            vstd::arithmetic::div_mod::lemma_mod_bound(mo - n300_0, 4);
        }
    }
}

/// Law: the full solve is canonical. Among all nonnegative judgement-count
/// sets with the same object budget and the same weighted points, the
/// solved set has the fewest 50s: the rebalance runs until either no 300
/// is left to sacrifice or fewer than a block of four 50s remains.
pub proof fn lemma_solve_full_minimizes_n50(
    n: int,
    bp: int,
    misses: int,
    a2: int,
    b2: int,
    c2: int,
)
    requires
        0 <= misses <= n,
        0 <= bp <= 10000,
        target_total(n, bp) <= 6 * (n - misses),
        a2 >= 0,
        b2 >= 0,
        c2 >= 0,
        ({
            let sol = solve_full(n, bp, misses);
            &&& a2 + b2 + c2 == sol.0 + sol.1 + sol.2
            &&& acc_points(a2, b2, c2) == acc_points(sol.0, sol.1, sol.2)
        }),
    ensures
        c2 >= solve_full(n, bp, misses).2,
{
    lemma_solve_full_exact_budget(n, bp, misses);
    let sol = solve_full(n, bp, misses);

    // the rebalance stops with no 300s left, or with less than one block
    // of four 50s
    let m = min_i(misses, n);
    let t = target_total(n, bp);
    let delta = pos_sub(t, n - m);
    let q = delta / 5;
    let r = delta % 5;
    let n100_0 = min_i(r, pos_sub(n, q + m));
    let n50_0 = pos_sub(n, q + n100_0 + m);
    let k = min_i(q, n50_0 / 4);
    if k == q {
        assert(sol.0 == 0);
    } else {
        vstd::arithmetic::div_mod::lemma_fundamental_div_mod(n50_0, 4);
        vstd::arithmetic::div_mod::lemma_mod_bound(n50_0, 4);
        assert(sol.2 <= 3);
    }

    // with budget and points fixed, each extra 300 binds exactly four
    // extra 50s
    assert(5 * a2 + b2 == 5 * sol.0 + sol.1);
    assert(c2 - sol.2 == 4 * (a2 - sol.0));
}

/// Law: the completion step uses the object budget exactly. Whenever the
/// provided counts and misses fit the budget,
/// `n300 + n100 + n50 + misses == n`.
pub proof fn lemma_complete_counts_exact_budget(
    n300: Option<usize>,
    n100: Option<usize>,
    n50: Option<usize>,
    misses: int,
    n: int,
)
    requires
        0 <= misses,
        or_zero(n300) + or_zero(n100) + or_zero(n50) + misses <= n,
    ensures
        ({
            let sol = complete_counts(n300, n100, n50, misses, n);
            sol.0 + sol.1 + sol.2 + misses == n
        }),
{
}

/// Law: solving judgement counts for a target accuracy and recomputing the
/// accuracy of the result lands within one percentage point (100 basis
/// points) of the target, for a full solve without misses.
///
/// Targets below the all-50s accuracy of one sixth are unreachable, and on
/// very small maps the judgement granularity itself exceeds one percentage
/// point, so those inputs are left out.
pub proof fn lemma_accuracy_inversion(n: int, bp: int)
    requires
        75 <= n <= 10000,
        1667 <= bp <= 10000,
    ensures
        ({
            let sol = solve_full(n, bp, 0);
            let rb = recomputed_bp(acc_points(sol.0, sol.1, sol.2), n);
            -100 <= rb - bp <= 100
        }),
{
    let x = 6 * n * bp + 5000;
    let t = target_total(n, bp);
    lemma_target_bounds(n, bp);
    vstd::arithmetic::div_mod::lemma_fundamental_div_mod(x, 10000);
    vstd::arithmetic::div_mod::lemma_mod_bound(x, 10000);
    // the point budget covers at least one point per object
    assert(6 * n * bp >= 10002 * n) by (nonlinear_arith)
        requires
            n >= 0,
            bp >= 1667,
    ;
    assert(t >= n);
    // the budget tracks the target accuracy up to half a rounding unit
    assert(-5000 < 10000 * t - 6 * n * bp <= 5000);

    let delta = pos_sub(t, n - 0);
    assert(delta == t - n);
    let q = delta / 5;
    let r = delta % 5;
    vstd::arithmetic::div_mod::lemma_fundamental_div_mod(delta, 5);
    vstd::arithmetic::div_mod::lemma_mod_bound(delta, 5);
    assert(q <= n);
    let n100_0 = min_i(r, pos_sub(n, q + 0));
    let n50_0 = pos_sub(n, q + n100_0 + 0);
    lemma_div_bound(n50_0, 4);
    let k = min_i(q, n50_0 / 4);
    let sol = solve_full(n, bp, 0);
    let p = acc_points(sol.0, sol.1, sol.2);
    // the rebalance is point-neutral, and the 100-clamp near 100% accuracy
    // costs at most four points
    if r <= n - q {
        assert(p == t);
    } else {
        assert(n100_0 == n - q);
        assert(n50_0 == 0);
        assert(p == 4 * q + 2 * n);
        assert(t - p == q + r - n);
        assert(0 <= t - p <= 4);
    }

    let rb = recomputed_bp(p, n);
    let y = p * 10000 + 3 * n;
    vstd::arithmetic::div_mod::lemma_fundamental_div_mod(y, 6 * n);
    vstd::arithmetic::div_mod::lemma_mod_bound(y, 6 * n);
    let rm2 = y % (6 * n);
    assert(6 * n * rb == 10000 * (p - t) + (10000 * t - 6 * n * bp) + 6 * n * bp + 3 * n - rm2);
    vstd::arithmetic::mul::lemma_mul_is_distributive_sub(6 * n, rb, bp);
    assert(6 * n * (rb - bp) == 6 * n * rb - 6 * n * bp);
    assert(6 * n * (rb - bp) <= 5000 + 3 * n);
    assert(6 * n * (rb - bp) > -40000 - 5000 - 3 * n);
    assert(-100 <= rb - bp <= 100) by (nonlinear_arith)
        requires
            6 * n * (rb - bp) <= 5000 + 3 * n,
            6 * n * (rb - bp) > -45000 - 3 * n,
            75 <= n <= 10000,
    ;
}

} // verus!
