//! Incremental difficulty calculation: a pull-based cursor that admits one
//! prepared difficulty object at a time into a running skill-peak
//! accumulator and re-derives the aggregate difficulty attributes after
//! every admitted hit-type object.
//!
//! The first two objects of a map are priming objects: a difficulty object
//! relates the current, previous and second-previous note, so none exists
//! before the third note, and the accumulator only sees objects from the
//! third one on. Objects that are not genuine hits (pure rhythm markers)
//! are admitted without emitting a snapshot or counting combo.
//!
//! Ratings are carried in milli-units (thousandths).

use vstd::prelude::*;

use crate::pp::max_i;
use crate::pp::min_i;

verus! {

/// The fixed multiplier applied to every raw skill rating, in milli-units
/// per unit.
pub const DIFFICULTY_MULTIPLIER_MILLI: u64 = 84;

/// The factor applied to the combined rating before the star rescale, in
/// tenths.
pub const STAR_SCALE_TENTHS: u64 = 14;

/// The flat penalty on the star rating of cross-mode conversions, in
/// milli-units.
pub const CONVERT_PENALTY_MILLI: u64 = 925;

/// Below this colour rating (milli-units) a conversion counts as
/// low-variance.
pub const LOW_COLOUR_VARIANCE_MILLI: u64 = 2000;

/// Above this stamina rating (milli-units) a conversion counts as
/// stamina-heavy.
pub const HIGH_STAMINA_MILLI: u64 = 8000;

/// One prepared difficulty object: whether it is a genuine hit, and its
/// per-skill strain contributions in milli-units. Building these from raw
/// notes (rhythm factors, colour runs) is the strain primitives' concern.
#[derive(Clone, Copy, PartialEq, Eq, Debug)]
pub struct TaikoObject {
    pub is_hit: bool,
    pub colour: u32,
    pub rhythm: u32,
    pub stamina: u32,
}

/// The running skill-peak accumulator: the highest strain admitted so far
/// along each skill axis, in milli-units.
#[derive(Clone, Copy, PartialEq, Eq, Debug)]
pub struct Peaks {
    pub colour: u64,
    pub rhythm: u64,
    pub stamina: u64,
}

/// The accumulator after admitting one more object.
pub open spec fn process_spec(p: Peaks, o: TaikoObject) -> Peaks {
    Peaks {
        colour: if p.colour >= o.colour as u64 {
            p.colour
        } else {
            o.colour as u64
        },
        rhythm: if p.rhythm >= o.rhythm as u64 {
            p.rhythm
        } else {
            o.rhythm as u64
        },
        stamina: if p.stamina >= o.stamina as u64 {
            p.stamina
        } else {
            o.stamina as u64
        },
    }
}

impl Peaks {
    /// An accumulator that has seen nothing.
    pub fn new() -> (r: Self)
        ensures
            r.colour == 0 && r.rhythm == 0 && r.stamina == 0,
    {
        Peaks { colour: 0, rhythm: 0, stamina: 0 }
    }

    /// Admit one object's strains.
    pub fn process(&mut self, o: &TaikoObject)
        ensures
            *final(self) == process_spec(*old(self), *o),
    {
        if (o.colour as u64) > self.colour {
            self.colour = o.colour as u64;
        }
        if (o.rhythm as u64) > self.rhythm {
            self.rhythm = o.rhythm as u64;
        }
        if (o.stamina as u64) > self.stamina {
            self.stamina = o.stamina as u64;
        }
    }
}

/// Aggregate difficulty attributes of the prefix admitted so far. Ratings
/// are in milli-units.
#[derive(Clone, PartialEq, Eq, Debug)]
pub struct TaikoDifficultyAttributes {
    pub stamina: u64,
    pub rhythm: u64,
    pub colour: u64,
    pub peak: u64,
    pub hit_window: u64,
    pub stars: u64,
    pub max_combo: usize,
}

/// The number of hit-type objects among the first `k` of `s`.
pub open spec fn count_hits(s: Seq<TaikoObject>, k: int) -> int
    decreases k,
{
    if k <= 0 {
        0
    } else {
        count_hits(s, k - 1) + if s[k - 1].is_hit {
            1int
        } else {
            0int
        }
    }
}

/// The abstract state of a gradual-difficulty cursor.
pub ghost struct Model {
    /// The prepared difficulty objects, in map order.
    pub objects: Seq<TaikoObject>,
    /// How many objects have been admitted.
    pub pos: nat,
    /// How many snapshots have been emitted.
    pub idx: nat,
    pub peaks: Peaks,
    pub max_combo: nat,
    pub hit_window: u64,
    pub total_hits: nat,
    pub is_convert: bool,
}

/// The part of well-formedness that every admission preserves: the
/// admission index is in range, the running combo counts the hits among
/// the priming pair and the admitted rest, and the accumulator holds
/// nothing beyond one object's strain range.
pub open spec fn wf_core(m: Model) -> bool {
    &&& m.pos <= m.objects.len()
    &&& m.max_combo == count_hits(
        m.objects,
        min_i(max_i(m.pos as int, 2), m.objects.len() as int),
    )
    &&& m.peaks.colour <= u32::MAX
    &&& m.peaks.rhythm <= u32::MAX
    &&& m.peaks.stamina <= u32::MAX
}

/// A well-formed cursor state: additionally, the hit total and the emitted
/// count agree with the object list.
pub open spec fn wf_model(m: Model) -> bool {
    &&& wf_core(m)
    &&& m.total_hits == count_hits(m.objects, m.objects.len() as int)
    &&& m.idx == count_hits(m.objects, m.pos as int)
}

/// Admit the next object: the accumulator and the running combo see only
/// objects past the two priming ones.
pub open spec fn admit_one(m: Model) -> Model {
    let o = m.objects[m.pos as int];
    Model {
        pos: m.pos + 1,
        peaks: if m.pos >= 2 {
            process_spec(m.peaks, o)
        } else {
            m.peaks
        },
        max_combo: if m.pos >= 2 && o.is_hit {
            m.max_combo + 1
        } else {
            m.max_combo
        },
        ..m
    }
}

/// Admit objects until a hit-type object has been admitted or none are
/// left.
pub open spec fn advance(m: Model) -> Model
    decreases m.objects.len() - m.pos,
{
    if m.pos >= m.objects.len() {
        m
    } else {
        let m2 = admit_one(m);
        if m.objects[m.pos as int].is_hit {
            m2
        } else {
            advance(m2)
        }
    }
}

/// Whether any hit-type object is still to be admitted.
pub open spec fn has_pending_hit(m: Model) -> bool {
    exists|i: int| m.pos <= i < m.objects.len() && m.objects[i].is_hit
}

/// The state after one cursor step: admit up to and including the next
/// hit-type object, and count one more emitted snapshot if there was one.
pub open spec fn step_state(m: Model) -> Model {
    let a = advance(m);
    if has_pending_hit(m) {
        Model { idx: a.idx + 1, ..a }
    } else {
        a
    }
}

/// The state after `k` cursor steps.
pub open spec fn steps(m: Model, k: nat) -> Model
    decreases k,
{
    if k == 0 {
        m
    } else {
        steps(step_state(m), (k - 1) as nat)
    }
}

/// The largest integer whose square is at most `n`.
pub open spec fn isqrt_spec(n: nat) -> nat
    decreases n,
{
    if n == 0 {
        0
    } else {
        let p = isqrt_spec((n - 1) as nat);
        if (p + 1) * (p + 1) <= n {
            p + 1
        } else {
            p
        }
    }
}

/// The milli-unit rating of one accumulated peak value.
pub open spec fn rating_milli(peak: u64) -> int {
    (peak as int) * (DIFFICULTY_MULTIPLIER_MILLI as int) / 1000
}

/// The star rating of a combined rating (both in milli-units): a concave
/// rescale by square root, with the conversion penalties applied on
/// cross-mode conversions.
pub open spec fn stars_spec(combined: int, colour: int, stamina: int, is_convert: bool) -> int {
    let base = isqrt_spec((combined * (STAR_SCALE_TENTHS as int) / 10 * 1000) as nat) as int;
    if is_convert {
        let flat = base * (CONVERT_PENALTY_MILLI as int) / 1000;
        if colour < LOW_COLOUR_VARIANCE_MILLI && stamina > HIGH_STAMINA_MILLI {
            flat * 4 / 5
        } else {
            flat
        }
    } else {
        base
    }
}

/// The attribute snapshot of a cursor state.
pub open spec fn snapshot_spec(m: Model) -> TaikoDifficultyAttributes {
    let colour = rating_milli(m.peaks.colour);
    let rhythm = rating_milli(m.peaks.rhythm);
    let stamina = rating_milli(m.peaks.stamina);
    let combined = colour + rhythm + stamina;
    TaikoDifficultyAttributes {
        stamina: stamina as u64,
        rhythm: rhythm as u64,
        colour: colour as u64,
        peak: combined as u64,
        hit_window: m.hit_window,
        stars: stars_spec(combined, colour, stamina, m.is_convert) as u64,
        max_combo: m.max_combo as usize,
    }
}

/// What one cursor step emits: the snapshot after the admitted hit, or
/// nothing when no hit-type object was left.
pub open spec fn step_out(m: Model) -> Option<TaikoDifficultyAttributes> {
    if has_pending_hit(m) {
        Some(snapshot_spec(step_state(m)))
    } else {
        None
    }
}

/// Hits are never counted negatively, and some hit lies at or past
/// position `a` exactly when the count still grows past `a`.
proof fn lemma_hits_from(s: Seq<TaikoObject>, a: int)
    requires
        0 <= a <= s.len(),
    ensures
        0 <= count_hits(s, s.len() as int) - count_hits(s, a),
        (count_hits(s, s.len() as int) - count_hits(s, a) > 0) <==> (exists|i: int|
            a <= i < s.len() && s[i].is_hit),
    decreases s.len() - a,
{
    if a == s.len() {
    } else {
        lemma_hits_from(s, a + 1);
        if s[a].is_hit {
            assert(a <= a < s.len() && s[a].is_hit);
        } else {
            if exists|i: int| a <= i < s.len() && s[i].is_hit {
                let w = choose|i: int| a <= i < s.len() && s[i].is_hit;
                assert(a + 1 <= w < s.len() && s[w].is_hit);
            }
        }
    }
}

/// Peeling one step off the back: `k + 1` steps are `k` steps followed by
/// one.
proof fn lemma_steps_snoc(m: Model, k: nat)
    ensures
        steps(m, k + 1) == step_state(steps(m, k)),
    decreases k,
{
    reveal_with_fuel(steps, 3);
    if k > 0 {
        lemma_steps_snoc(step_state(m), (k - 1) as nat);
    }
}

/// A cursor that has admitted everything no longer moves.
proof fn lemma_steps_stable(m: Model, k: nat)
    requires
        m.pos == m.objects.len(),
    ensures
        steps(m, k) == m,
        !has_pending_hit(m),
    decreases k,
{
    if k > 0 {
        assert(step_state(m) == m);
        lemma_steps_stable(m, (k - 1) as nat);
    }
}

/// `isqrt_spec` really is the floor of the square root.
proof fn lemma_isqrt_spec_bounds(n: nat)
    ensures
        isqrt_spec(n) * isqrt_spec(n) <= n,
        n < (isqrt_spec(n) + 1) * (isqrt_spec(n) + 1),
    decreases n,
{
    reveal_with_fuel(isqrt_spec, 3);
    if n == 0 {
        let q = isqrt_spec(n);
        assert(q * q <= n && n < (q + 1) * (q + 1)) by (nonlinear_arith)
            requires
                q == 0,
                n == 0,
        ;
    }
    if n > 0 {
        lemma_isqrt_spec_bounds((n - 1) as nat);
        let p = isqrt_spec((n - 1) as nat);
        let q = isqrt_spec(n);
        if (p + 1) * (p + 1) <= n {
            assert(q == p + 1);
            assert(q * q <= n) by (nonlinear_arith)
                requires
                    q == p + 1,
                    (p + 1) * (p + 1) <= n,
            ;
            assert(n < (q + 1) * (q + 1)) by (nonlinear_arith)
                requires
                    q == p + 1,
                    n <= (p + 1) * (p + 1),
                    p >= 0,
            ;
        } else {
            assert(q == p);
            assert(q * q <= n) by (nonlinear_arith)
                requires
                    q == p,
                    p * p <= n - 1,
            ;
            assert(n < (q + 1) * (q + 1)) by (nonlinear_arith)
                requires
                    q == p,
                    !((p + 1) * (p + 1) <= n),
            ;
        }
    }
}

/// Two integers with the floor-square-root bounds for the same `n` are
/// equal.
proof fn lemma_isqrt_unique(n: nat, r: nat)
    requires
        r * r <= n,
        n < (r + 1) * (r + 1),
    ensures
        r == isqrt_spec(n),
{
    lemma_isqrt_spec_bounds(n);
    let q = isqrt_spec(n);
    assert(r == q) by (nonlinear_arith)
        requires
            r * r <= n < (r + 1) * (r + 1),
            q * q <= n < (q + 1) * (q + 1),
            r >= 0,
            q >= 0,
    ;
}

/// Skipping one non-hit object changes nothing about whether a hit is
/// still pending.
proof fn lemma_pending_skip_nonhit(m: Model)
    requires
        m.pos < m.objects.len(),
        !m.objects[m.pos as int].is_hit,
    ensures
        has_pending_hit(m) == has_pending_hit(admit_one(m)),
{
    let m2 = admit_one(m);
    if has_pending_hit(m) {
        let w = choose|i: int| m.pos <= i < m.objects.len() && m.objects[i].is_hit;
        assert(m2.pos <= w < m2.objects.len() && m2.objects[w].is_hit);
    }
    if has_pending_hit(m2) {
        let w = choose|i: int| m2.pos <= i < m2.objects.len() && m2.objects[i].is_hit;
        assert(m.pos <= w < m.objects.len() && m.objects[w].is_hit);
    }
}

/// Admitting one object keeps the core invariant and raises the hit count
/// of the admitted prefix exactly when the object is a hit.
proof fn lemma_admit_wf(m: Model)
    requires
        wf_core(m),
        m.pos < m.objects.len(),
    ensures
        ({
            let m2 = admit_one(m);
            &&& wf_core(m2)
            &&& m2.objects == m.objects
            &&& m2.idx == m.idx
            &&& m2.hit_window == m.hit_window
            &&& m2.total_hits == m.total_hits
            &&& m2.is_convert == m.is_convert
            &&& count_hits(m.objects, m2.pos as int) == count_hits(m.objects, m.pos as int) + (
            if m.objects[m.pos as int].is_hit {
                1int
            } else {
                0int
            })
        }),
{
    assert(count_hits(m.objects, m.pos as int + 1) == count_hits(m.objects, m.pos as int) + (
    if m.objects[m.pos as int].is_hit {
        1int
    } else {
        0int
    }));
}

/// The floor of the square root, by bisection.
fn isqrt(n: u64) -> (r: u64)
    ensures
        r as nat == isqrt_spec(n as nat),
        r * r <= n < (r + 1) * (r + 1),
        r <= 0x1_0000_0000,
{
    let mut lo: u64 = 0;
    let mut hi: u64 = 0x1_0000_0000;
    proof {
        assert((hi as int) * (hi as int) > n as int) by (nonlinear_arith)
            requires
                hi as int == 0x1_0000_0000int,
                n as int <= 0xFFFF_FFFF_FFFF_FFFFint,
        ;
    }
    while lo + 1 < hi
        invariant
            lo < hi <= 0x1_0000_0000,
            (lo as int) * (lo as int) <= n as int,
            (hi as int) * (hi as int) > n as int,
        decreases hi - lo,
    {
        let mid = lo + (hi - lo) / 2;
        proof {
            assert(0 <= (mid as int) * (mid as int) <= 0x1_0000_0000int * 0x1_0000_0000int)
                by (nonlinear_arith)
                requires
                    0 <= mid as int <= 0x1_0000_0000int,
            ;
        }
        if (mid as u128) * (mid as u128) <= (n as u128) {
            lo = mid;
        } else {
            hi = mid;
        }
    }
    proof {
        lemma_isqrt_unique(n as nat, lo as nat);
    }
    lo
}

/// A pull-based cursor over a map's prepared difficulty objects: each step
/// admits objects up to the next hit into the skill-peak accumulator and
/// emits the updated aggregate attributes. The cursor is single-threaded,
/// finite, and not restartable; every step mutates it in place.
#[derive(Clone, Debug)]
pub struct TaikoGradualDifficulty {
    objects: Vec<TaikoObject>,
    pos: usize,
    idx: usize,
    peaks: Peaks,
    max_combo: usize,
    hit_window: u64,
    total_hits: usize,
    is_convert: bool,
}

impl TaikoGradualDifficulty {
    /// The abstract state of the cursor.
    pub closed spec fn model(self) -> Model {
        Model {
            objects: self.objects@,
            pos: self.pos as nat,
            idx: self.idx as nat,
            peaks: self.peaks,
            max_combo: self.max_combo as nat,
            hit_window: self.hit_window,
            total_hits: self.total_hits as nat,
            is_convert: self.is_convert,
        }
    }

    /// The cursor is in a well-formed state.
    pub open spec fn wf(self) -> bool {
        wf_model(self.model())
    }

    /// How many snapshots are still to come: the hit total minus the
    /// emitted count.
    pub open spec fn remaining_spec(self) -> int {
        self.model().total_hits - self.model().idx
    }

    /// A fresh cursor over the given prepared objects. A map with fewer
    /// than two objects cannot form a single difficulty object — each one
    /// relates three consecutive notes — so such a cursor is exhausted
    /// from the start.
    pub fn new(objects: Vec<TaikoObject>, hit_window: u64, is_convert: bool) -> (r: Self)
        ensures
            r.wf(),
            r.model().pos == 0,
            r.model().idx == 0,
            r.model().peaks == (Peaks { colour: 0, rhythm: 0, stamina: 0 }),
            r.model().hit_window == hit_window,
            r.model().is_convert == is_convert,
            r.model().objects == (if objects@.len() < 2 {
                Seq::<TaikoObject>::empty()
            } else {
                objects@
            }),
            r.remaining_spec() == (if objects@.len() < 2 {
                0int
            } else {
                count_hits(objects@, objects@.len() as int)
            }),
    {
        if objects.len() < 2 {
            let empty: Vec<TaikoObject> = Vec::new();
            return TaikoGradualDifficulty {
                objects: empty,
                pos: 0,
                idx: 0,
                peaks: Peaks::new(),
                max_combo: 0,
                hit_window,
                total_hits: 0,
                is_convert,
            };
        }
        let mut total: usize = 0;
        let mut i: usize = 0;
        while i < objects.len()
            invariant
                i <= objects.len(),
                total == count_hits(objects@, i as int),
                total <= i,
            decreases objects.len() - i,
        {
            if objects[i].is_hit {
                total = total + 1;
            }
            i = i + 1;
        }
        let mut combo: usize = 0;
        if objects[0].is_hit {
            combo = combo + 1;
        }
        if objects[1].is_hit {
            combo = combo + 1;
        }
        proof {
            assert(count_hits(objects@, 0) == 0);
            assert(count_hits(objects@, 1) == count_hits(objects@, 0) + (if objects@[0].is_hit {
                1int
            } else {
                0int
            }));
            assert(count_hits(objects@, 2) == count_hits(objects@, 1) + (if objects@[1].is_hit {
                1int
            } else {
                0int
            }));
        }
        TaikoGradualDifficulty {
            objects,
            pos: 0,
            idx: 0,
            peaks: Peaks::new(),
            max_combo: combo,
            hit_window,
            total_hits: total,
            is_convert,
        }
    }

    /// Admit objects up to and including the next hit, without computing a
    /// snapshot. Reports whether a hit was admitted.
    fn consume_one_hit(&mut self) -> (r: bool)
        requires
            old(self).wf(),
        ensures
            final(self).wf(),
            final(self).model() == step_state(old(self).model()),
            r == has_pending_hit(old(self).model()),
            !r ==> final(self).model().pos == final(self).model().objects.len(),
            final(self).model().total_hits == old(self).model().total_hits,
            final(self).model().idx == old(self).model().idx + (if r {
                1int
            } else {
                0int
            }),
    {
        while self.pos < self.objects.len()
            invariant
                wf_model(self.model()),
                wf_model(old(self).model()),
                self.objects@ == old(self).objects@,
                self.idx == old(self).idx,
                self.total_hits == old(self).total_hits,
                self.hit_window == old(self).hit_window,
                self.is_convert == old(self).is_convert,
                advance(old(self).model()) == advance(self.model()),
                has_pending_hit(old(self).model()) == has_pending_hit(self.model()),
            decreases self.objects.len() - self.pos,
        {
            let ghost mb = self.model();
            let o = self.objects[self.pos];
            proof {
                lemma_admit_wf(mb);
                lemma_hits_from(mb.objects, mb.pos as int + 1);
                if !o.is_hit {
                    lemma_pending_skip_nonhit(mb);
                }
            }
            if self.pos >= 2 {
                self.peaks.process(&o);
                if o.is_hit {
                    self.max_combo = self.max_combo + 1;
                }
            }
            self.pos = self.pos + 1;
            proof {
                assert(self.model() == admit_one(mb));
            }
            if o.is_hit {
                proof {
                    let w0 = mb.pos as int;
                    assert(mb.pos <= w0 < mb.objects.len() && mb.objects[w0].is_hit);
                    assert(has_pending_hit(mb));
                    assert(advance(mb) == admit_one(mb));
                }
                self.idx = self.idx + 1;
                proof {
                    assert(self.model() == (Model { idx: admit_one(mb).idx + 1, ..admit_one(mb) }));
                }
                return true;
            }
        }
        proof {
            assert(advance(self.model()) == self.model());
            assert(!has_pending_hit(self.model()));
        }
        false
    }

    /// The attribute snapshot of the current state: each peak scaled by
    /// the difficulty multiplier, their sum as the combined rating, and
    /// the star rating rescaled by square root with the conversion
    /// penalties applied.
    fn make_snapshot(&self) -> (r: TaikoDifficultyAttributes)
        requires
            wf_model(self.model()),
        ensures
            r == snapshot_spec(self.model()),
    {
        let colour = self.peaks.colour * DIFFICULTY_MULTIPLIER_MILLI / 1000;
        let rhythm = self.peaks.rhythm * DIFFICULTY_MULTIPLIER_MILLI / 1000;
        let stamina = self.peaks.stamina * DIFFICULTY_MULTIPLIER_MILLI / 1000;
        let combined = colour + rhythm + stamina;
        let base = isqrt(combined * STAR_SCALE_TENTHS / 10 * 1000);
        let stars = if self.is_convert {
            let flat = base * CONVERT_PENALTY_MILLI / 1000;
            if colour < LOW_COLOUR_VARIANCE_MILLI && stamina > HIGH_STAMINA_MILLI {
                flat * 4 / 5
            } else {
                flat
            }
        } else {
            base
        };
        TaikoDifficultyAttributes {
            stamina,
            rhythm,
            colour,
            peak: combined,
            hit_window: self.hit_window,
            stars,
            max_combo: self.max_combo,
        }
    }

    /// Advance by one object admission round: admit objects up to the next
    /// hit and emit the updated attributes, or report exhaustion.
    ///
    /// No snapshot is produced once the remaining length is zero, and each
    /// emitted snapshot lowers the remaining length by exactly one.
    pub fn next(&mut self) -> (r: Option<TaikoDifficultyAttributes>)
        requires
            old(self).wf(),
        ensures
            final(self).wf(),
            final(self).model() == step_state(old(self).model()),
            r == step_out(old(self).model()),
            old(self).remaining_spec() == 0 ==> r is None,
            r is Some ==> final(self).remaining_spec() == old(self).remaining_spec() - 1,
            r is None ==> old(self).remaining_spec() == 0 && final(self).remaining_spec() == 0,
    {
        proof {
            lemma_hits_from(old(self).model().objects, old(self).model().pos as int);
        }
        let had = self.consume_one_hit();
        if had {
            Some(self.make_snapshot())
        } else {
            None
        }
    }

    /// Skip ahead: advance by `n + 1` single steps, discarding all but the
    /// last snapshot.
    ///
    /// This is exactly equivalent to calling `next` `n + 1` times and
    /// keeping the final result: every intermediate object is still
    /// admitted into the accumulator, only the intermediate snapshots are
    /// not computed.
    pub fn nth(&mut self, n: usize) -> (r: Option<TaikoDifficultyAttributes>)
        requires
            old(self).wf(),
        ensures
            final(self).wf(),
            final(self).model() == steps(old(self).model(), n as nat + 1),
            r == step_out(steps(old(self).model(), n as nat)),
    {
        let ghost m0 = old(self).model();
        let mut i: usize = 0;
        while i < n
            invariant
                i <= n,
                wf_model(self.model()),
                self.model() == steps(m0, i as nat),
                m0 == old(self).model(),
            decreases n - i,
        {
            let had = self.consume_one_hit();
            proof {
                lemma_steps_snoc(m0, i as nat);
            }
            i = i + 1;
            if !had {
                proof {
                    lemma_steps_stable(self.model(), (n - i) as nat + 1);
                    lemma_steps_add(m0, i as nat, (n - i) as nat + 1);
                    lemma_steps_add(m0, i as nat, (n - i) as nat);
                    lemma_steps_stable(self.model(), (n - i) as nat);
                }
                return None;
            }
        }
        proof {
            lemma_steps_snoc(m0, n as nat);
        }
        self.next()
    }

    /// The exact number of snapshots still to come.
    pub fn len(&self) -> (r: usize)
        requires
            self.wf(),
        ensures
            r as int == self.remaining_spec(),
    {
        proof {
            lemma_hits_from(self.model().objects, self.model().pos as int);
        }
        self.total_hits - self.idx
    }

    /// The remaining length, as an exact lower and upper bound.
    pub fn size_hint(&self) -> (r: (usize, Option<usize>))
        requires
            self.wf(),
        ensures
            r.0 as int == self.remaining_spec(),
            r.1 matches Some(u) && u as int == self.remaining_spec(),
    {
        let l = self.len();
        (l, Some(l))
    }
}

/// Running `a + b` steps is running `a` steps, then `b`.
proof fn lemma_steps_add(m: Model, a: nat, b: nat)
    ensures
        steps(m, a + b) == steps(steps(m, a), b),
    decreases a,
{
    reveal_with_fuel(steps, 2);
    if a > 0 {
        lemma_steps_add(step_state(m), (a - 1) as nat, b);
    }
}

} // verus!
