//! Wave tables: one cycle of a periodic signal as 1024 fixed-point samples.
//!
//! A sample value `v: u16` stands for the amplitude `v / 65535`, so every
//! table entry lies in `[0, 1]` by construction. The table caches the
//! arithmetic mean of its samples (rounded down), which the mixer subtracts
//! to remove the DC bias of the waveform.

use vstd::prelude::*;

verus! {

use vstd::arithmetic::div_mod::lemma_div_nonincreasing;

/// Sum of all samples of a table.
pub open spec fn spec_sum(s: Seq<u16>) -> int
    decreases s.len(),
{
    if s.len() == 0 {
        0
    } else {
        spec_sum(s.drop_last()) + s.last()
    }
}

/// The arithmetic mean of a full table, rounded down.
pub open spec fn spec_average(s: Seq<u16>) -> int {
    spec_sum(s) / 1024
}

/// The square generator: full amplitude on the first half cycle.
pub open spec fn square_sample(i: int) -> int {
    if i < 512 {
        65535
    } else {
        0
    }
}

/// The triangle generator: `|1 - 2 * i / 1024|`, in fixed point.
pub open spec fn triangle_sample(i: int) -> int {
    (if i < 512 {
        1024 - 2 * i
    } else {
        2 * i - 1024
    }) * 65535 / 1024
}

/// The sawtooth generator: `1 - i / 1024`, in fixed point.
pub open spec fn sawtooth_sample(i: int) -> int {
    (1024 - i) * 65535 / 1024
}

/// Clamp an amplitude to the representable range `[0, 65535]`.
pub open spec fn spec_clamp(v: int) -> int {
    if v < 0 {
        0
    } else if v > 65535 {
        65535
    } else {
        v
    }
}

proof fn lemma_sum_bounds(s: Seq<u16>)
    ensures
        0 <= spec_sum(s) <= 65535 * s.len(),
    decreases s.len(),
{
    if s.len() > 0 {
        lemma_sum_bounds(s.drop_last());
    }
}

proof fn lemma_sum_push(s: Seq<u16>, v: u16)
    ensures
        spec_sum(s.push(v)) == spec_sum(s) + v,
{
    assert(s.push(v).drop_last() =~= s);
}

/// Where the freehand stroke between table positions `a` and `b` actually
/// runs: endpoints are first extended by a full table length so that the
/// stroke follows the shorter circular arc, then ordered so the lower index
/// comes first. Returns `(lo, vlo, hi, vhi)`.
pub open spec fn arc_points(a: int, va: int, b: int, vb: int) -> (int, int, int, int) {
    let b1 = if a > b + 512 {
        b + 1024
    } else {
        b
    };
    let a1 = if b1 > a + 512 {
        a + 1024
    } else {
        a
    };
    if b1 < a1 {
        (b1, vb, a1, va)
    } else {
        (a1, va, b1, vb)
    }
}

/// Linear interpolation from `vlo` to `vhi`, `k` steps out of `den`, with
/// the division rounded towards zero.
pub open spec fn spec_interp(vlo: int, vhi: int, k: int, den: int) -> int {
    if vhi >= vlo {
        vlo + (vhi - vlo) * k / den
    } else {
        vlo - (vlo - vhi) * k / den
    }
}

/// The value the stroke writes at arc position `i` (clamped into range); a
/// single-point stroke writes its target value directly.
pub open spec fn drawn_value(lo: int, vlo: int, hi: int, vhi: int, i: int) -> int {
    if lo == hi {
        spec_clamp(vhi)
    } else {
        spec_clamp(spec_interp(vlo, vhi, i - lo, hi - lo))
    }
}

/// The table entry at index `j` after a stroke from `(a, va)` to `(b, vb)`:
/// the interpolated value where the arc covers `j` (directly or wrapped by a
/// full table length), the previous entry everywhere else.
pub open spec fn draw_spec_at(a: int, va: int, b: int, vb: int, j: int, old_v: int) -> int {
    let (lo, vlo, hi, vhi) = arc_points(a, va, b, vb);
    if lo <= j <= hi {
        drawn_value(lo, vlo, hi, vhi, j)
    } else if lo <= j + 1024 <= hi {
        drawn_value(lo, vlo, hi, vhi, j + 1024)
    } else {
        old_v
    }
}

/// Law: a freehand stroke always follows the shorter circular arc — its
/// ordered endpoints span at most half the table — and every table entry it
/// writes is clamped into the representable amplitude range; entries off the
/// arc keep their previous value.
pub proof fn lemma_draw_shorter_arc(a: int, va: int, b: int, vb: int)
    requires
        0 <= a < 1024,
        0 <= b < 1024,
    ensures
        ({
            let (lo, vlo, hi, vhi) = arc_points(a, va, b, vb);
            0 <= lo <= hi && hi - lo <= 512
        }),
        forall|j: int, old_v: int|
            0 <= j < 1024 ==> #[trigger] draw_spec_at(a, va, b, vb, j, old_v) == old_v || 0
                <= draw_spec_at(a, va, b, vb, j, old_v) <= 65535,
{
}

/// Arc positions `lo <= p < end` reach table index `j` either directly or
/// wrapped by a full table length.
spec fn covered_by(lo: int, end: int, j: int) -> bool {
    (lo <= j < end) || (lo <= j + 1024 < end)
}

/// The arc position that reaches table index `j`.
spec fn arc_position(lo: int, end: int, j: int) -> int {
    if lo <= j < end {
        j
    } else {
        j + 1024
    }
}

fn clamp_i64(v: i64) -> (r: u16)
    ensures
        r as int == spec_clamp(v as int),
{
    if v < 0 {
        0
    } else if v > 65535 {
        65535
    } else {
        v as u16
    }
}

/// Built-in waveform generators. The sine shape needs transcendental
/// arithmetic, so it is produced outside the library and enters through
/// [`Wave::from_samples`].
#[derive(Clone, Copy, PartialEq, Eq, Structural)]
pub enum Generator {
    Square,
    Triangle,
    Sawtooth,
    /// Every sample drawn independently at creation and frozen afterwards.
    Noise,
}

/// A wave table: exactly 1024 samples, each standing for an amplitude in
/// `[0, 1]`, with the cached arithmetic mean of the samples.
pub struct Wave {
    samples: Vec<u16>,
    average: u16,
}

impl View for Wave {
    type V = Seq<u16>;

    closed spec fn view(&self) -> Seq<u16> {
        self.samples@
    }
}

/// Relies on rand::random: one independently drawn 16-bit value. Nothing is
/// assumed of it; every outcome is a valid fixed-point sample.
#[verifier::external_body]
fn random_u16() -> u16 {
    rand::random()
}

fn compute_average(samples: &Vec<u16>) -> (r: u16)
    requires
        samples@.len() == 1024,
    ensures
        r == spec_average(samples@),
{
    let mut sum: u32 = 0;
    let mut i: usize = 0;
    while i < 1024
        invariant
            i <= 1024,
            samples@.len() == 1024,
            sum == spec_sum(samples@.take(i as int)),
            sum <= 65535 * i,
        decreases 1024 - i,
    {
        proof {
            lemma_sum_bounds(samples@.take(i as int));
            lemma_sum_push(samples@.take(i as int), samples@[i as int]);
            assert(samples@.take(i as int).push(samples@[i as int]) =~= samples@.take(
                i + 1,
            ));
        }
        sum = sum + samples[i] as u32;
        i = i + 1;
    }
    proof {
        assert(samples@.take(1024) =~= samples@);
        lemma_sum_bounds(samples@);
    }
    (sum / 1024) as u16
}

impl Wave {
    /// Internal consistency: fixed length and a correct cached mean.
    pub closed spec fn wf(&self) -> bool {
        &&& self.samples@.len() == 1024
        &&& self.average == spec_average(self.samples@)
    }

    /// The cached mean of the table.
    pub fn average(&self) -> (r: u16)
        requires
            self.wf(),
        ensures
            r == spec_average(self@),
    {
        self.average
    }

    /// The number of samples; always 1024.
    pub fn len(&self) -> (r: usize)
        requires
            self.wf(),
        ensures
            r == self@.len() == 1024,
    {
        self.samples.len()
    }

    /// One sample of the table.
    pub fn sample(&self, i: usize) -> (r: u16)
        requires
            self.wf(),
            i < 1024,
        ensures
            r == self@[i as int],
    {
        self.samples[i]
    }

    /// The samples as a plain vector.
    pub fn to_vec(&self) -> (r: Vec<u16>)
        requires
            self.wf(),
        ensures
            r@ == self@,
            r@.len() == 1024,
    {
        let mut r: Vec<u16> = Vec::new();
        let mut i: usize = 0;
        while i < 1024
            invariant
                i <= 1024,
                self.wf(),
                r@ == self@.take(i as int),
            decreases 1024 - i,
        {
            r.push(self.samples[i]);
            proof {
                assert(r@ =~= self@.take(i + 1));
            }
            i = i + 1;
        }
        proof {
            assert(self@.take(1024) =~= self@);
        }
        r
    }

    /// Builds a table from 1024 prepared samples, caching their mean.
    pub fn from_samples(samples: Vec<u16>) -> (r: Wave)
        requires
            samples@.len() == 1024,
        ensures
            r.wf(),
            r@ == samples@,
    {
        let average = compute_average(&samples);
        Wave { samples, average }
    }

    /// Freehand edit: linearly interpolates table values between positions
    /// `a` and `b` (with target amplitudes `va`, `vb`, fixed point scaled by
    /// 65535 and possibly out of range), following the shorter circular arc,
    /// wrapping written indices around the table and clamping every written
    /// value into `[0, 65535]`. Recomputes the cached mean.
    pub fn draw(&mut self, a: usize, va: i32, b: usize, vb: i32)
        requires
            old(self).wf(),
            a < 1024,
            b < 1024,
        ensures
            final(self).wf(),
            forall|j: int|
                0 <= j < 1024 ==> final(self)@[j] == draw_spec_at(
                    a as int,
                    va as int,
                    b as int,
                    vb as int,
                    j,
                    old(self)@[j] as int,
                ),
    {
        let mut ia: usize = a;
        let mut ib: usize = b;
        let mut wa: i64 = va as i64;
        let mut wb: i64 = vb as i64;
        if ia > ib + 512 {
            ib = ib + 1024;
        }
        if ib > ia + 512 {
            ia = ia + 1024;
        }
        if ib < ia {
            let ti: usize = ia;
            ia = ib;
            ib = ti;
            let tw: i64 = wa;
            wa = wb;
            wb = tw;
        }
        let ghost arc = arc_points(a as int, va as int, b as int, vb as int);
        proof {
            assert(arc == (ia as int, wa as int, ib as int, wb as int));
            assert(ib - ia <= 512);
        }
        if ia == ib {
            let idx: usize = if ia < 1024 {
                ia
            } else {
                ia - 1024
            };
            self.samples[idx] = clamp_i64(wb);
            proof {
                assert forall|j: int|
                    0 <= j < 1024 implies self.samples@[j] == draw_spec_at(
                    a as int,
                    va as int,
                    b as int,
                    vb as int,
                    j,
                    old(self)@[j] as int,
                ) by {
                    if j == idx {
                        assert(drawn_value(arc.0, arc.1, arc.2, arc.3, arc.0) == spec_clamp(
                            wb as int,
                        ));
                    }
                }
            }
        } else {
            let den: i64 = (ib - ia) as i64;
            let mut i: usize = ia;
            while i <= ib
                invariant
                    ia <= i <= ib + 1,
                    ia < ib <= ia + 512,
                    ib < 2048,
                    den == ib - ia,
                    old(self)@.len() == 1024,
                    -0x8000_0000 <= wa <= 0x7fff_ffff,
                    -0x8000_0000 <= wb <= 0x7fff_ffff,
                    wa == arc.1,
                    wb == arc.3,
                    ia == arc.0,
                    ib == arc.2,
                    self.samples@.len() == 1024,
                    forall|j: int|
                        0 <= j < 1024 && covered_by(ia as int, i as int, j) ==> self.samples@[j]
                            == drawn_value(
                            arc.0,
                            arc.1,
                            arc.2,
                            arc.3,
                            arc_position(ia as int, i as int, j),
                        ),
                    forall|j: int|
                        0 <= j < 1024 && !covered_by(ia as int, i as int, j)
                            ==> self.samples@[j] == old(self)@[j],
                decreases ib + 1 - i,
            {
                let k: u64 = (i - ia) as u64;
                let diff: u64 = if wb >= wa {
                    (wb - wa) as u64
                } else {
                    (wa - wb) as u64
                };
                proof {
                    assert(diff * k <= 0x1_0000_0000u64 * 512) by (nonlinear_arith)
                        requires
                            diff <= 0x1_0000_0000u64,
                            k <= 512u64,
                    ;
                }
                let q: u64 = diff * k / (den as u64);
                proof {
                    lemma_div_nonincreasing((diff * k) as int, den as int);
                }
                let w: i64 = if wb >= wa {
                    wa + q as i64
                } else {
                    wa - q as i64
                };
                let idx: usize = if i < 1024 {
                    i
                } else {
                    i - 1024
                };
                proof {
                    assert(w == spec_interp(wa as int, wb as int, i - ia, ib - ia));
                    assert(!covered_by(ia as int, i as int, idx as int));
                }
                self.samples[idx] = clamp_i64(w);
                i = i + 1;
                proof {
                    assert forall|j: int|
                        0 <= j < 1024 && covered_by(ia as int, i as int, j)
                            implies self.samples@[j] == drawn_value(
                            arc.0,
                            arc.1,
                            arc.2,
                            arc.3,
                            arc_position(ia as int, i as int, j),
                        ) by {
                        if j != idx {
                            assert(covered_by(ia as int, (i - 1) as int, j));
                            assert(arc_position(ia as int, i as int, j) == arc_position(
                                ia as int,
                                (i - 1) as int,
                                j,
                            ));
                        }
                    }
                    assert(covered_by(ia as int, i as int, idx as int));
                    assert forall|j: int|
                        0 <= j < 1024 && !covered_by(ia as int, i as int, j)
                            implies self.samples@[j] == old(self)@[j] by {
                        assert(j != idx);
                        assert(!covered_by(ia as int, (i - 1) as int, j));
                    }
                }
            }
            proof {
                assert forall|j: int|
                    0 <= j < 1024 implies self.samples@[j] == draw_spec_at(
                    a as int,
                    va as int,
                    b as int,
                    vb as int,
                    j,
                    old(self)@[j] as int,
                ) by {
                    if arc.0 <= j <= arc.2 {
                        assert(covered_by(ia as int, i as int, j));
                        assert(arc_position(ia as int, i as int, j) == j);
                    } else if arc.0 <= j + 1024 <= arc.2 {
                        assert(covered_by(ia as int, i as int, j));
                        assert(arc_position(ia as int, i as int, j) == j + 1024);
                    } else {
                        assert(!covered_by(ia as int, i as int, j));
                    }
                }
            }
        }
        self.average = compute_average(&self.samples);
    }

    /// Fills all 1024 positions from a built-in generator, evaluated over the
    /// unit interval.
    pub fn new(generator: Generator) -> (r: Wave)
        ensures
            r.wf(),
            r@.len() == 1024,
            generator is Square ==> forall|i: int| 0 <= i < 1024 ==> r@[i] == square_sample(i),
            generator is Triangle ==> forall|i: int|
                0 <= i < 1024 ==> r@[i] == triangle_sample(i),
            generator is Sawtooth ==> forall|i: int|
                0 <= i < 1024 ==> r@[i] == sawtooth_sample(i),
    {
        let mut samples: Vec<u16> = Vec::new();
        let mut i: usize = 0;
        while i < 1024
            invariant
                i <= 1024,
                samples@.len() == i,
                generator is Square ==> forall|j: int|
                    0 <= j < i ==> samples@[j] == square_sample(j),
                generator is Triangle ==> forall|j: int|
                    0 <= j < i ==> samples@[j] == triangle_sample(j),
                generator is Sawtooth ==> forall|j: int|
                    0 <= j < i ==> samples@[j] == sawtooth_sample(j),
            decreases 1024 - i,
        {
            let v: u16 = match generator {
                Generator::Square => if i < 512 {
                    65535
                } else {
                    0
                },
                Generator::Triangle => {
                    let d: u64 = if i < 512 {
                        (1024 - 2 * i) as u64
                    } else {
                        (2 * i - 1024) as u64
                    };
                    (d * 65535 / 1024) as u16
                },
                Generator::Sawtooth => {
                    let d: u64 = (1024 - i) as u64;
                    (d * 65535 / 1024) as u16
                },
                Generator::Noise => random_u16(),
            };
            samples.push(v);
            i = i + 1;
        }
        Wave::from_samples(samples)
    }
}


impl Default for Wave {
    /// The silent table: all 1024 samples at zero, with a zero mean.
    fn default() -> (r: Self)
        ensures
            r.wf(),
            r@.len() == 1024,
            forall|i: int| 0 <= i < 1024 ==> r@[i] == 0,
    {
        let mut samples: Vec<u16> = Vec::new();
        let mut i: usize = 0;
        while i < 1024
            invariant
                i <= 1024,
                samples@.len() == i,
                forall|j: int| 0 <= j < i ==> samples@[j] == 0,
            decreases 1024 - i,
        {
            samples.push(0);
            i = i + 1;
        }
        Wave::from_samples(samples)
    }
}

} // verus!
