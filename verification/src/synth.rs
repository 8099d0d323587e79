//! The per-tick mixer: walks the playing forest depth first with an explicit
//! stack and accumulates one chunk of samples.
//!
//! A node with no playing children is a contributing leaf: it emits its wave
//! table, DC bias removed, scaled by the volume inherited from its
//! ancestors. A node with playing children emits nothing itself; instead its
//! waveform, sampled at each child's phase offset, shapes the volume
//! envelope the child inherits. Volumes are fixed point with 65535 standing
//! for full gain and start at the base gain; mixed samples are signed fixed
//! point on the same scale.

use crate::backend::LoopTunesBackend;
use crate::backend::FRAME_SIZE;
use crate::backend::PERIOD;
use crate::freq::spec_frequency;
use crate::freq::MAX_FREQ_SCALED;
use crate::graph::CycleNode;
use crate::graph::NodeGraph;
use crate::wave::spec_average;
use vstd::prelude::*;

verus! {

use vstd::arithmetic::div_mod::lemma_div_multiples_vanish;
use vstd::math::abs;
use vstd::arithmetic::div_mod::lemma_div_is_ordered;

/// Samples produced per tick.
pub const CHUNK_SIZE: usize = 1024;

/// The uniform gain every playing root starts with: exactly 0.2 of full
/// gain, that is 13107/65535.
pub const BASE_VOLUME: u64 = 13107;

/// One second of playback in the scaled-frequency clock: sample rate times
/// the 2^20 frequency scale.
pub const TIME_DENOM: u64 = 48000 * 1048576;

/// The table index a node reads at sample position `p`: 1024 times the
/// fractional part of the elapsed phase `p * f / TIME_DENOM` minus the
/// offset `ph` (in 2^-20 cycles), saturating at 0 while the offset still
/// exceeds the elapsed phase.
pub open spec fn spec_wave_index(p: int, f: int, ph: int) -> int {
    let num = p * f;
    let off = ph * 48000;
    if num < off {
        0
    } else {
        ((num - off) % (TIME_DENOM as int)) * 1024 / (TIME_DENOM as int)
    }
}

/// The sample node `i` reads at position `p` with phase offset `ph`.
pub open spec fn node_sample(g: Seq<CycleNode>, i: int, p: int, ph: int) -> int {
    g[i].wave@[spec_wave_index(p, spec_frequency(g[i].cycle.frequency as int) as int, ph)] as int
}

/// Node `j` is a playing child of node `i`.
pub open spec fn is_playing_child(g: Seq<CycleNode>, i: int, j: int) -> bool {
    &&& 0 <= j < g.len()
    &&& g[j].parent == Some(i as u32)
    &&& g[j].playing
}

/// Node `i` has at least one playing child, so it shapes envelopes instead
/// of emitting samples.
pub open spec fn has_playing_child(g: Seq<CycleNode>, i: int) -> bool {
    exists|j: int| is_playing_child(g, i, j)
}

/// The volume a child with phase offset `ph` inherits at position `p` from a
/// parent `i` holding volume `v`: the parent's sample scales the volume.
pub open spec fn child_volume(g: Seq<CycleNode>, i: int, ph: int, v: int, p: int) -> int {
    node_sample(g, i, p, ph) * v / 65535
}

/// What leaf `i` adds to the mix at position `p` under volume `v`: its
/// sample, DC average removed, scaled by `v` (rounded towards zero).
pub open spec fn leaf_emit(g: Seq<CycleNode>, i: int, v: int, p: int) -> int {
    let s = node_sample(g, i, p, 0);
    let avg = spec_average(g[i].wave@);
    if s >= avg {
        (s - avg) * v / 65535
    } else {
        -((avg - s) * v / 65535)
    }
}

/// What the subtree rooted at node `i` contributes to the mix at position
/// `p`, given the volume `v` it inherits: a leaf emits directly, an inner
/// node passes shaped volumes to its playing children. (A child stored
/// before its parent is ignored; well-formed arenas have none.)
pub open spec fn subtree_mix(g: Seq<CycleNode>, i: int, v: int, p: int) -> int
    decreases g.len() - i, g.len() + 1int,
{
    if !has_playing_child(g, i) {
        leaf_emit(g, i, v, p)
    } else {
        child_sum_upto(g, i, g.len() as int, v, p)
    }
}

/// Sum of the contributions of the playing children of `i` that are stored
/// below index `end`.
pub open spec fn child_sum_upto(g: Seq<CycleNode>, i: int, end: int, v: int, p: int) -> int
    decreases g.len() - i, end,
{
    if end <= 0 {
        0
    } else {
        let j = end - 1;
        child_sum_upto(g, i, j, v, p) + (if is_playing_child(g, i, j) && j > i {
            subtree_mix(g, j, child_volume(g, i, g[j].cycle.phase as int, v, p), p)
        } else {
            0
        })
    }
}

/// Node `i` is a playing root: no parent and the playing flag set.
pub open spec fn is_playing_root(g: Seq<CycleNode>, i: int) -> bool {
    &&& 0 <= i < g.len()
    &&& g[i].parent is None
    &&& g[i].playing
}

/// The mix over the playing roots stored below index `end`.
pub open spec fn mix_upto(g: Seq<CycleNode>, end: int, p: int) -> int
    decreases end,
{
    if end <= 0 {
        0
    } else {
        mix_upto(g, end - 1, p) + (if is_playing_root(g, end - 1) {
            subtree_mix(g, end - 1, BASE_VOLUME as int, p)
        } else {
            0
        })
    }
}

/// The mixed output sample at position `p`: every playing root's subtree,
/// each starting from the base gain.
pub open spec fn mix_at(g: Seq<CycleNode>, p: int) -> int {
    mix_upto(g, g.len() as int, p)
}

/// One pending unit of the depth-first walk: a node and the per-sample
/// volume envelope its subtree inherits.
struct StackEntry {
    node: u32,
    volume: Vec<u64>,
}

/// A stack entry points into the arena, carries one volume per chunk sample,
/// and volumes never exceed the base gain.
spec fn entry_wf(g: Seq<CycleNode>, e: StackEntry) -> bool {
    &&& (e.node as int) < g.len()
    &&& e.volume@.len() == 1024
    &&& forall|k: int| 0 <= k < 1024 ==> e.volume@[k] <= 13107
}

/// What the pending stack still owes the mix at chunk offset `k`.
spec fn stack_sum(g: Seq<CycleNode>, st: Seq<StackEntry>, k: int, p: int) -> int
    decreases st.len(),
{
    if st.len() == 0 {
        0
    } else {
        stack_sum(g, st.drop_last(), k, p) + subtree_mix(
            g,
            st.last().node as int,
            st.last().volume@[k] as int,
            p,
        )
    }
}

proof fn lemma_stack_sum_push(g: Seq<CycleNode>, st: Seq<StackEntry>, e: StackEntry, k: int, p: int)
    ensures
        stack_sum(g, st.push(e), k, p) == stack_sum(g, st, k, p) + subtree_mix(
            g,
            e.node as int,
            e.volume@[k] as int,
            p,
        ),
{
    assert(st.push(e).drop_last() =~= st);
}

proof fn lemma_child_sum_zero(g: Seq<CycleNode>, i: int, end: int, v: int, p: int)
    requires
        end <= i + 1,
    ensures
        child_sum_upto(g, i, end, v, p) == 0,
    decreases end,
{
    if end > 0 {
        lemma_child_sum_zero(g, i, end - 1, v, p);
    }
}

/// Scales `v` by the amplitude `d / 65535`, rounding down; never grows `v`.
fn mul_div_gain(d: u16, v: u64) -> (r: u64)
    requires
        v <= 13107,
    ensures
        r == d * v / 65535,
        r <= v,
{
    proof {
        assert(d * v <= 65535 * v) by (nonlinear_arith)
            requires
                0 <= d <= 65535,
                v >= 0,
        ;
        lemma_div_is_ordered((d * v) as int, (65535 * v) as int, 65535int);
        lemma_div_multiples_vanish(v as int, 65535int);
    }
    d as u64 * v / 65535
}

/// Looks up the table index for sample position `p`, scaled frequency `f`
/// and scaled phase offset `ph`.
pub fn wave_index(p: u32, f: u64, ph: u32) -> (r: usize)
    requires
        p <= PERIOD + FRAME_SIZE,
        0 < f <= MAX_FREQ_SCALED,
        ph < 1048576,
    ensures
        r == spec_wave_index(p as int, f as int, ph as int),
        r < 1024,
{
    proof {
        assert(p as int * f as int <= 36866048int * 8285986824int) by (nonlinear_arith)
            requires
                p <= 36866048,
                0 <= f <= 8285986824,
        ;
        assert(p as int * f as int >= 0) by (nonlinear_arith)
            requires
                p >= 0,
                f >= 0,
        ;
    }
    let num: u64 = p as u64 * f;
    let off: u64 = ph as u64 * 48000;
    if num < off {
        0
    } else {
        let rem: u64 = (num - off) % TIME_DENOM;
        let idx: u64 = rem * 1024 / TIME_DENOM;
        proof {
            assert(rem < TIME_DENOM);
            assert(rem * 1024 <= (TIME_DENOM - 1) * 1024) by (nonlinear_arith)
                requires
                    0 <= rem <= TIME_DENOM - 1,
            ;
            lemma_div_is_ordered((rem * 1024) as int, ((TIME_DENOM - 1) * 1024) as int, TIME_DENOM as int);
            assert(((TIME_DENOM - 1) * 1024) as int / (TIME_DENOM as int) == 1023);
        }
        idx as usize
    }
}

/// Mixes one chunk: sample `k` of the result is the exact fixed-point mix of
/// every playing root's subtree at position `times[k]`.
///
/// The walk is an explicit-stack depth-first traversal. A ghost set of
/// finished nodes shows each node is handled at most once, which both bounds
/// the accumulator and serves as the termination measure.
#[verifier::loop_isolation(false)]
pub fn synthesize(g: &NodeGraph, times: &Vec<u32>) -> (r: Vec<i64>)
    requires
        g.wf(),
        times@.len() >= CHUNK_SIZE,
        forall|k: int| 0 <= k < CHUNK_SIZE ==> times@[k] <= PERIOD + FRAME_SIZE,
    ensures
        r@.len() == CHUNK_SIZE,
        forall|k: int| 0 <= k < CHUNK_SIZE ==> r@[k] == mix_at(g@, times@[k] as int),
{
    let n = g.len();
    let mut result: Vec<i64> = Vec::new();
    let mut k0: usize = 0;
    while k0 < CHUNK_SIZE
        invariant
            k0 <= CHUNK_SIZE,
            result@.len() == k0,
            forall|kk: int| 0 <= kk < k0 ==> result@[kk] == 0i64,
        decreases CHUNK_SIZE - k0,
    {
        result.push(0i64);
        k0 = k0 + 1;
    }

    // Push every playing root, carrying the uniform base gain.
    let mut stack: Vec<StackEntry> = Vec::new();
    let mut i: usize = 0;
    while i < n
        invariant
            i <= n,
            forall|e: int| 0 <= e < stack@.len() ==> entry_wf(g@, #[trigger] stack@[e]),
            forall|e: int| 0 <= e < stack@.len() ==> (#[trigger] stack@[e]).node < i,
            forall|e1: int, e2: int|
                0 <= e1 < e2 < stack@.len() ==> stack@[e1].node != stack@[e2].node,
            forall|e: int|
                0 <= e < stack@.len() ==> g@[(#[trigger] stack@[e]).node as int].parent is None,
            forall|k: int|
                0 <= k < CHUNK_SIZE ==> stack_sum(g@, stack@, k, times@[k] as int) == mix_upto(
                    g@,
                    i as int,
                    times@[k] as int,
                ),
        decreases n - i,
    {
        let nd = g.node(i);
        let is_root = match nd.parent {
            Some(_) => false,
            None => true,
        };
        if is_root && nd.playing {
            let mut vol: Vec<u64> = Vec::new();
            let mut k: usize = 0;
            while k < CHUNK_SIZE
                invariant
                    k <= CHUNK_SIZE,
                    vol@.len() == k,
                    forall|kk: int| 0 <= kk < k ==> vol@[kk] == BASE_VOLUME,
                decreases CHUNK_SIZE - k,
            {
                vol.push(BASE_VOLUME);
                k = k + 1;
            }
            let ghost st0 = stack@;
            let entry = StackEntry { node: i as u32, volume: vol };
            stack.push(entry);
            proof {
                assert forall|k: int| 0 <= k < CHUNK_SIZE implies stack_sum(
                    g@,
                    stack@,
                    k,
                    times@[k] as int,
                ) == mix_upto(g@, i + 1, times@[k] as int) by {
                    lemma_stack_sum_push(g@, st0, entry, k, times@[k] as int);
                }
            }
        }
        i = i + 1;
    }

    let ghost mut seen: Set<int> = Set::empty();
    proof {
        vstd::set_lib::lemma_int_range(0, n as int);
    }

    while stack.len() > 0
        invariant
            result@.len() == CHUNK_SIZE,
            forall|e: int| 0 <= e < stack@.len() ==> entry_wf(g@, #[trigger] stack@[e]),
            forall|e1: int, e2: int|
                0 <= e1 < e2 < stack@.len() ==> stack@[e1].node != stack@[e2].node,
            forall|e: int|
                0 <= e < stack@.len() ==> !seen.contains((#[trigger] stack@[e]).node as int),
            forall|e: int|
                0 <= e < stack@.len() ==> (g@[(#[trigger] stack@[e]).node as int].parent is Some
                    ==> seen.contains(
                    g@[stack@[e].node as int].parent->Some_0 as int,
                )),
            seen.finite(),
            seen.subset_of(vstd::set_lib::set_int_range(0, n as int)),
            seen.len() <= n,
            forall|m: int|
                #[trigger] seen.contains(m) ==> 0 <= m < n && (g@[m].parent is Some
                    ==> seen.contains(g@[m].parent->Some_0 as int)),
            forall|k: int|
                0 <= k < CHUNK_SIZE ==> abs(result@[k] as int) <= 13107 * seen.len(),
            forall|k: int|
                0 <= k < CHUNK_SIZE ==> result@[k] + stack_sum(g@, stack@, k, times@[k] as int)
                    == mix_at(g@, times@[k] as int),
        decreases n - seen.len(),
    {
        let ghost st0 = stack@;
        let e = stack.pop().unwrap();
        let i_node: usize = e.node as usize;
        proof {
            assert(st0.subrange(0, st0.len() - 1) =~= st0.drop_last());
            assert(!seen.contains(i_node as int));
        }
        let nd = g.node(i_node);
        let f = nd.cycle.frequency();

        // Does this node have a playing child?
        let mut has_child = false;
        let mut j: usize = i_node + 1;
        while j < n
            invariant
                i_node + 1 <= j <= n,
                has_child == exists|jj: int|
                    i_node < jj < j && is_playing_child(g@, i_node as int, jj),
            decreases n - j,
        {
            let cnd = g.node(j);
            let is_pc = match cnd.parent {
                Some(pp) => pp as usize == i_node && cnd.playing,
                None => false,
            };
            proof {
                if is_pc {
                    assert(g@[j as int].parent == Some(i_node as u32));
                    assert(is_playing_child(g@, i_node as int, j as int));
                } else {
                    assert(!is_playing_child(g@, i_node as int, j as int));
                }
            }
            if is_pc {
                has_child = true;
            }
            j = j + 1;
        }
        proof {
            assert forall|jj: int| is_playing_child(g@, i_node as int, jj) implies i_node < jj
                < n by {
                assert(g@[jj].parent is Some && g@[jj].parent->Some_0 < jj);
            }
            assert(has_child == has_playing_child(g@, i_node as int));
        }

        if !has_child {
            // Contributing leaf: emit its table, bias removed, under the
            // inherited envelope.
            let avg = nd.wave.average();
            let ghost res0 = result@;
            let ghost seen1 = seen.insert(i_node as int);
            let mut k: usize = 0;
            while k < CHUNK_SIZE
                invariant
                    k <= CHUNK_SIZE,
                    result@.len() == CHUNK_SIZE,
                    forall|kk: int| k <= kk < CHUNK_SIZE ==> result@[kk] == res0[kk],
                    forall|kk: int|
                        0 <= kk < k ==> result@[kk] == res0[kk] + leaf_emit(
                            g@,
                            i_node as int,
                            e.volume@[kk] as int,
                            times@[kk] as int,
                        ),
                    forall|kk: int|
                        0 <= kk < k ==> abs(result@[kk] as int) <= 13107 * seen1.len(),
                decreases CHUNK_SIZE - k,
            {
                let p = times[k];
                let idx = wave_index(p, f, 0);
                let s = nd.wave.sample(idx);
                let v = e.volume[k];
                let cur = result[k];
                proof {
                    assert(seen1.len() == seen.len() + 1);
                    assert(abs(cur as int) <= 13107 * seen.len());
                }
                if s >= avg {
                    let q = mul_div_gain(s - avg, v);
                    result[k] = cur + q as i64;
                } else {
                    let q = mul_div_gain(avg - s, v);
                    result[k] = cur - q as i64;
                }
                k = k + 1;
            }
            proof {
                let ghost seen0 = seen;
                seen = seen1;
                vstd::set_lib::lemma_len_subset(
                    seen,
                    vstd::set_lib::set_int_range(0, n as int),
                );
                assert(e == st0[st0.len() - 1]);
                assert forall|kk: int| 0 <= kk < CHUNK_SIZE implies result@[kk] + stack_sum(
                    g@,
                    stack@,
                    kk,
                    times@[kk] as int,
                ) == mix_at(g@, times@[kk] as int) by {
                    assert(res0[kk] + stack_sum(g@, st0, kk, times@[kk] as int) == mix_at(
                        g@,
                        times@[kk] as int,
                    ));
                    assert(stack_sum(g@, st0, kk, times@[kk] as int) == stack_sum(
                        g@,
                        stack@,
                        kk,
                        times@[kk] as int,
                    ) + subtree_mix(g@, i_node as int, e.volume@[kk] as int, times@[kk] as int));
                }
                assert forall|ee: int| 0 <= ee < stack@.len() implies entry_wf(
                    g@,
                    #[trigger] stack@[ee],
                ) && !seen.contains(stack@[ee].node as int) && (g@[stack@[ee].node as int].parent
                    is Some ==> seen.contains(
                    g@[stack@[ee].node as int].parent->Some_0 as int,
                )) by {
                    assert(stack@[ee] == st0[ee]);
                    assert(entry_wf(g@, st0[ee]));
                    assert(!seen0.contains(st0[ee].node as int));
                    assert(st0[ee].node != st0[st0.len() - 1].node);
                }
                assert forall|e1: int, e2: int|
                    0 <= e1 < e2 < stack@.len() implies stack@[e1].node != stack@[e2].node by {
                    assert(stack@[e1] == st0[e1] && stack@[e2] == st0[e2]);
                }
            }
        } else {
            // Envelope node: push each playing child under a volume shaped
            // by this node's waveform at the child's phase offset.
            let ghost base = stack@;
            let ghost res0 = result@;
            let mut j: usize = i_node + 1;
            proof {
                assert forall|k: int| 0 <= k < CHUNK_SIZE implies child_sum_upto(
                    g@,
                    i_node as int,
                    i_node + 1,
                    e.volume@[k] as int,
                    times@[k] as int,
                ) == 0 by {
                    lemma_child_sum_zero(
                        g@,
                        i_node as int,
                        i_node + 1,
                        e.volume@[k] as int,
                        times@[k] as int,
                    );
                }
                assert(stack@.subrange(0, base.len() as int) =~= base);
            }
            while j < n
                invariant
                    i_node + 1 <= j <= n,
                    result@ == res0,
                    stack@.len() >= base.len(),
                    stack@.subrange(0, base.len() as int) == base,
                    forall|ee: int|
                        base.len() <= ee < stack@.len() ==> entry_wf(g@, #[trigger] stack@[ee]),
                    forall|ee: int|
                        base.len() <= ee < stack@.len() ==> i_node < (#[trigger] stack@[ee]).node
                            < j,
                    forall|ee: int|
                        base.len() <= ee < stack@.len() ==> g@[(
                        #[trigger] stack@[ee]).node as int].parent == Some(i_node as u32),
                    forall|ee: int|
                        base.len() <= ee < stack@.len() ==> !seen.contains(
                            (#[trigger] stack@[ee]).node as int,
                        ),
                    forall|e1: int, e2: int|
                        base.len() <= e1 < e2 < stack@.len() ==> stack@[e1].node
                            < stack@[e2].node,
                    forall|eb: int, ee: int|
                        0 <= eb < base.len() && base.len() <= ee < stack@.len() ==> stack@[eb].node
                            != stack@[ee].node,
                    forall|k: int|
                        0 <= k < CHUNK_SIZE ==> stack_sum(g@, stack@, k, times@[k] as int)
                            == stack_sum(g@, base, k, times@[k] as int) + child_sum_upto(
                            g@,
                            i_node as int,
                            j as int,
                            e.volume@[k] as int,
                            times@[k] as int,
                        ),
                decreases n - j,
            {
                let cnd = g.node(j);
                let is_pc = match cnd.parent {
                    Some(pp) => pp as usize == i_node && cnd.playing,
                    None => false,
                };
                if is_pc {
                    let mut vol: Vec<u64> = Vec::new();
                    let mut k: usize = 0;
                    while k < CHUNK_SIZE
                        invariant
                            k <= CHUNK_SIZE,
                            vol@.len() == k,
                            forall|kk: int|
                                0 <= kk < k ==> vol@[kk] == child_volume(
                                    g@,
                                    i_node as int,
                                    g@[j as int].cycle.phase as int,
                                    e.volume@[kk] as int,
                                    times@[kk] as int,
                                ),
                            forall|kk: int| 0 <= kk < k ==> vol@[kk] <= 13107,
                        decreases CHUNK_SIZE - k,
                    {
                        let p = times[k];
                        let idx = wave_index(p, f, cnd.cycle.phase);
                        let s = nd.wave.sample(idx);
                        vol.push(mul_div_gain(s, e.volume[k]));
                        k = k + 1;
                    }
                    let ghost st1 = stack@;
                    let entry = StackEntry { node: j as u32, volume: vol };
                    stack.push(entry);
                    proof {
                        assert(stack@.subrange(0, base.len() as int) =~= base);
                        assert(g@[j as int].parent == Some(i_node as u32));
                        assert(is_playing_child(g@, i_node as int, j as int));
                        // The fresh child cannot be pending or finished: its
                        // parent was just popped, so it is in neither set.
                        if seen.contains(j as int) {
                            assert(seen.contains(i_node as int));
                            assert(false);
                        }
                        assert forall|ee: int| 0 <= ee < base.len() implies (
                        #[trigger] base[ee]).node != j as u32 by {
                            assert(base[ee] == st0[ee]);
                            if base[ee].node == j as u32 {
                                assert(g@[st0[ee].node as int].parent is Some);
                                assert(seen.contains(
                                    g@[st0[ee].node as int].parent->Some_0 as int,
                                ));
                                assert(seen.contains(i_node as int));
                                assert(false);
                            }
                        }
                        assert(stack@.last() == entry);
                        assert(stack@[stack@.len() - 1].node == j as u32);
                        assert forall|ee: int| 0 <= ee < st1.len() implies stack@[ee] == st1[ee]
                            by {}
                        assert forall|eb: int| 0 <= eb < base.len() implies stack@[eb] == base[eb]
                            by {
                            assert(stack@.subrange(0, base.len() as int)[eb] == base[eb]);
                        }
                        assert forall|eb: int, ee: int|
                            0 <= eb < base.len() && base.len() <= ee
                                < stack@.len() implies stack@[eb].node != stack@[ee].node by {
                            assert(stack@[eb] == base[eb]);
                            if ee < stack@.len() - 1 {
                                assert(stack@[ee] == st1[ee]);
                            } else {
                                assert(stack@[ee] == entry);
                                assert(base[eb].node != j as u32);
                            }
                        }
                        assert forall|k: int| 0 <= k < CHUNK_SIZE implies stack_sum(
                            g@,
                            stack@,
                            k,
                            times@[k] as int,
                        ) == stack_sum(g@, base, k, times@[k] as int) + child_sum_upto(
                            g@,
                            i_node as int,
                            j + 1,
                            e.volume@[k] as int,
                            times@[k] as int,
                        ) by {
                            lemma_stack_sum_push(g@, st1, entry, k, times@[k] as int);
                        }
                    }
                } else {
                    proof {
                        assert forall|k: int| 0 <= k < CHUNK_SIZE implies child_sum_upto(
                            g@,
                            i_node as int,
                            j + 1,
                            e.volume@[k] as int,
                            times@[k] as int,
                        ) == child_sum_upto(
                            g@,
                            i_node as int,
                            j as int,
                            e.volume@[k] as int,
                            times@[k] as int,
                        ) by {
                            assert(!is_playing_child(g@, i_node as int, j as int));
                        }
                    }
                }
                j = j + 1;
            }
            proof {
                let ghost seen0 = seen;
                seen = seen.insert(i_node as int);
                vstd::set_lib::lemma_len_subset(
                    seen,
                    vstd::set_lib::set_int_range(0, n as int),
                );
                assert(e == st0[st0.len() - 1]);
                let ghost stf = stack@;
                let ghost bl = base.len() as int;
                assert forall|kk: int| 0 <= kk < CHUNK_SIZE implies result@[kk] + stack_sum(
                    g@,
                    stack@,
                    kk,
                    times@[kk] as int,
                ) == mix_at(g@, times@[kk] as int) by {
                    assert(res0[kk] + stack_sum(g@, st0, kk, times@[kk] as int) == mix_at(
                        g@,
                        times@[kk] as int,
                    ));
                    assert(stack_sum(g@, st0, kk, times@[kk] as int) == stack_sum(
                        g@,
                        base,
                        kk,
                        times@[kk] as int,
                    ) + subtree_mix(g@, i_node as int, e.volume@[kk] as int, times@[kk] as int));
                }
                assert forall|ee: int| 0 <= ee < stf.len() implies entry_wf(
                    g@,
                    #[trigger] stf[ee],
                ) by {
                    if ee < bl {
                        assert(stf[ee] == base[ee]);
                        assert(base[ee] == st0[ee]);
                        assert(entry_wf(g@, st0[ee]));
                    }
                }
                assert forall|ee: int| 0 <= ee < stf.len() implies !seen.contains(
                    (#[trigger] stf[ee]).node as int,
                ) by {
                    if ee < bl {
                        assert(stf[ee] == base[ee]);
                        assert(stf[ee] == st0[ee]);
                        assert(!seen0.contains(st0[ee].node as int));
                        assert(st0[ee].node != st0[st0.len() - 1].node);
                    } else {
                        assert(i_node < stf[ee].node);
                        assert(!seen0.contains(stf[ee].node as int));
                    }
                }
                assert forall|ee: int|
                    0 <= ee < stf.len() && g@[(#[trigger] stf[ee]).node as int].parent
                        is Some implies seen.contains(
                    g@[stf[ee].node as int].parent->Some_0 as int,
                ) by {
                    if ee < bl {
                        assert(stf[ee] == base[ee]);
                        assert(stf[ee] == st0[ee]);
                    } else {
                        assert(g@[stf[ee].node as int].parent == Some(i_node as u32));
                    }
                }
                assert forall|e1: int, e2: int|
                    0 <= e1 < e2 < stf.len() implies stf[e1].node != stf[e2].node by {
                    if e2 < bl {
                        assert(stf[e1] == base[e1] && stf[e2] == base[e2]);
                        assert(stf[e1] == st0[e1] && stf[e2] == st0[e2]);
                    } else if e1 < bl {
                        assert(stf[e1].node != stf[e2].node);
                    } else {
                        assert(stf[e1].node < stf[e2].node);
                    }
                }
                assert forall|k: int| 0 <= k < CHUNK_SIZE implies abs(result@[k] as int) <= 13107
                    * seen.len() by {
                    assert(abs(result@[k] as int) <= 13107 * seen0.len());
                    assert(seen.len() == seen0.len() + 1);
                }
            }
        }
    }
    result
}

/// What one tick did.
#[derive(Clone, Copy, PartialEq, Eq, Structural)]
pub enum PlayOutcome {
    /// The queue reported no room for a frame; nothing was computed or sent.
    NoSpace,
    /// No root is playing; playback was rewound to the epoch so that audio
    /// resuming later starts in phase, and nothing was sent.
    Silence,
    /// One chunk was mixed and handed to the queue.
    Sent,
}

/// One production tick: when the backend reports room and some root plays,
/// mixes the next chunk and hands it to the queue; with no room it leaves the
/// backend untouched (in particular, nothing is sent after a negative space
/// check); with nothing playing it rewinds playback.
pub fn play_everything(g: &NodeGraph, backend: &mut LoopTunesBackend) -> (r: PlayOutcome)
    requires
        g.wf(),
        old(backend).wf(),
    ensures
        final(backend).wf(),
        r is NoSpace ==> *final(backend) == *old(backend),
        !(r is NoSpace) ==> ((r is Silence) <==> !(exists|i: int| is_playing_root(g@, i))),
        r is Silence ==> final(backend).position() == 0 && final(backend).log() == old(
            backend,
        ).log(),
        r is Sent ==> ({
            &&& final(backend).log().len() == old(backend).log().len() + CHUNK_SIZE
            &&& final(backend).log().subrange(0, old(backend).log().len() as int) == old(
                backend,
            ).log()
            &&& forall|k: int|
                0 <= k < CHUNK_SIZE ==> #[trigger] final(backend).log()[old(backend).log().len()
                    + k] == mix_at(g@, old(backend).position() + k)
            &&& final(backend).position() == (old(backend).position() + CHUNK_SIZE) % (
            PERIOD as int)
        }),
{
    if !backend.has_free_space() {
        return PlayOutcome::NoSpace;
    }
    let n = g.len();
    let mut any_root = false;
    let mut i: usize = 0;
    while i < n
        invariant
            i <= n,
            n == g@.len(),
            g.wf(),
            any_root == exists|ii: int| 0 <= ii < i && is_playing_root(g@, ii),
        decreases n - i,
    {
        let nd = g.node(i);
        let is_root = match nd.parent {
            Some(_) => false,
            None => true,
        };
        proof {
            if is_root && nd.playing {
                assert(is_playing_root(g@, i as int));
            } else {
                assert(!is_playing_root(g@, i as int));
            }
        }
        if is_root && nd.playing {
            any_root = true;
        }
        i = i + 1;
    }
    if !any_root {
        backend.reset();
        proof {
            assert forall|ii: int| !is_playing_root(g@, ii) by {
                if 0 <= ii < n {
                }
            }
        }
        return PlayOutcome::Silence;
    }
    let times = backend.time_chunk();
    let chunk = synthesize(g, &times);
    let ghost log0 = backend.log();
    backend.send_buffer(&chunk);
    proof {
        assert(final(backend).log().subrange(0, log0.len() as int) =~= log0);
    }
    PlayOutcome::Sent
}

} // verus!
