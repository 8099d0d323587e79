use looptunes::synth::wave_index;
use looptunes::Cycle;
use looptunes::CycleNode;
use looptunes::Generator;
use looptunes::LoopTunesBackend;
use looptunes::NodeGraph;
use looptunes::PlayOutcome;
use looptunes::PosBits;
use looptunes::Wave;
use looptunes::play_everything;
use looptunes::synthesize;

const FREQ_A4_SCALED: u128 = 461373440; // 440 Hz * 2^20
const TIME_DENOM: u128 = 48000 * 1048576;

fn triangle_sample(i: usize) -> i64 {
    let d: u64 = if i < 512 { (1024 - 2 * i) as u64 } else { (2 * i - 1024) as u64 };
    (d * 65535 / 1024) as i64
}

fn expected_index(p: u32, f: u128, phase_scaled: u128) -> usize {
    let num = p as u128 * f;
    let off = phase_scaled * 48000;
    if num < off {
        0
    } else {
        (((num - off) % TIME_DENOM) * 1024 / TIME_DENOM) as usize
    }
}

/// A lone triangle root at 440 Hz: sample `i` of the first chunk is the
/// table entry at `floor(1024 * fract(440 * i / 48000))`, bias removed and
/// scaled by the base gain.
#[test]
fn single_triangle_root_chunk() {
    let mut g = NodeGraph::new();
    g.push_node(CycleNode {
        cycle: Cycle { frequency: 82, phase: 0, ..Default::default() },
        wave: Wave::new(Generator::Triangle),
        playing: true,
        parent: None,
        position: PosBits { x: 0, y: 0 },
    });
    let times: Vec<u32> = (0..2048).collect();
    let chunk = synthesize(&g, &times);
    assert_eq!(chunk.len(), 1024);
    assert_eq!(chunk[0], 6553);
    assert_eq!(chunk[1], 6323);
    assert_eq!(chunk[100], 4352);
    assert_eq!(chunk[1023], -3328);
    let avg: i64 = 32767;
    for i in 0..1024 {
        let idx = expected_index(i as u32, FREQ_A4_SCALED, 0);
        let d = triangle_sample(idx) - avg;
        let expected = if d >= 0 { d * 13107 / 65535 } else { -((-d) * 13107 / 65535) };
        assert_eq!(chunk[i], expected);
    }
}

/// A parent's waveform, sampled at the child's phase offset, shapes the
/// volume envelope of the child; only the child (the sole leaf) emits.
#[test]
fn parent_shapes_child_envelope() {
    let mut g = NodeGraph::new();
    g.push_node(CycleNode {
        cycle: Cycle { frequency: 16, phase: 0, ..Default::default() }, // 1 Hz
        wave: Wave::new(Generator::Sawtooth),
        playing: true,
        parent: None,
        position: PosBits { x: 0, y: 0 },
    });
    let child_phase: u32 = 262144; // a quarter cycle, 0.25 * 2^20
    g.push_node(CycleNode {
        cycle: Cycle { frequency: 82, phase: child_phase, ..Default::default() },
        wave: Wave::new(Generator::Square),
        playing: true,
        parent: Some(0),
        position: PosBits { x: 0, y: 0 },
    });
    let times: Vec<u32> = (0..2048).collect();
    let chunk = synthesize(&g, &times);
    let freq_1hz: u128 = 1048576;
    let square = |i: usize| -> i64 { if i < 512 { 65535 } else { 0 } };
    let saw = |i: usize| -> i64 { ((1024 - i) as u64 * 65535 / 1024) as i64 };
    for i in 0..1024 {
        // Parent sample at the child's phase offset scales the base gain;
        // the offset exceeds the elapsed phase this early in the stream, so
        // the parent reads its first entry.
        let pidx = expected_index(i as u32, freq_1hz, child_phase as u128);
        assert_eq!(pidx, 0);
        let vol = saw(pidx) * 13107 / 65535;
        let cidx = expected_index(i as u32, FREQ_A4_SCALED, 0);
        let d = square(cidx) - 32767;
        let expected = if d >= 0 { d * vol / 65535 } else { -((-d) * vol / 65535) };
        assert_eq!(chunk[i], expected);
    }
}

/// A node whose only child is not playing counts as a leaf and emits itself.
#[test]
fn non_playing_child_leaves_parent_a_leaf() {
    let mut g = NodeGraph::new();
    g.push_node(CycleNode {
        cycle: Cycle { frequency: 82, phase: 0, ..Default::default() },
        wave: Wave::new(Generator::Triangle),
        playing: true,
        parent: None,
        position: PosBits { x: 0, y: 0 },
    });
    g.push_node(CycleNode {
        cycle: Cycle { frequency: 82, phase: 0, ..Default::default() },
        wave: Wave::new(Generator::Square),
        playing: false,
        parent: Some(0),
        position: PosBits { x: 0, y: 0 },
    });
    let times: Vec<u32> = (0..2048).collect();
    let with_silent_child = synthesize(&g, &times);

    let mut lone = NodeGraph::new();
    lone.push_node(CycleNode {
        cycle: Cycle { frequency: 82, phase: 0, ..Default::default() },
        wave: Wave::new(Generator::Triangle),
        playing: true,
        parent: None,
        position: PosBits { x: 0, y: 0 },
    });
    let alone = synthesize(&lone, &times);
    assert_eq!(with_silent_child, alone);
}

#[test]
fn wave_index_saturates_before_phase_offset() {
    // Until the elapsed phase reaches the offset, the lookup stays at 0.
    assert_eq!(wave_index(0, 1048576, 1000), 0);
    assert_eq!(wave_index(0, 461373440, 0), 0);
    // One second into a 1 Hz cycle is exactly the table start again.
    assert_eq!(wave_index(48000, 1048576, 0), 0);
    // Half a second into a 1 Hz cycle is the table's midpoint.
    assert_eq!(wave_index(24000, 1048576, 0), 512);
}

/// Two playing roots mix additively.
#[test]
fn two_roots_mix_additively() {
    let times: Vec<u32> = (0..2048).collect();
    let mut both = NodeGraph::new();
    for freq in [82u32, 70u32] {
        both.push_node(CycleNode {
            cycle: Cycle { frequency: freq, phase: 0, ..Default::default() },
            wave: Wave::new(Generator::Sawtooth),
            playing: true,
            parent: None,
            position: PosBits { x: 0, y: 0 },
        });
    }
    let mixed = synthesize(&both, &times);
    let mut first = NodeGraph::new();
    first.push_node(CycleNode {
        cycle: Cycle { frequency: 82, phase: 0, ..Default::default() },
        wave: Wave::new(Generator::Sawtooth),
        playing: true,
        parent: None,
        position: PosBits { x: 0, y: 0 },
    });
    let a = synthesize(&first, &times);
    let mut second = NodeGraph::new();
    second.push_node(CycleNode {
        cycle: Cycle { frequency: 70, phase: 0, ..Default::default() },
        wave: Wave::new(Generator::Sawtooth),
        playing: true,
        parent: None,
        position: PosBits { x: 0, y: 0 },
    });
    let b = synthesize(&second, &times);
    for i in 0..1024 {
        assert_eq!(mixed[i], a[i] + b[i]);
    }
}

/// A full tick hands the mixed chunk to the consumer in order.
#[test]
fn tick_delivers_chunk_to_consumer() {
    let (mut backend, mut source) = LoopTunesBackend::new();
    let mut g = NodeGraph::new();
    g.push_node(CycleNode {
        cycle: Cycle { frequency: 82, phase: 0, ..Default::default() },
        wave: Wave::new(Generator::Triangle),
        playing: true,
        parent: None,
        position: PosBits { x: 0, y: 0 },
    });
    let times: Vec<u32> = (0..2048).collect();
    let expected = synthesize(&g, &times);
    let outcome = play_everything(&g, &mut backend);
    assert!(matches!(outcome, PlayOutcome::Sent));
    assert_eq!(backend.elapsed_seconds(), (1024, 48000));
    for i in 0..1024 {
        assert_eq!(source.next_sample(), (expected[i], true));
    }
}

#[test]
fn has_parent_walks_ancestor_chain() {
    let mut g = NodeGraph::new();
    for parent in [None, Some(0u32), Some(1u32), None] {
        g.push_node(CycleNode {
            cycle: Cycle::default(),
            wave: Wave::new(Generator::Square),
            playing: false,
            parent,
            position: PosBits { x: 0, y: 0 },
        });
    }
    assert!(g.has_parent(2, 0));
    assert!(g.has_parent(2, 1));
    assert!(g.has_parent(2, 2));
    assert!(!g.has_parent(0, 2));
    assert!(!g.has_parent(3, 0));
    assert!(!g.has_parent(2, 3));
}

/// A three-level chain: the root shapes the child's envelope, the child (in
/// turn an envelope node) shapes the grandchild's, and only the grandchild
/// emits.
#[test]
fn grandchild_inherits_both_envelopes() {
    let mut g = NodeGraph::new();
    g.push_node(CycleNode {
        cycle: Cycle { frequency: 16, phase: 0, ..Default::default() }, // 1 Hz
        wave: Wave::new(Generator::Sawtooth),
        playing: true,
        parent: None,
        position: PosBits { x: 0, y: 0 },
    });
    g.push_node(CycleNode {
        cycle: Cycle { frequency: 24, phase: 0, ..Default::default() }, // 16 Hz
        wave: Wave::new(Generator::Square),
        playing: true,
        parent: Some(0),
        position: PosBits { x: 0, y: 0 },
    });
    g.push_node(CycleNode {
        cycle: Cycle { frequency: 82, phase: 0, ..Default::default() }, // 440 Hz
        wave: Wave::new(Generator::Triangle),
        playing: true,
        parent: Some(1),
        position: PosBits { x: 0, y: 0 },
    });
    let times: Vec<u32> = (0..2048).collect();
    let chunk = synthesize(&g, &times);
    let freq_1hz: u128 = 1048576;
    let freq_16hz: u128 = 16 * 1048576;
    let square = |i: usize| -> i64 { if i < 512 { 65535 } else { 0 } };
    let saw = |i: usize| -> i64 { ((1024 - i) as u64 * 65535 / 1024) as i64 };
    for i in 0..1024 {
        let vol_child = saw(expected_index(i as u32, freq_1hz, 0)) * 13107 / 65535;
        let vol_grandchild =
            square(expected_index(i as u32, freq_16hz, 0)) * vol_child / 65535;
        let d = triangle_sample(expected_index(i as u32, FREQ_A4_SCALED, 0)) - 32767;
        let expected =
            if d >= 0 { d * vol_grandchild / 65535 } else { -((-d) * vol_grandchild / 65535) };
        assert_eq!(chunk[i], expected);
    }
}
