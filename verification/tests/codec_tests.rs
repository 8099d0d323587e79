use looptunes::codec::flatten;
use looptunes::ColorBits;
use looptunes::copy_tree;
use looptunes::Cycle;
use looptunes::CycleNode;
use looptunes::Generator;
use looptunes::NodeGraph;
use looptunes::paste_tree;
use looptunes::PosBits;
use looptunes::Wave;

fn node(freq: u32, phase: u32, color: u32, wave: Wave, playing: bool, parent: Option<u32>, x: u32, y: u32) -> CycleNode {
    CycleNode {
        cycle: Cycle {
            frequency: freq,
            phase,
            color: ColorBits { r: color, g: color, b: color, a: color },
        },
        wave,
        playing,
        parent,
        position: PosBits { x, y },
    }
}

fn drawn_wave(a: usize, va: i32, b: usize, vb: i32) -> Wave {
    let mut w = Wave::new(Generator::Triangle);
    w.draw(a, va, b, vb);
    w
}

/// Copying a three-node chain and pasting it yields three fresh nodes whose
/// parent chain, parameters and wave tables match the copied tree exactly.
#[test]
fn copy_paste_three_node_chain() {
    let mut g = NodeGraph::new();
    g.push_node(node(82, 0, 11, drawn_wave(5, 1000, 90, 60000), true, None, 100, 200));
    g.push_node(node(40, 524288, 22, drawn_wave(700, 30000, 800, 2), true, Some(0), 300, 400));
    g.push_node(node(16, 262144, 33, drawn_wave(1020, 5, 30, 65000), false, Some(1), 500, 600));
    let text = copy_tree(&g, 0);
    assert!(!text.is_empty());
    let insertion = PosBits { x: 77, y: 88 };
    let pasted = paste_tree(&text, insertion).expect("pasting a fresh copy succeeds");
    assert_eq!(pasted.len(), 3);
    // Parent chain: root, child of root, grandchild.
    assert_eq!(pasted.node(0).parent, None);
    assert_eq!(pasted.node(1).parent, Some(0));
    assert_eq!(pasted.node(2).parent, Some(1));
    // Parameters carried over exactly; the root sits at the insertion point.
    for k in 0..3 {
        assert_eq!(pasted.node(k).cycle, g.node(k).cycle);
        assert!(!pasted.node(k).playing);
        for i in 0..1024 {
            assert_eq!(pasted.node(k).wave.sample(i), g.node(k).wave.sample(i));
        }
    }
    assert_eq!(pasted.node(0).position, insertion);
    assert_eq!(pasted.node(1).position, g.node(1).position);
    assert_eq!(pasted.node(2).position, g.node(2).position);
}

/// Copy takes the subtree of the given root only.
#[test]
fn copy_takes_only_the_subtree() {
    let mut g = NodeGraph::new();
    g.push_node(node(82, 0, 1, Wave::new(Generator::Square), true, None, 0, 0));
    g.push_node(node(40, 100, 2, Wave::new(Generator::Sawtooth), true, Some(0), 0, 0));
    g.push_node(node(41, 200, 3, Wave::new(Generator::Triangle), true, Some(1), 0, 0));
    // A second, unrelated root.
    g.push_node(node(50, 300, 4, Wave::new(Generator::Square), true, None, 0, 0));
    let text = copy_tree(&g, 1);
    let pasted = paste_tree(&text, PosBits { x: 0, y: 0 }).unwrap();
    assert_eq!(pasted.len(), 2);
    assert_eq!(pasted.node(0).cycle.frequency, 40);
    assert_eq!(pasted.node(1).cycle.frequency, 41);
    assert_eq!(pasted.node(1).parent, Some(0));
}

/// Byte-equal wave tables collapse to one deduplicated entry; distinct ones
/// stay separate.
#[test]
fn snapshot_deduplicates_equal_waves() {
    let mut g = NodeGraph::new();
    g.push_node(node(82, 0, 1, Wave::new(Generator::Square), true, None, 0, 0));
    g.push_node(node(40, 0, 2, Wave::new(Generator::Square), true, Some(0), 0, 0));
    g.push_node(node(41, 0, 3, Wave::new(Generator::Triangle), true, Some(0), 0, 0));
    let (snap, order) = flatten(&g, 0);
    assert_eq!(order, vec![0, 1, 2]);
    assert_eq!(snap.nodes.len(), 3);
    assert_eq!(snap.waves.len(), 2);
    assert_eq!(snap.nodes[0].wave, snap.nodes[1].wave);
    assert_ne!(snap.nodes[0].wave, snap.nodes[2].wave);
}

/// The clipboard text is plain URL-safe base64 and is genuinely compressed.
#[test]
fn clipboard_text_is_compact_base64() {
    let mut g = NodeGraph::new();
    let zero = Wave::from_samples(vec![0u16; 1024]);
    g.push_node(node(82, 0, 1, zero, true, None, 0, 0));
    for k in 1..30u32 {
        g.push_node(node(
            82,
            0,
            1,
            Wave::from_samples(vec![0u16; 1024]),
            true,
            Some(k - 1),
            0,
            0,
        ));
    }
    let text = copy_tree(&g, 0);
    assert!(!text.is_empty());
    for c in text.chars() {
        assert!(c.is_ascii_alphanumeric() || c == '-' || c == '_');
    }
    // The raw image is 8 header bytes, 30 records and one wave table; the
    // repetitive content must compress well below that.
    let raw = 8 + 40 * 30 + 2048;
    assert!(text.len() < raw);
}

/// Any text that is not exactly a copied snapshot is rejected.
#[test]
fn paste_rejects_malformed_text() {
    let at = PosBits { x: 0, y: 0 };
    assert!(paste_tree("", at).is_none());
    assert!(paste_tree("not base64 at all!", at).is_none());
    // Valid base64, but not a zstd frame.
    assert!(paste_tree("AAAAAAAA", at).is_none());
    // A truncated copy no longer decodes.
    let mut g = NodeGraph::new();
    g.push_node(node(82, 0, 1, Wave::new(Generator::Square), true, None, 0, 0));
    let text = copy_tree(&g, 0);
    let truncated: String = text.chars().take(text.len() - 2).collect();
    assert!(paste_tree(&truncated, at).is_none());
}

/// Copy then paste round-trips a single node bit for bit.
#[test]
fn copy_paste_single_node() {
    let mut g = NodeGraph::new();
    g.push_node(node(0, 1048575, 0xDEADBEEF, drawn_wave(0, 7, 512, 60001), true, None, 9, 9));
    let text = copy_tree(&g, 0);
    let pasted = paste_tree(&text, PosBits { x: 1, y: 2 }).unwrap();
    assert_eq!(pasted.len(), 1);
    assert_eq!(pasted.node(0).cycle, g.node(0).cycle);
    assert_eq!(pasted.node(0).position, PosBits { x: 1, y: 2 });
    for i in 0..1024 {
        assert_eq!(pasted.node(0).wave.sample(i), g.node(0).wave.sample(i));
    }
}
