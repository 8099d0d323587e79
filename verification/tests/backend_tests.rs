use looptunes::backend::decay_sample;
use looptunes::backend::PERIOD;
use looptunes::backend::SAMPLE_RATE;
use looptunes::Generator;
use looptunes::LoopTunesBackend;
use looptunes::CycleNode;
use looptunes::Cycle;
use looptunes::NodeGraph;
use looptunes::PlayOutcome;
use looptunes::PosBits;
use looptunes::Wave;
use looptunes::play_everything;

fn playing_root_graph() -> NodeGraph {
    let mut g = NodeGraph::new();
    g.push_node(CycleNode {
        cycle: Cycle { frequency: 82, phase: 0, ..Default::default() },
        wave: Wave::new(Generator::Triangle),
        playing: true,
        parent: None,
        position: PosBits { x: 0, y: 0 },
    });
    g
}

#[test]
fn elapsed_seconds_advances_by_chunk_length() {
    let (mut backend, _source) = LoopTunesBackend::new();
    assert_eq!(backend.elapsed_seconds(), (0, 48000));
    let chunk: Vec<i64> = vec![0i64; 1024];
    backend.send_buffer(&chunk);
    assert_eq!(backend.elapsed_seconds(), (1024, 48000));
    backend.send_buffer(&chunk);
    assert_eq!(backend.elapsed_seconds(), (2048, 48000));
    backend.reset();
    assert_eq!(backend.elapsed_seconds(), (0, 48000));
}

#[test]
fn position_wraps_at_period_without_drift() {
    let (mut backend, _source) = LoopTunesBackend::new();
    let chunk: Vec<i64> = vec![0i64; 1024];
    // PERIOD is an exact multiple of the chunk size, so the position comes
    // back to zero exactly at the modulus and repeats the pattern.
    assert_eq!(PERIOD % 1024, 0);
    let sends = PERIOD / 1024;
    for _ in 0..sends - 1 {
        backend.send_buffer(&chunk);
    }
    assert_eq!(backend.elapsed_seconds(), (PERIOD - 1024, SAMPLE_RATE));
    backend.send_buffer(&chunk);
    assert_eq!(backend.elapsed_seconds(), (0, SAMPLE_RATE));
    backend.send_buffer(&chunk);
    assert_eq!(backend.elapsed_seconds(), (1024, SAMPLE_RATE));
}

#[test]
fn no_space_prevents_sending() {
    let (mut backend, _source) = LoopTunesBackend::new();
    // Nobody drains the queue, so four chunks fill it completely.
    let chunk: Vec<i64> = vec![7i64; 1024];
    assert!(backend.has_free_space());
    for _ in 0..4 {
        backend.send_buffer(&chunk);
    }
    assert!(!backend.has_free_space());
    let g = playing_root_graph();
    let before = backend.elapsed_seconds();
    let outcome = play_everything(&g, &mut backend);
    assert!(matches!(outcome, PlayOutcome::NoSpace));
    assert_eq!(backend.elapsed_seconds(), before);
}

#[test]
fn silence_resets_playback_position() {
    let (mut backend, _source) = LoopTunesBackend::new();
    let chunk: Vec<i64> = vec![0i64; 1024];
    backend.send_buffer(&chunk);
    // A graph whose only node is not playing has no playing root.
    let mut g = NodeGraph::new();
    g.push_node(CycleNode {
        cycle: Cycle::default(),
        wave: Wave::new(Generator::Square),
        playing: false,
        parent: None,
        position: PosBits { x: 0, y: 0 },
    });
    let outcome = play_everything(&g, &mut backend);
    assert!(matches!(outcome, PlayOutcome::Silence));
    assert_eq!(backend.elapsed_seconds(), (0, 48000));
}

#[test]
fn underrun_decays_last_sample_exactly() {
    let (mut backend, mut source) = LoopTunesBackend::new();
    let chunk: Vec<i64> = vec![1000000i64];
    backend.send_buffer(&chunk);
    let (first, live) = source.next_sample();
    assert!(live);
    assert_eq!(first, 1000000);
    // Five consecutive empty reads: each output is the previous one scaled
    // by 99/100, rounded towards zero, monotonically approaching silence.
    let expected = [990000i64, 980100, 970299, 960596, 950990];
    for &e in expected.iter() {
        let (v, live) = source.next_sample();
        assert!(!live);
        assert_eq!(v, e);
    }
}

#[test]
fn underrun_decay_keeps_sign_for_negative_samples() {
    let (mut backend, mut source) = LoopTunesBackend::new();
    backend.send_buffer(&vec![-12345i64]);
    assert_eq!(source.next_sample(), (-12345, true));
    let expected = [-12221i64, -12098, -11977, -11857];
    for &e in expected.iter() {
        assert_eq!(source.next_sample(), (e, false));
    }
}

#[test]
fn decay_step_formula() {
    assert_eq!(decay_sample(100), 99);
    assert_eq!(decay_sample(99), 98);
    assert_eq!(decay_sample(1), 0);
    assert_eq!(decay_sample(0), 0);
    assert_eq!(decay_sample(-1), 0);
    assert_eq!(decay_sample(-100), -99);
    assert_eq!(decay_sample(i64::MAX), i64::MAX / 100 * 99 + (i64::MAX % 100) * 99 / 100);
    assert_eq!(decay_sample(i64::MIN + 1), -decay_sample(i64::MAX));
}

#[test]
fn time_chunk_counts_sample_positions() {
    let (mut backend, _source) = LoopTunesBackend::new();
    backend.send_buffer(&vec![0i64; 1024]);
    let times = backend.time_chunk();
    assert_eq!(times.len(), 2048);
    for (i, &t) in times.iter().enumerate() {
        assert_eq!(t, 1024 + i as u32);
    }
}
