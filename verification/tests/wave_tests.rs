use looptunes::Generator;
use looptunes::Wave;

fn expected_triangle(i: usize) -> u16 {
    let d: u64 = if i < 512 { (1024 - 2 * i) as u64 } else { (2 * i - 1024) as u64 };
    (d * 65535 / 1024) as u16
}

fn expected_sawtooth(i: usize) -> u16 {
    ((1024 - i) as u64 * 65535 / 1024) as u16
}

#[test]
fn square_table_has_exact_shape() {
    let w = Wave::new(Generator::Square);
    assert_eq!(w.len(), 1024);
    for i in 0..1024 {
        let expected = if i < 512 { 65535 } else { 0 };
        assert_eq!(w.sample(i), expected);
    }
    assert_eq!(w.average(), 32767);
}

#[test]
fn triangle_table_has_exact_shape() {
    let w = Wave::new(Generator::Triangle);
    assert_eq!(w.len(), 1024);
    for i in 0..1024 {
        assert_eq!(w.sample(i), expected_triangle(i));
    }
    assert_eq!(w.sample(0), 65535);
    assert_eq!(w.sample(256), 32767);
    assert_eq!(w.sample(512), 0);
    assert_eq!(w.sample(1023), 65407);
    assert_eq!(w.average(), 32767);
}

#[test]
fn sawtooth_table_has_exact_shape() {
    let w = Wave::new(Generator::Sawtooth);
    assert_eq!(w.len(), 1024);
    for i in 0..1024 {
        assert_eq!(w.sample(i), expected_sawtooth(i));
    }
    assert_eq!(w.sample(0), 65535);
    assert_eq!(w.sample(512), 32767);
    assert_eq!(w.sample(1023), 63);
    assert_eq!(w.average(), 32799);
}

#[test]
fn noise_table_is_full_length_and_frozen() {
    let w = Wave::new(Generator::Noise);
    assert_eq!(w.len(), 1024);
    // Frozen at creation: reading twice gives the same values.
    for i in 0..1024 {
        assert_eq!(w.sample(i), w.sample(i));
    }
}

#[test]
fn from_samples_keeps_values_and_caches_mean() {
    let mut v: Vec<u16> = Vec::new();
    for i in 0..1024u32 {
        v.push((i % 7) as u16);
    }
    let sum: u64 = v.iter().map(|&x| x as u64).sum();
    let w = Wave::from_samples(v.clone());
    for i in 0..1024 {
        assert_eq!(w.sample(i), v[i]);
    }
    assert_eq!(w.average() as u64, sum / 1024);
}

#[test]
fn draw_follows_shorter_arc_and_clamps() {
    // Stroke from position 1000 (target above full amplitude) to position 20
    // (target below zero): the shorter arc wraps through the end of the
    // table, 45 entries in all, each clamped into range.
    let mut w = Wave::new(Generator::Square);
    w.draw(1000, 70000, 20, -5);
    assert_eq!(w.sample(1000), 65535);
    assert_eq!(w.sample(1010), 54090);
    assert_eq!(w.sample(1023), 33407);
    assert_eq!(w.sample(0), 31816);
    assert_eq!(w.sample(10), 15906);
    assert_eq!(w.sample(20), 0);
    // Entries off the arc keep the square shape.
    for i in 21..1000 {
        let expected = if i < 512 { 65535 } else { 0 };
        assert_eq!(w.sample(i), expected);
    }
}

#[test]
fn draw_single_point_writes_target() {
    let mut w = Wave::new(Generator::Sawtooth);
    w.draw(300, 111, 300, 44444);
    assert_eq!(w.sample(300), 44444);
    for i in 0..1024 {
        if i != 300 {
            assert_eq!(w.sample(i), expected_sawtooth(i));
        }
    }
}

#[test]
fn draw_forward_span_without_wrap() {
    // Indices 100 and 140 are fewer than half a table apart, so the stroke
    // runs directly between them.
    let mut w = Wave::new(Generator::Square);
    w.draw(100, 0, 140, 40000);
    for i in 0..40usize {
        let expected = (40000u64 * i as u64 / 40) as u16;
        assert_eq!(w.sample(100 + i), expected);
    }
    assert_eq!(w.sample(140), 40000);
    assert_eq!(w.sample(99), 65535);
    assert_eq!(w.sample(141), 65535);
    // The mean is recomputed after the stroke.
    let sum: u64 = (0..1024).map(|i| w.sample(i) as u64).sum();
    assert_eq!(w.average() as u64, sum / 1024);
}

#[test]
fn default_wave_is_silent() {
    let w = Wave::default();
    assert_eq!(w.len(), 1024);
    for i in 0..1024 {
        assert_eq!(w.sample(i), 0);
    }
    assert_eq!(w.average(), 0);
}
