use looptunes::freq::frequency_name;
use looptunes::freq::frequency_scaled;
use looptunes::freq::DEFAULT_FREQUENCY;
use looptunes::freq::NOTE_A4;
use looptunes::Cycle;

#[test]
fn frequency_table_landmarks() {
    // A4 is 440 Hz: 440 * 2^20 in the fixed-point scale.
    assert_eq!(NOTE_A4, 82);
    assert_eq!(frequency_scaled(NOTE_A4), 461373440);
    assert_eq!(frequency_name(NOTE_A4), "A4");
    // The default is the one-second beat: exactly 1 Hz.
    assert_eq!(DEFAULT_FREQUENCY, 16);
    assert_eq!(frequency_scaled(DEFAULT_FREQUENCY), 1048576);
    assert_eq!(frequency_name(DEFAULT_FREQUENCY), "1s");
    // The slowest entry is one cycle per 256 seconds.
    assert_eq!(frequency_scaled(0), 4096);
    assert_eq!(frequency_name(0), "4m16s");
    // The highest pitch.
    assert_eq!(frequency_scaled(132), 8285986824);
    assert_eq!(frequency_name(132), "B8");
}

#[test]
fn frequency_table_is_increasing() {
    for i in 0..132u32 {
        assert!(frequency_scaled(i) < frequency_scaled(i + 1));
    }
}

#[test]
fn change_frequency_clamps_to_table() {
    let mut c = Cycle::default();
    assert_eq!(c.frequency, 16);
    c.change_frequency(3);
    assert_eq!(c.frequency, 19);
    c.change_frequency(-100);
    assert_eq!(c.frequency, 0);
    c.change_frequency(-1);
    assert_eq!(c.frequency, 0);
    c.change_frequency(1000);
    assert_eq!(c.frequency, 132);
    c.change_frequency(1);
    assert_eq!(c.frequency, 132);
}

#[test]
fn cycle_accessors() {
    let mut c = Cycle::default();
    c.frequency = 82;
    c.phase = 12345;
    assert_eq!(c.frequency(), 461373440);
    assert_eq!(c.frequency_name(), "A4");
    assert_eq!(c.phase_in_parent(), 12345);
}
