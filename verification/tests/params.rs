use synth_core::params::{Parameter, Parameters};
use synth_core::UNIT;

#[test]
fn defaults_are_in_range_and_dirty() {
    let p = Parameters::default();
    assert_eq!(p.modulation, UNIT);
    assert_eq!(p.pan, UNIT / 2);
    assert_eq!(p.frequency, 0);
    assert!(p.dirty);
}

// A written value is observed by the very next read, clamped into range.
#[test]
fn set_then_get_observes_clamped_value() {
    let mut p = Parameters::default();
    p.set_parameter(0, 123_456);
    assert_eq!(p.get_parameter(0), 123_456);
    p.set_parameter(0, UNIT + 999);
    assert_eq!(p.get_parameter(0), UNIT);
    p.set_parameter(3, 440_000);
    assert_eq!(p.get_parameter(3), 440_000);
}

#[test]
fn pan_write_raises_dirty_flag() {
    let mut p = Parameters::default();
    assert!(p.take_dirty());
    assert!(!p.take_dirty());
    p.set_parameter(1, 700_000);
    assert_eq!(p.get_parameter(1), 700_000);
    assert!(p.take_dirty());
    // A modulation write does not request a rebuild.
    p.set_parameter(0, 1);
    assert!(!p.take_dirty());
}

#[test]
fn unknown_index_reads_zero_and_writes_nothing() {
    let mut p = Parameters::default();
    assert_eq!(p.get_parameter(17), 0);
    assert_eq!(p.get_parameter(-1), 0);
    // The reserved dirty slot is not addressable either.
    assert_eq!(p.get_parameter(2), 0);
    p.set_parameter(17, 5);
    p.set_parameter(2, 5);
    assert_eq!(p.modulation, UNIT);
    assert_eq!(p.pan, UNIT / 2);
}

#[test]
fn parameter_names() {
    assert_eq!(Parameter::name_of(0), "Modulation");
    assert_eq!(Parameter::name_of(1), "Pan");
    assert_eq!(Parameter::name_of(2), "Dirty");
    assert_eq!(Parameter::name_of(3), "Frequency");
    assert_eq!(Parameter::name_of(4), "unknown");
}

#[test]
fn parameter_index_round_trip() {
    for i in 0..4 {
        let p = Parameter::from_i32(i).unwrap();
        assert_eq!(p.index(), i);
    }
    assert!(Parameter::from_i32(4).is_none());
}
