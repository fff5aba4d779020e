use emilydotgg_random::params::{midi_speed, sets_from_midi, FROM_MIDI, TOP_SPEED, UPDATE_VALUE};

#[test]
fn speeds_agree_with_double_precision_arithmetic() {
    for value in 0..=u16::MAX {
        let speed = value as f64;
        let speed = (speed / 65535.0) * 600.0;
        assert_eq!(midi_speed(value), speed as u64, "{value}");
    }
}

#[test]
fn speeds_at_the_edges() {
    assert_eq!(midi_speed(0), 0);
    assert_eq!(midi_speed(109), 0);
    assert_eq!(midi_speed(110), 1);
    assert_eq!(midi_speed(32768), 300);
    assert_eq!(midi_speed(48058), 439);
    assert_eq!(midi_speed(48059), 439);
    assert_eq!(midi_speed(48060), 440);
    assert_eq!(midi_speed(65534), 599);
    assert_eq!(midi_speed(65535), TOP_SPEED);
}

#[test]
fn both_flags_are_needed() {
    assert!(sets_from_midi(FROM_MIDI | UPDATE_VALUE));
    assert!(sets_from_midi(FROM_MIDI | UPDATE_VALUE | 2 | 4 | 16));
    assert!(sets_from_midi(-1));
    assert!(!sets_from_midi(FROM_MIDI));
    assert!(!sets_from_midi(UPDATE_VALUE));
    assert!(!sets_from_midi(FROM_MIDI | 2 | 4 | 16));
    assert!(!sets_from_midi(0));
}

#[test]
fn flags_are_those_of_the_sdk() {
    assert_eq!(FROM_MIDI, fpsdk::ProcessParamFlags::FROM_MIDI.bits());
    assert_eq!(UPDATE_VALUE, fpsdk::ProcessParamFlags::UPDATE_VALUE.bits());
    assert_eq!(
        emilydotgg_random::params::ALL_FLAGS,
        fpsdk::ProcessParamFlags::all().bits()
    );
}
