use emilydotgg_random::voice::{Voice, Voices};

#[test]
fn voices_keep_their_tag() {
    assert_eq!(Voice::new(17).tag(), 17);
}

#[test]
fn triggered_voices_sound_until_released() {
    let mut voices: Voices<Voice> = Voices::new();
    assert!(!voices.sounds(3));
    assert_eq!(voices.trigger(3, Voice::new(3)).tag(), 3);
    assert_eq!(voices.trigger(4, Voice::new(4)).tag(), 4);
    assert!(voices.sounds(3));
    voices.release(3);
    assert!(!voices.sounds(3));
    assert!(voices.sounds(4));
    voices.kill(4);
    assert!(!voices.sounds(4));
    voices.kill(4);
    voices.release(5);
    assert!(!voices.sounds(5));
}

#[test]
fn triggering_again_replaces_the_voice() {
    let mut voices: Voices<u8> = Voices::new();
    *voices.trigger(-1, 1) = 9;
    assert_eq!(*voices.trigger(-1, 2), 2);
    voices.release(-1);
    assert!(!voices.sounds(-1));
}

#[test]
fn voices_are_found_under_their_tags() {
    let mut voices: Voices<Voice> = Voices::new();
    for tag in [7, -7, 7, 0] {
        assert_eq!(voices.trigger(tag, Voice::new(tag)).tag(), tag);
    }
    voices.kill(0);
    assert!(voices.sounds(7) && voices.sounds(-7) && !voices.sounds(0));
}
