use button_melody::device::Device;
use button_melody::device::TickOutput;
use button_melody::playback::Command;
use button_melody::playback::ToneAction;

fn melody() -> Vec<Command> {
    vec![
        Command::BeginNote { pitch: 440 },
        Command::Wait,
        Command::Wait,
        Command::EndNote,
    ]
}

fn quiet() -> TickOutput {
    TickOutput { indicator_set: None, mute_set: None, tone: None }
}

#[test]
fn press_while_off_toggles_unmutes_then_plays_in_one_tick() {
    let mut d = Device::new(melody());
    for _ in 0..29 {
        assert_eq!(d.tick(false), quiet());
    }
    let out = d.tick(false);
    assert_eq!(out.indicator_set, Some(true), "output toggled on first");
    assert_eq!(out.mute_set, Some(false), "then the tone is unmuted");
    assert_eq!(
        out.tone,
        Some(ToneAction::Play(440)),
        "and playback resumes on the same tick"
    );
    assert!(d.indicator_on);
}

#[test]
fn armed_device_repeats_the_tone_pattern_every_cycle() {
    let mut d = Device::new(melody());
    for _ in 0..30 {
        d.tick(false);
    }
    // indicator is on; the press tick already consumed the BeginNote
    let expected = [
        None,
        None,
        Some(ToneAction::Silence),
        Some(ToneAction::Play(440)),
    ];
    for i in 0..8 {
        let out = d.tick(false);
        assert_eq!(out.indicator_set, None);
        assert_eq!(out.mute_set, None);
        assert_eq!(out.tone, expected[i % 4], "tick {i} out of pattern");
    }
}

#[test]
fn disarmed_device_stays_silent_for_a_thousand_ticks() {
    let mut d = Device::new(melody());
    for _ in 0..1000 {
        assert_eq!(d.tick(true), quiet());
    }
    assert!(!d.indicator_on);
    assert_eq!(d.player.source.position, 0);
}

#[test]
fn thousand_deasserted_ticks_toggle_exactly_once() {
    let mut d = Device::new(melody());
    let mut toggles_on = 0u32;
    let mut toggles_off = 0u32;
    let mut on_tick = 0usize;
    for t in 1..=1000 {
        let out = d.tick(false);
        match out.indicator_set {
            Some(true) => {
                toggles_on += 1;
                on_tick = t;
            }
            Some(false) => toggles_off += 1,
            None => {}
        }
    }
    assert_eq!(toggles_on, 1);
    assert_eq!(on_tick, 30);
    assert_eq!(toggles_off, 0);
}

#[test]
fn second_press_mutes_at_once_and_pauses_in_place() {
    let mut d = Device::new(melody());
    // first press: on
    for _ in 0..30 {
        d.tick(false);
    }
    // release the button again
    for _ in 0..30 {
        d.tick(true);
    }
    // second press: off (the 29 run-up ticks still pull, being armed)
    for _ in 0..29 {
        d.tick(false);
    }
    let pos_before = d.player.source.position;
    let out = d.tick(false);
    assert_eq!(out.indicator_set, Some(false));
    assert_eq!(out.mute_set, Some(true));
    assert_eq!(out.tone, None, "no command is pulled on the muting tick");
    assert!(!d.indicator_on);
    assert_eq!(
        d.player.source.position, pos_before,
        "pausing must not move the cycle"
    );
    // silent while off
    for _ in 0..100 {
        assert_eq!(d.tick(false), quiet());
    }
    assert_eq!(d.player.source.position, pos_before);
}

#[test]
fn release_event_alone_changes_nothing() {
    let mut d = Device::new(melody());
    for _ in 0..30 {
        d.tick(false);
    }
    // raw input returns to the asserted level: a Released fires at the
    // 30th matching tick, but the indicator and playback keep going
    let mut saw_change = false;
    for _ in 0..60 {
        let out = d.tick(true);
        if out.indicator_set.is_some() || out.mute_set.is_some() {
            saw_change = true;
        }
    }
    assert!(!saw_change);
    assert!(d.indicator_on);
}
