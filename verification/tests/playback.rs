use button_melody::playback::Command;
use button_melody::playback::CommandSource;
use button_melody::playback::Sequencer;
use button_melody::playback::ToneAction;

fn melody() -> Vec<Command> {
    vec![
        Command::BeginNote { pitch: 440 },
        Command::Wait,
        Command::Wait,
        Command::EndNote,
    ]
}

#[test]
fn source_cycles_without_discontinuity() {
    let mut s = CommandSource::new(melody());
    let mut pulled = Vec::new();
    for _ in 0..12 {
        pulled.push(s.next());
    }
    let one_cycle = melody();
    for (i, c) in pulled.iter().enumerate() {
        assert_eq!(*c, one_cycle[i % 4], "pull {i} off-cycle");
    }
}

#[test]
fn single_command_cycle_wraps_on_every_pull() {
    let mut s = CommandSource::new(vec![Command::BeginNote { pitch: 330 }]);
    for _ in 0..5 {
        assert_eq!(s.next(), Command::BeginNote { pitch: 330 });
        assert_eq!(s.position, 0);
    }
}

#[test]
fn sequencer_starts_disarmed_at_cycle_head() {
    let s = Sequencer::new(melody());
    assert!(!s.armed);
    assert_eq!(s.source.position, 0);
}

#[test]
fn armed_sequencer_repeats_actions_with_period_of_cycle() {
    let mut s = Sequencer::new(melody());
    s.arm();
    let mut actions = Vec::new();
    for _ in 0..8 {
        actions.push(s.advance());
    }
    let expected = vec![
        Some(ToneAction::Play(440)),
        None,
        None,
        Some(ToneAction::Silence),
    ];
    for (i, a) in actions.iter().enumerate() {
        assert_eq!(*a, expected[i % 4], "tick {i} out of pattern");
    }
}

#[test]
fn exactly_one_play_and_one_silence_per_cycle_in_order() {
    let mut s = Sequencer::new(melody());
    s.arm();
    for _ in 0..3 {
        let mut plays = 0u32;
        let mut silences = 0u32;
        for _ in 0..4 {
            match s.advance() {
                Some(ToneAction::Play(p)) => {
                    assert_eq!(p, 440);
                    assert_eq!(silences, 0, "play must come before silence");
                    plays += 1;
                }
                Some(ToneAction::Silence) => {
                    assert_eq!(plays, 1, "silence must follow the play");
                    silences += 1;
                }
                None => {}
            }
        }
        assert_eq!(plays, 1);
        assert_eq!(silences, 1);
    }
}

#[test]
fn disarm_pauses_and_rearm_resumes_in_place() {
    let mut s = Sequencer::new(melody());
    s.arm();
    assert_eq!(s.advance(), Some(ToneAction::Play(440)));
    assert_eq!(s.advance(), None);
    s.disarm();
    assert!(!s.armed);
    assert_eq!(s.source.position, 2, "disarm must not rewind the cycle");
    s.arm();
    assert_eq!(s.advance(), None);
    assert_eq!(s.advance(), Some(ToneAction::Silence));
}
