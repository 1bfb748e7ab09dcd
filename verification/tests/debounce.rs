use button_melody::button::ButtonEvent;
use button_melody::button::ButtonManager;
use button_melody::button::ButtonState;
use button_melody::button::DEBOUNCE_THRESHOLD;

#[test]
fn starts_confirmed_asserted_with_clear_count() {
    let b = ButtonManager::new();
    assert_eq!(b.state, ButtonState::Asserted(0));
}

#[test]
fn press_fires_exactly_at_threshold() {
    let mut b = ButtonManager::new();
    for i in 0..30 {
        let ev = b.poll(false);
        if i < 29 {
            assert_eq!(ev, ButtonEvent::Nothing, "tick {i} fired early");
        } else {
            assert_eq!(ev, ButtonEvent::Pressed, "tick {i} must fire");
        }
    }
    assert_eq!(b.state, ButtonState::Deasserted(0));
}

#[test]
fn twenty_nine_contrary_then_match_never_fires() {
    let mut b = ButtonManager::new();
    for _ in 0..29 {
        assert_eq!(b.poll(false), ButtonEvent::Nothing);
    }
    assert_eq!(b.poll(true), ButtonEvent::Nothing);
    assert_eq!(b.state, ButtonState::Asserted(0));
}

#[test]
fn matching_level_resets_the_contrary_run() {
    let mut b = ButtonManager::new();
    // short bounce bursts, each under the threshold, never fire
    for _ in 0..50 {
        for _ in 0..20 {
            assert_eq!(b.poll(false), ButtonEvent::Nothing);
        }
        assert_eq!(b.poll(true), ButtonEvent::Nothing);
    }
    assert_eq!(b.state, ButtonState::Asserted(0));
}

#[test]
fn bounce_right_before_threshold_restarts_the_window() {
    let mut b = ButtonManager::new();
    for _ in 0..29 {
        assert_eq!(b.poll(false), ButtonEvent::Nothing);
    }
    assert_eq!(b.poll(true), ButtonEvent::Nothing);
    for i in 0..30 {
        let ev = b.poll(false);
        if i < 29 {
            assert_eq!(ev, ButtonEvent::Nothing, "window must restart in full");
        } else {
            assert_eq!(ev, ButtonEvent::Pressed);
        }
    }
}

#[test]
fn holding_level_after_press_emits_nothing() {
    let mut b = ButtonManager::new();
    for _ in 0..30 {
        b.poll(false);
    }
    assert_eq!(b.state, ButtonState::Deasserted(0));
    for _ in 0..1000 {
        assert_eq!(b.poll(false), ButtonEvent::Nothing);
        assert_eq!(b.state, ButtonState::Deasserted(0));
    }
}

#[test]
fn release_fires_after_opposite_run() {
    let mut b = ButtonManager::new();
    for _ in 0..30 {
        b.poll(false);
    }
    for i in 0..30 {
        let ev = b.poll(true);
        if i < 29 {
            assert_eq!(ev, ButtonEvent::Nothing);
        } else {
            assert_eq!(ev, ButtonEvent::Released);
        }
    }
    assert_eq!(b.state, ButtonState::Asserted(0));
}

#[test]
fn thousand_ticks_held_deasserted_fire_once() {
    let mut b = ButtonManager::new();
    let mut presses = 0u32;
    let mut press_tick = 0usize;
    for t in 1..=1000 {
        if b.poll(false) == ButtonEvent::Pressed {
            presses += 1;
            press_tick = t;
        }
    }
    assert_eq!(presses, 1);
    assert_eq!(press_tick, DEBOUNCE_THRESHOLD as usize);
}
