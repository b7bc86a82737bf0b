use bubble_level::{on_button_edge, BubbleResolution, Button, EdgeAction, InvalidResolution, DEBOUNCE_TIME};

#[test]
fn codes_round_trip() {
    for &m in &[BubbleResolution::Coarse, BubbleResolution::Fine] {
        assert_eq!(BubbleResolution::try_from(m.code()), Ok(m));
    }
    assert_eq!(BubbleResolution::Coarse.code(), 0);
    assert_eq!(BubbleResolution::Fine.code(), 1);
    assert_eq!(BubbleResolution::Coarse.divisor(), 250);
    assert_eq!(BubbleResolution::Fine.divisor(), 25);
}

#[test]
fn unknown_code_is_an_error() {
    for code in 2..=255u8 {
        assert_eq!(BubbleResolution::try_from(code), Err(InvalidResolution { code }));
    }
}

#[test]
fn ready_timer_accepts_a_press() {
    assert_eq!(
        on_button_edge(0, true, false),
        EdgeAction { start_cooldown: true, clear: Some(Button::A), publish: Some(BubbleResolution::Coarse) }
    );
    assert_eq!(
        on_button_edge(0, false, true),
        EdgeAction { start_cooldown: true, clear: Some(Button::B), publish: Some(BubbleResolution::Fine) }
    );
}

#[test]
fn running_timer_only_clears() {
    for &reading in &[1u32, 50_000, DEBOUNCE_TIME, u32::MAX] {
        assert_eq!(
            on_button_edge(reading, false, true),
            EdgeAction { start_cooldown: false, clear: Some(Button::B), publish: None }
        );
        assert_eq!(
            on_button_edge(reading, true, false),
            EdgeAction { start_cooldown: false, clear: Some(Button::A), publish: None }
        );
    }
}

#[test]
fn button_a_takes_priority() {
    assert_eq!(
        on_button_edge(0, true, true),
        EdgeAction { start_cooldown: true, clear: Some(Button::A), publish: Some(BubbleResolution::Coarse) }
    );
}

#[test]
fn edge_without_a_flag_publishes_nothing() {
    assert_eq!(on_button_edge(0, false, false), EdgeAction { start_cooldown: true, clear: None, publish: None });
    assert_eq!(on_button_edge(7, false, false), EdgeAction { start_cooldown: false, clear: None, publish: None });
}

/// A countdown started at the first accepted edge.
fn reading_after(elapsed: u32) -> u32 {
    DEBOUNCE_TIME.saturating_sub(elapsed)
}

#[test]
fn bounce_inside_cooldown_is_suppressed() {
    let first = on_button_edge(0, false, true);
    assert!(first.start_cooldown);
    assert_eq!(first.publish, Some(BubbleResolution::Fine));
    let second = on_button_edge(reading_after(DEBOUNCE_TIME - 1), false, true);
    assert_eq!(second.publish, None);
    let third = on_button_edge(reading_after(10), false, true);
    assert_eq!(third.publish, None);
}

#[test]
fn presses_after_cooldown_both_count() {
    let first = on_button_edge(0, true, false);
    assert_eq!(first.publish, Some(BubbleResolution::Coarse));
    let second = on_button_edge(reading_after(DEBOUNCE_TIME + 1), true, false);
    assert_eq!(second.publish, Some(BubbleResolution::Coarse));
    assert!(second.start_cooldown);
}

#[test]
fn buttons_select_their_resolution() {
    assert_eq!(Button::A.resolution(), BubbleResolution::Coarse);
    assert_eq!(Button::B.resolution(), BubbleResolution::Fine);
}
