use cosmic_time::widget::button;
use cosmic_time::widget::cards::{
    background_count, can_show_more, card_press, draw_plan, layout_plan, CardPress, DrawPart, Router,
    Target,
};
use cosmic_time::widget::cosmic_button;
use cosmic_time::widget::cosmic_toggler;
use cosmic_time::widget::{ButtonEvent, Interaction, Look, Outcome, Status};

const IGNORED: Outcome = Outcome { status: Status::Ignored, publish: false };

#[test]
fn button_click_publishes_once() {
    let mut s = button::State::new();
    let o = button::update(&mut s, ButtonEvent::Press, true, true);
    assert_eq!(o, Outcome { status: Status::Captured, publish: false });
    assert_eq!(button::look(true, true, &s), Look::Pressed);
    let o = button::update(&mut s, ButtonEvent::Release, true, true);
    assert_eq!(o, Outcome { status: Status::Captured, publish: true });
    assert_eq!(button::look(true, true, &s), Look::Hovered);
    // a second release is not a click
    assert_eq!(button::update(&mut s, ButtonEvent::Release, true, true), IGNORED);
}

#[test]
fn button_release_elsewhere_cancels() {
    let mut s = button::State::default();
    let _ = button::update(&mut s, ButtonEvent::Press, true, true);
    let o = button::update(&mut s, ButtonEvent::Release, true, false);
    assert_eq!(o, Outcome { status: Status::Captured, publish: false });
    assert_eq!(s, button::State::new());
}

#[test]
fn button_press_outside_or_disabled_is_ignored() {
    let mut s = button::State::new();
    assert_eq!(button::update(&mut s, ButtonEvent::Press, true, false), IGNORED);
    assert_eq!(button::update(&mut s, ButtonEvent::Press, false, true), IGNORED);
    assert_eq!(s, button::State::new());
    assert_eq!(button::look(false, true, &s), Look::Disabled);
    assert_eq!(button::look(true, false, &s), Look::Active);
}

#[test]
fn button_finger_lost_releases() {
    let mut s = button::State::new();
    let _ = button::update(&mut s, ButtonEvent::Press, true, true);
    assert_eq!(button::update(&mut s, ButtonEvent::FingerLost, true, true), IGNORED);
    assert_eq!(button::update(&mut s, ButtonEvent::Release, true, true), IGNORED);
}

#[test]
fn button_ignores_keys() {
    let mut s = button::State::new();
    assert_eq!(button::update(&mut s, ButtonEvent::KeyPressed { enter: true }, true, true), IGNORED);
    assert_eq!(
        button::update(&mut s, ButtonEvent::A11y { same_id: true, default_action: true }, true, true),
        IGNORED
    );
    assert_eq!(button::update(&mut s, ButtonEvent::Other, true, true), IGNORED);
}

#[test]
fn button_mouse_interaction() {
    assert_eq!(button::mouse_interaction(true, true), Interaction::Pointer);
    assert_eq!(button::mouse_interaction(true, false), Interaction::Idle);
    assert_eq!(button::mouse_interaction(false, true), Interaction::Idle);
    assert_eq!(cosmic_button::mouse_interaction(true, true), Interaction::Pointer);
    assert_eq!(cosmic_button::mouse_interaction(false, false), Interaction::Idle);
}

#[test]
fn cosmic_button_state_focus() {
    let mut s = cosmic_button::State::new();
    assert!(!s.is_focused());
    assert!(!s.is_hovered());
    s.focus();
    assert!(s.is_focused());
    s.unfocus();
    assert!(!s.is_focused());
    assert_eq!(s, cosmic_button::State::default());
}

#[test]
fn cosmic_button_enter_needs_focus() {
    let mut s = cosmic_button::State::new();
    assert_eq!(cosmic_button::update(&mut s, ButtonEvent::KeyPressed { enter: true }, true, false), IGNORED);
    s.focus();
    assert_eq!(cosmic_button::update(&mut s, ButtonEvent::KeyPressed { enter: false }, true, false), IGNORED);
    assert_eq!(
        cosmic_button::update(&mut s, ButtonEvent::KeyPressed { enter: true }, true, false),
        Outcome { status: Status::Captured, publish: true }
    );
    assert_eq!(cosmic_button::look(true, true, &s), Look::Pressed);
    assert!(s.is_focused());
    let mut d = cosmic_button::State::new();
    d.focus();
    assert_eq!(cosmic_button::update(&mut d, ButtonEvent::KeyPressed { enter: true }, false, true), IGNORED);
}

#[test]
fn cosmic_button_click_and_touch() {
    let mut s = cosmic_button::State::new();
    assert_eq!(
        cosmic_button::update(&mut s, ButtonEvent::Press, true, true),
        Outcome { status: Status::Captured, publish: false }
    );
    assert_eq!(
        cosmic_button::update(&mut s, ButtonEvent::Release, true, true),
        Outcome { status: Status::Captured, publish: true }
    );
    let _ = cosmic_button::update(&mut s, ButtonEvent::Press, true, true);
    assert_eq!(cosmic_button::update(&mut s, ButtonEvent::FingerLost, true, true), IGNORED);
    assert_eq!(s, cosmic_button::State::new());
}

#[test]
fn cosmic_button_accessibility_request() {
    let mut s = cosmic_button::State::new();
    let _ = cosmic_button::update(&mut s, ButtonEvent::Press, true, true);
    assert_eq!(
        cosmic_button::update(&mut s, ButtonEvent::A11y { same_id: true, default_action: true }, true, false),
        Outcome { status: Status::Captured, publish: true }
    );
    assert_eq!(s, cosmic_button::State::new());
    assert_eq!(
        cosmic_button::update(&mut s, ButtonEvent::A11y { same_id: false, default_action: true }, true, false),
        Outcome { status: Status::Captured, publish: false }
    );
    assert_eq!(
        cosmic_button::update(&mut s, ButtonEvent::A11y { same_id: true, default_action: true }, false, false),
        Outcome { status: Status::Captured, publish: false }
    );
}

fn run(mut r: Router, replies: &[Status]) -> (Vec<Target>, Status) {
    let mut seen = Vec::new();
    let mut k = 0;
    while let Some(t) = r.next() {
        seen.push(t);
        let reply = if k < replies.len() { replies[k] } else { Status::Ignored };
        r.deliver(reply);
        k += 1;
    }
    (seen, r.status())
}

#[test]
fn cards_offer_buttons_then_cards() {
    let (seen, st) = run(Router::new(3, true, false), &[]);
    assert_eq!(
        seen,
        vec![Target::ShowLess, Target::ClearAll, Target::Card(0), Target::Card(1), Target::Card(2)]
    );
    assert_eq!(st, Status::Ignored);
}

#[test]
fn cards_stop_at_the_first_capture() {
    let (seen, st) = run(Router::new(3, true, false), &[Status::Ignored, Status::Captured]);
    assert_eq!(seen, vec![Target::ShowLess, Target::ClearAll]);
    assert_eq!(st, Status::Captured);
}

#[test]
fn collapsed_cards_offer_their_first_card_only() {
    let (seen, _) = run(Router::new(4, false, true), &[]);
    assert_eq!(seen, vec![Target::Card(0)]);
    let (seen, st) = run(Router::new(0, true, false), &[]);
    assert!(seen.is_empty());
    assert_eq!(st, Status::Ignored);
}

#[test]
fn toggler_flips_on_click_over_it() {
    assert_eq!(cosmic_toggler::on_left_press(false, true), (Status::Captured, Some(true)));
    assert_eq!(cosmic_toggler::on_left_press(true, true), (Status::Captured, Some(false)));
    assert_eq!(cosmic_toggler::on_left_press(true, false), (Status::Ignored, None));
    assert_eq!(cosmic_toggler::mouse_interaction(true), Interaction::Pointer);
    assert_eq!(cosmic_toggler::mouse_interaction(false), Interaction::Idle);
}

#[test]
fn cards_draw_order() {
    assert!(draw_plan(0, true, false, 2).is_empty());
    assert_eq!(
        draw_plan(3, true, false, 0),
        vec![DrawPart::ShowLess, DrawPart::ClearAll, DrawPart::Card(2), DrawPart::Card(1), DrawPart::Card(0)]
    );
    assert_eq!(
        draw_plan(3, false, true, 5),
        vec![DrawPart::Background(1), DrawPart::Background(0), DrawPart::Card(0)]
    );
    assert_eq!(draw_plan(2, false, true, 1), vec![DrawPart::Background(0), DrawPart::Card(0)]);
}

#[test]
fn cards_presses() {
    assert!(can_show_more(2, true));
    assert!(!can_show_more(1, true));
    assert!(!can_show_more(3, false));
    assert_eq!(card_press(0, false, true, true), CardPress::ShowMore);
    assert_eq!(card_press(0, true, true, true), CardPress::Activate(0));
    assert_eq!(card_press(2, false, true, true), CardPress::Activate(2));
    assert_eq!(card_press(1, false, true, false), CardPress::Nothing);
}

#[test]
fn cards_layout_and_backgrounds() {
    assert_eq!(background_count(0), 0);
    assert_eq!(background_count(1), 0);
    assert_eq!(background_count(2), 1);
    assert_eq!(background_count(7), 2);
    assert!(layout_plan(0, true, true).is_empty());
    assert_eq!(
        layout_plan(4, false, true),
        vec![DrawPart::Card(0), DrawPart::Background(0), DrawPart::Background(1)]
    );
    assert_eq!(
        layout_plan(2, true, false),
        vec![DrawPart::ShowLess, DrawPart::ClearAll, DrawPart::Card(0), DrawPart::Card(1)]
    );
    let mut laid = layout_plan(4, false, true);
    let mut drawn = draw_plan(4, false, true, background_count(4));
    assert_eq!(drawn, vec![DrawPart::Background(1), DrawPart::Background(0), DrawPart::Card(0)]);
    laid.sort_by_key(|p| format!("{:?}", p));
    drawn.sort_by_key(|p| format!("{:?}", p));
    assert_eq!(laid, drawn);
}
