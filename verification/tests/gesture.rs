use cua_driver::gesture::{Gesture, GestureAction, GestureEvent, GesturePhase};

#[test]
fn a_click_follows_a_placement() {
    let mut g = Gesture::click(2);
    assert_eq!(g.clicks, 2);
    assert_eq!(g.advance(GestureEvent::OffTarget), GestureAction::Move);
    assert_eq!(g.advance(GestureEvent::OffTarget), GestureAction::Move);
    assert_eq!(g.advance(GestureEvent::OnTarget), GestureAction::Click { pause_ms: 0 });
    assert_eq!(g.advance(GestureEvent::Clicked), GestureAction::Click { pause_ms: 80 });
    assert_eq!(g.advance(GestureEvent::Clicked), GestureAction::Finish { iterations: 3 });
    assert_eq!(g.phase, GesturePhase::Ended);
}

#[test]
fn a_click_with_a_count_of_zero_only_places_the_pointer() {
    let mut g = Gesture::click(0);
    assert_eq!(g.clicks, 0);
    assert_eq!(g.advance(GestureEvent::OnTarget), GestureAction::Finish { iterations: 1 });
    assert_eq!(g.phase, GesturePhase::Ended);
}

#[test]
fn a_click_with_a_count_of_one_clicks_once() {
    let mut g = Gesture::click(1);
    assert_eq!(g.advance(GestureEvent::OnTarget), GestureAction::Click { pause_ms: 0 });
    assert_eq!(g.advance(GestureEvent::Clicked), GestureAction::Finish { iterations: 1 });
}

#[test]
fn a_placement_that_does_not_converge_never_clicks() {
    let mut g = Gesture::click(1);
    for _ in 0..7 {
        assert_eq!(g.advance(GestureEvent::OffTarget), GestureAction::Move);
    }
    assert_eq!(g.advance(GestureEvent::OffTarget), GestureAction::Refuse);
    assert_eq!(g.advance(GestureEvent::OnTarget), GestureAction::Fail);
}

#[test]
fn the_last_try_still_counts() {
    let mut g = Gesture::movement();
    for _ in 0..7 {
        assert_eq!(g.advance(GestureEvent::OffTarget), GestureAction::Move);
    }
    assert_eq!(g.advance(GestureEvent::OnTarget), GestureAction::Finish { iterations: 8 });
}

#[test]
fn failures_end_a_gesture_without_a_click() {
    let mut g = Gesture::click(3);
    assert_eq!(g.advance(GestureEvent::Failed), GestureAction::Fail);
    assert_eq!(g.advance(GestureEvent::Clicked), GestureAction::Fail);
    let mut g = Gesture::click(3);
    assert_eq!(g.advance(GestureEvent::OnTarget), GestureAction::Click { pause_ms: 0 });
    assert_eq!(g.advance(GestureEvent::Failed), GestureAction::Fail);
    assert_eq!(g.advance(GestureEvent::OnTarget), GestureAction::Fail);
}
