use canvas_ext::event::{Event, EventExt};

#[test]
fn quit_event_is_quit() {
    assert!(Event::Quit.is_quit());
}

#[test]
fn other_event_is_not_quit() {
    assert!(!Event::Other.is_quit());
}
