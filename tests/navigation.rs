use zemeroth::{aspect_ratio, window_to_screen, Mailbox, NavError, Navigator, Point, Transition};

#[test]
fn window_center_maps_to_origin() {
    for (w, h) in [(800u32, 600u32), (1024, 768), (600, 800), (2, 2), (1920, 1080)] {
        assert_eq!(window_to_screen(w / 2, h / 2, w, h), Point::new(0, 0));
    }
}

#[test]
fn window_corners_map_to_viewport_edges() {
    assert_eq!(window_to_screen(0, 0, 800, 600), Point::new(-1333333, -1000000));
    assert_eq!(window_to_screen(800, 600, 800, 600), Point::new(1333333, 1000000));
    assert_eq!(window_to_screen(600, 150, 800, 600), Point::new(666666, -500000));
}

#[test]
fn aspect_ratio_is_width_over_height() {
    assert_eq!(aspect_ratio(800, 600), 1333333);
    assert_eq!(aspect_ratio(600, 600), 1000000);
    assert_eq!(aspect_ratio(300, 600), 500000);
}

#[test]
fn push_and_pop_move_the_top() {
    let mut nav = Navigator::new("menu");
    assert_eq!(nav.apply(Transition::Push("map")), Ok(()));
    assert_eq!(nav.apply(Transition::Push("battle")), Ok(()));
    assert_eq!(nav.len(), 3);
    assert_eq!(*nav.top(), "battle");
    assert_eq!(nav.apply(Transition::Pop), Ok(()));
    assert_eq!(*nav.top(), "map");
    assert_eq!(nav.apply(Transition::Stay), Ok(()));
    assert_eq!(nav.len(), 2);
    assert_eq!(nav.apply(Transition::Replace("other")), Ok(()));
    assert_eq!(nav.len(), 2);
    assert_eq!(*nav.top(), "other");
}

#[test]
fn pop_of_last_screen_is_refused() {
    let mut nav = Navigator::new(1u8);
    assert_eq!(nav.apply(Transition::Pop), Err(NavError::PopOfLastScreen));
    assert_eq!(nav.len(), 1);
    assert_eq!(*nav.top(), 1);
}

#[test]
fn stack_never_empties_over_a_sequence() {
    let mut nav = Navigator::new(0u32);
    let script = [
        Transition::Push(1),
        Transition::Pop,
        Transition::Pop,
        Transition::Replace(2),
        Transition::Pop,
        Transition::Push(3),
        Transition::Stay,
        Transition::Pop,
        Transition::Pop,
    ];
    let mut refused = 0;
    for t in script {
        if nav.apply(t).is_err() {
            refused += 1;
        }
        assert!(nav.len() >= 1);
    }
    assert_eq!(refused, 3);
    assert_eq!(*nav.top(), 2);
}

#[test]
fn top_mut_changes_the_active_screen() {
    let mut nav = Navigator::new(1u32);
    nav.apply(Transition::Push(5)).unwrap();
    *nav.top_mut() += 10;
    assert_eq!(*nav.top(), 15);
    nav.apply(Transition::Pop).unwrap();
    assert_eq!(*nav.top(), 1);
}

#[test]
fn result_is_delivered_once() {
    let mut mailbox: Mailbox<u32> = Mailbox::new();
    let (sender, receiver) = mailbox.channel();
    assert_eq!(mailbox.try_recv(&receiver), None);
    mailbox.send(sender, 42);
    assert_eq!(mailbox.try_recv(&receiver), Some(42));
    assert_eq!(mailbox.try_recv(&receiver), None);
}

#[test]
fn abandoned_channel_yields_nothing() {
    let mut mailbox: Mailbox<u32> = Mailbox::new();
    let (sender, receiver) = mailbox.channel();
    drop(sender);
    assert_eq!(mailbox.try_recv(&receiver), None);
    assert_eq!(mailbox.try_recv(&receiver), None);
}

#[test]
fn channels_are_independent() {
    let mut mailbox: Mailbox<&str> = Mailbox::new();
    let (s1, r1) = mailbox.channel();
    let (s2, r2) = mailbox.channel();
    mailbox.send(s2, "second");
    assert_eq!(mailbox.try_recv(&r1), None);
    mailbox.send(s1, "first");
    assert_eq!(mailbox.try_recv(&r2), Some("second"));
    assert_eq!(mailbox.try_recv(&r1), Some("first"));
}
