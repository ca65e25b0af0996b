use zemeroth::{make_gui, Command, Layer, Layers, Mailbox, Message, Point, Rect, StrategyMap};

#[test]
fn layers_sorted_puts_foreground() {
    let layers = Layers::default();
    assert_eq!(layers.sorted(), vec![Layer::new(0)]);
    let custom = Layers { fg: Layer::new(4) };
    assert_eq!(custom.sorted(), vec![Layer::new(4)]);
}

#[test]
fn map_gui_has_two_buttons_top_left() {
    let gui = make_gui(100, 50, 60, 50);
    assert_eq!(gui.group_count(), 1);
    assert_eq!(gui.rect(0, 0), Rect::new(-1000000, -1000000, 400000, 200000));
    assert_eq!(gui.rect(0, 1), Rect::new(-1000000, -800000, 240000, 200000));
    assert_eq!(gui.click(Point::new(-900000, -900000)), Some(Message::StartBattle));
    assert_eq!(gui.click(Point::new(-900000, -700000)), Some(Message::Menu));
}

#[test]
fn new_map_places_centered_sprite() {
    let map = StrategyMap::new(100, 50, 60, 50);
    assert_eq!(map.sprite().pos(), Point::new(500000, 500000));
    assert!(map.sprite().is_centered());
    assert_eq!(map.scene().layer_count(), 1);
    assert_eq!(map.layers().fg, Layer::new(0));
}

#[test]
fn map_battle_round_trip() {
    let mut mailbox: Mailbox<u8> = Mailbox::new();
    let mut map = StrategyMap::new(100, 50, 60, 50);
    let sender = match map.click(&mut mailbox, Point::new(-900000, -900000)) {
        Command::StartBattle(sender) => sender,
        other => panic!("unexpected command {:?}", other),
    };
    assert_eq!(map.update(&mut mailbox, 16), None);
    mailbox.send(sender, 7);
    assert_eq!(map.update(&mut mailbox, 16), Some(7));
    assert_eq!(map.update(&mut mailbox, 16), None);
}

#[test]
fn map_abandoned_battle_yields_nothing() {
    let mut mailbox: Mailbox<u8> = Mailbox::new();
    let mut map = StrategyMap::new(100, 50, 60, 50);
    let command = map.click(&mut mailbox, Point::new(-900000, -900000));
    assert!(matches!(command, Command::StartBattle(_)));
    drop(command);
    assert_eq!(map.update(&mut mailbox, 16), None);
    assert_eq!(map.update(&mut mailbox, 16), None);
}

#[test]
fn map_menu_button_exits() {
    let mut mailbox: Mailbox<u8> = Mailbox::new();
    let mut map = StrategyMap::new(100, 50, 60, 50);
    assert!(matches!(map.click(&mut mailbox, Point::new(-900000, -700000)), Command::Exit));
    assert!(matches!(map.click(&mut mailbox, Point::new(0, 0)), Command::Stay));
}

#[test]
fn map_resize_moves_buttons() {
    let mut mailbox: Mailbox<u8> = Mailbox::new();
    let mut map = StrategyMap::new(100, 50, 60, 50);
    map.resize(2000000);
    assert_eq!(map.gui().rect(0, 0), Rect::new(-2000000, -1000000, 400000, 200000));
    assert!(matches!(map.click(&mut mailbox, Point::new(-900000, -900000)), Command::Stay));
    assert!(matches!(map.click(&mut mailbox, Point::new(-1900000, -900000)), Command::StartBattle(_)));
}
