use zemeroth::{button, label, Anchor, Gui, HAnchor, Point, Rect, VAnchor, VLayout};

#[derive(Clone, Copy, Debug, PartialEq)]
enum Msg {
    One,
    Two,
}

fn two_buttons() -> Gui<Msg> {
    let mut gui = Gui::new();
    let mut layout = VLayout::new();
    layout.add(button(100, 50, 200000, Msg::One));
    layout.add(button(60, 50, 200000, Msg::Two));
    gui.add(layout, Anchor(HAnchor::Left, VAnchor::Top));
    gui
}

#[test]
fn button_width_keeps_image_proportions() {
    let b = button(100, 50, 200000, Msg::One);
    assert_eq!((b.w, b.h, b.message), (400000, 200000, Some(Msg::One)));
    let l = label::<Msg>(30, 70, 100000);
    assert_eq!((l.w, l.h, l.message), (42857, 100000, None));
}

#[test]
fn vertical_layout_stacks_without_gaps() {
    let gui = two_buttons();
    assert_eq!(gui.rect(0, 0), Rect::new(-1000000, -1000000, 400000, 200000));
    assert_eq!(gui.rect(0, 1), Rect::new(-1000000, -800000, 240000, 200000));
}

#[test]
fn resize_twice_gives_same_rects() {
    let mut gui = two_buttons();
    gui.resize(1333333);
    let first = (gui.rect(0, 0), gui.rect(0, 1));
    gui.resize(1333333);
    let second = (gui.rect(0, 0), gui.rect(0, 1));
    assert_eq!(first, second);
    assert_eq!(first.0, Rect::new(-1333333, -1000000, 400000, 200000));
}

#[test]
fn other_anchors_place_layouts() {
    let mut gui = Gui::new();
    let mut center = VLayout::new();
    center.add(button(100, 100, 300000, Msg::One));
    gui.add(center, Anchor(HAnchor::Middle, VAnchor::Middle));
    let mut corner = VLayout::new();
    corner.add(button(100, 100, 100000, Msg::Two));
    gui.add(corner, Anchor(HAnchor::Right, VAnchor::Bottom));
    gui.resize(2000000);
    assert_eq!(gui.rect(0, 0), Rect::new(-150000, -150000, 300000, 300000));
    assert_eq!(gui.rect(1, 0), Rect::new(1900000, 900000, 100000, 100000));
}

#[test]
fn click_routes_to_one_button() {
    let gui = two_buttons();
    assert_eq!(gui.click(Point::new(-900000, -900000)), Some(Msg::One));
    assert_eq!(gui.click(Point::new(-900000, -700000)), Some(Msg::Two));
    assert_eq!(gui.click(Point::new(-1000000, -800000)), Some(Msg::Two));
}

#[test]
fn click_in_dead_space_yields_nothing() {
    let gui = two_buttons();
    assert_eq!(gui.click(Point::new(-500000, -700000)), None);
    assert_eq!(gui.click(Point::new(0, 0)), None);
    assert_eq!(gui.click(Point::new(-1000000, -600000)), None);
}

#[test]
fn labels_let_clicks_through() {
    let mut gui = Gui::new();
    let mut top = VLayout::new();
    top.add(label(100, 100, 500000));
    gui.add(top, Anchor(HAnchor::Left, VAnchor::Top));
    let mut under = VLayout::new();
    under.add(button(100, 100, 500000, Msg::Two));
    gui.add(under, Anchor(HAnchor::Left, VAnchor::Top));
    assert_eq!(gui.click(Point::new(-900000, -900000)), Some(Msg::Two));
}
