use zemeroth::{Action, Effect, Layer, Point, Scene, SceneError, Sprite};

#[test]
fn zero_tick_changes_nothing() {
    let mut sprite = Sprite::new();
    sprite.set_pos(Point::new(10, 20));
    sprite.enqueue(Action::new(Effect::MoveBy(100, 100), 10));
    sprite.tick(4);
    let before = sprite.state();
    sprite.tick(0);
    assert_eq!(sprite.state(), before);
    assert_eq!(sprite.pending(), 1);
}

#[test]
fn timeline_runs_in_order() {
    let mut sprite = Sprite::new();
    sprite.enqueue(Action::new(Effect::MoveBy(100, 0), 10));
    sprite.enqueue(Action::new(Effect::MoveBy(0, 50), 20));
    sprite.tick(10);
    assert_eq!(sprite.pos(), Point::new(100, 0));
    assert_eq!(sprite.pending(), 1);
    sprite.tick(20);
    assert_eq!(sprite.pos(), Point::new(100, 50));
    assert_eq!(sprite.pending(), 0);
}

#[test]
fn moves_advance_linearly() {
    let mut sprite = Sprite::new();
    sprite.enqueue(Action::new(Effect::MoveBy(100, -40), 10));
    sprite.tick(5);
    assert_eq!(sprite.pos(), Point::new(50, -20));
    sprite.tick(2);
    assert_eq!(sprite.pos(), Point::new(70, -28));
}

#[test]
fn partial_moves_round_toward_zero() {
    let mut sprite = Sprite::new();
    sprite.enqueue(Action::new(Effect::MoveBy(-10, 10), 3));
    sprite.tick(1);
    assert_eq!(sprite.pos(), Point::new(-3, 3));
    sprite.tick(1);
    assert_eq!(sprite.pos(), Point::new(-6, 6));
    sprite.tick(1);
    assert_eq!(sprite.pos(), Point::new(-10, 10));
}

#[test]
fn one_long_tick_runs_several_actions() {
    let mut sprite = Sprite::new();
    sprite.enqueue(Action::new(Effect::FadeBy(-1000000), 100));
    sprite.enqueue(Action::new(Effect::Hide, 0));
    sprite.enqueue(Action::new(Effect::ScaleBy(1000), 10));
    sprite.tick(105);
    let s = sprite.state();
    assert_eq!((s.alpha, s.visible, s.scale), (0, false, 1000500));
    assert_eq!(sprite.pending(), 1);
}

#[test]
fn instant_action_applies_on_the_tick_that_reaches_it() {
    let mut sprite = Sprite::new();
    sprite.enqueue(Action::new(Effect::Hide, 0));
    sprite.tick(0);
    assert!(!sprite.state().visible);
    sprite.enqueue(Action::new(Effect::Show, 5));
    sprite.tick(4);
    assert!(!sprite.state().visible);
    sprite.tick(1);
    assert!(sprite.state().visible);
}

#[test]
fn scene_ticks_every_layer() {
    let mut scene = Scene::new(vec![Layer::new(1), Layer::new(2)]);
    let mut a = Sprite::new();
    a.enqueue(Action::new(Effect::MoveBy(10, 0), 10));
    let mut b = Sprite::new();
    b.set_pos(Point::new(5_000_000, 0));
    b.enqueue(Action::new(Effect::MoveBy(0, 10), 10));
    assert_eq!(scene.add(Layer::new(2), a), Ok(()));
    assert_eq!(scene.add(Layer::new(1), b), Ok(()));
    scene.tick(10);
    assert_eq!(scene.sprite(0, 0).pos(), Point::new(5_000_000, 10));
    assert_eq!(scene.sprite(1, 0).pos(), Point::new(10, 0));
    let before = (scene.sprite(0, 0).state(), scene.sprite(1, 0).state());
    scene.tick(0);
    assert_eq!((scene.sprite(0, 0).state(), scene.sprite(1, 0).state()), before);
}

#[test]
fn scene_keeps_insertion_order() {
    let mut scene = Scene::new(vec![Layer::new(7)]);
    let mut first = Sprite::new();
    first.set_pos(Point::new(1, 1));
    let mut second = Sprite::new();
    second.set_pos(Point::new(2, 2));
    scene.add(Layer::new(7), first).unwrap();
    scene.add(Layer::new(7), second).unwrap();
    assert_eq!(scene.sprite_count(0), 2);
    assert_eq!(scene.sprite(0, 0).pos(), Point::new(1, 1));
    assert_eq!(scene.sprite(0, 1).pos(), Point::new(2, 2));
}

#[test]
fn unknown_layer_is_refused() {
    let mut scene = Scene::new(vec![Layer::new(1)]);
    assert_eq!(scene.add(Layer::new(3), Sprite::new()), Err(SceneError::UnknownLayer));
    assert_eq!(scene.sprite_count(0), 0);
}
