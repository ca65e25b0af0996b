//! Presentation core of a turn-based tactical game: the screen stack,
//! layered time-driven scenes, anchored GUI widgets with click routing,
//! and the one-shot result channel between a parent screen and a child.

pub mod channel;
pub mod geom;
pub mod gui;
pub mod navigator;
pub mod scene;
pub mod strategy_map;

pub use channel::{
    lemma_abandoned_channel_is_empty, lemma_result_delivered_once, Mailbox, Receiver, Sender,
};
pub use geom::{aspect_ratio, lemma_window_center_is_origin, window_to_screen, Point, Rect, UNIT};
pub use gui::{
    button, label, lemma_click_on_dead_space, lemma_click_routes_to_the_one_widget,
    lemma_layout_has_no_gaps, lemma_resize_idempotent, Anchor, Group, Gui, HAnchor, VAnchor,
    VLayout, Widget, MAX_EXTENT,
};
pub use navigator::{lemma_stack_never_empty, NavError, Navigator, Transition};
pub use scene::{
    lemma_timeline_runs_in_order, lemma_zero_tick_changes_nothing, lemma_zero_tick_keeps_scene,
    Action, Effect, Layer, Scene, SceneError, SceneView, Sprite, SpriteState, VALUE_LIMIT,
};
pub use strategy_map::{make_gui, Command, Layers, Message, StrategyMap, BUTTON_HEIGHT};
