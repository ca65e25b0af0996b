//! Layered scenes of sprites that animate over time.
//!
//! Each sprite owns a timeline: a queue of actions run one after the other,
//! each over its own duration (in milliseconds). Moves, fades and scalings
//! advance linearly with the time spent on them; showing and hiding take
//! effect when their action completes. A scene holds its sprites in layers,
//! drawn in layer order and, inside a layer, in the order they were added.
use crate::geom::{div_toward_zero, Point, UNIT};
use vstd::prelude::*;

verus! {

/// The largest magnitude of a sprite's position, alpha or scale; animated
/// values saturate there.
pub const VALUE_LIMIT: i64 = 1125899906842624;

/// What an action does to a sprite.
#[derive(Clone, Copy, Debug, PartialEq, Eq, Structural)]
pub enum Effect {
    /// Moves the sprite by `(dx, dy)`.
    MoveBy(i32, i32),
    /// Changes the sprite's alpha by the given amount.
    FadeBy(i32),
    /// Changes the sprite's scale by the given amount.
    ScaleBy(i32),
    /// Makes the sprite visible.
    Show,
    /// Makes the sprite invisible.
    Hide,
}

/// An action of a timeline: an effect spread over `duration` milliseconds,
/// of which `elapsed` have been run.
#[derive(Clone, Copy, Debug, PartialEq, Eq, Structural)]
pub struct Action {
    pub effect: Effect,
    pub duration: u32,
    pub elapsed: u32,
}

impl Action {
    /// An action that has not started yet.
    pub fn new(effect: Effect, duration: u32) -> (r: Action)
        ensures
            r == (Action { effect, duration, elapsed: 0 }),
    {
        Action { effect, duration, elapsed: 0 }
    }

    /// A pending action: not complete, unless it takes no time at all.
    pub open spec fn wf(self) -> bool {
        self.elapsed < self.duration || self.elapsed == 0
    }
}

/// What a sprite looks like at a given moment.
#[derive(Clone, Copy, Debug, PartialEq, Eq, Structural)]
pub struct SpriteState {
    pub x: i64,
    pub y: i64,
    pub alpha: i64,
    pub scale: i64,
    pub visible: bool,
}

impl SpriteState {
    pub open spec fn wf(self) -> bool {
        &&& -VALUE_LIMIT <= self.x <= VALUE_LIMIT
        &&& -VALUE_LIMIT <= self.y <= VALUE_LIMIT
        &&& -VALUE_LIMIT <= self.alpha <= VALUE_LIMIT
        &&& -VALUE_LIMIT <= self.scale <= VALUE_LIMIT
    }
}

/// How much of `delta` an action of duration `d` has done after `e`
/// milliseconds.
pub open spec fn spec_part(delta: int, e: int, d: int) -> int {
    if d == 0 {
        0
    } else {
        div_toward_zero(delta * e, d)
    }
}

pub open spec fn clamp(v: int) -> int {
    if v > VALUE_LIMIT {
        VALUE_LIMIT as int
    } else if v < -VALUE_LIMIT {
        -VALUE_LIMIT
    } else {
        v
    }
}

/// `v` changed by what an action with `delta` does from `from` milliseconds
/// on, up to `to` milliseconds, or up to its end when `done`.
pub open spec fn spec_tween(v: int, delta: int, from: int, to: int, d: int, done: bool) -> int {
    if done {
        clamp(v + delta - spec_part(delta, from, d))
    } else {
        clamp(v + spec_part(delta, to, d) - spec_part(delta, from, d))
    }
}

/// The sprite's state after action `a` ran from its elapsed time up to `to`
/// milliseconds, or up to its end when `done`.
pub open spec fn spec_step(s: SpriteState, a: Action, to: int, done: bool) -> SpriteState {
    let (e, d) = (a.elapsed as int, a.duration as int);
    match a.effect {
        Effect::MoveBy(dx, dy) => SpriteState {
            x: spec_tween(s.x as int, dx as int, e, to, d, done) as i64,
            y: spec_tween(s.y as int, dy as int, e, to, d, done) as i64,
            ..s
        },
        Effect::FadeBy(da) => SpriteState {
            alpha: spec_tween(s.alpha as int, da as int, e, to, d, done) as i64,
            ..s
        },
        Effect::ScaleBy(ds) => SpriteState {
            scale: spec_tween(s.scale as int, ds as int, e, to, d, done) as i64,
            ..s
        },
        Effect::Show => SpriteState { visible: if done { true } else { s.visible }, ..s },
        Effect::Hide => SpriteState { visible: if done { false } else { s.visible }, ..s },
    }
}

/// A sprite and its timeline after `dt` more milliseconds: the actions run
/// in order, each completed one leaves the queue, and the one reached last
/// keeps the time it was given.
pub open spec fn spec_tick(s: SpriteState, q: Seq<Action>, dt: int) -> (SpriteState, Seq<Action>)
    decreases q.len(),
{
    if q.len() == 0 {
        (s, q)
    } else {
        let a = q[0];
        let rest = a.duration - a.elapsed;
        if dt >= rest {
            spec_tick(spec_step(s, a, a.duration as int, true), q.drop_first(), dt - rest)
        } else {
            (
                spec_step(s, a, a.elapsed + dt, false),
                q.update(0, Action { elapsed: (a.elapsed + dt) as u32, ..a }),
            )
        }
    }
}

/// The state an action leaves behind once it ran whole.
pub open spec fn spec_finish(s: SpriteState, a: Action) -> SpriteState {
    spec_step(s, a, a.duration as int, true)
}

proof fn lemma_part_bound(delta: int, e: int, d: int)
    requires
        0 <= e <= d,
        -0x8000_0000 <= delta < 0x8000_0000,
    ensures
        -0x8000_0000 <= spec_part(delta, e, d) <= 0x8000_0000,
        e == d ==> spec_part(delta, e, d) == if d == 0 { 0 } else { delta },
        e == 0 ==> spec_part(delta, e, d) == 0,
{
    if d > 0 {
        if e == 0 {
            assert(delta * e == 0);
        }
        if delta >= 0 {
            assert(0 <= delta * e <= delta * d) by (nonlinear_arith)
                requires
                    0 <= e <= d,
                    delta >= 0,
            ;
            assert((delta * e) / d <= delta) by (nonlinear_arith)
                requires
                    0 <= delta * e <= delta * d,
                    d > 0,
            ;
            assert(0 <= (delta * e) / d) by (nonlinear_arith)
                requires
                    0 <= delta * e,
                    d > 0,
            ;
            if e == d {
                assert((delta * d) / d == delta) by (nonlinear_arith)
                    requires
                        d > 0,
                ;
            }
        } else {
            let m = -delta;
            assert(-(delta * e) == m * e) by (nonlinear_arith)
                requires
                    m == -delta,
            ;
            assert(0 <= m * e <= m * d) by (nonlinear_arith)
                requires
                    0 <= e <= d,
                    m >= 0,
            ;
            assert((m * e) / d <= m) by (nonlinear_arith)
                requires
                    0 <= m * e <= m * d,
                    d > 0,
            ;
            assert(0 <= (m * e) / d) by (nonlinear_arith)
                requires
                    0 <= m * e,
                    d > 0,
            ;
            if e == d {
                assert((m * d) / d == m) by (nonlinear_arith)
                    requires
                        d > 0,
                ;
            }
        }
    }
}

fn part(delta: i32, e: u32, d: u32) -> (r: i64)
    requires
        e <= d,
    ensures
        r == spec_part(delta as int, e as int, d as int),
        -0x8000_0000 <= r <= 0x8000_0000,
{
    proof {
        lemma_part_bound(delta as int, e as int, d as int);
    }
    if d == 0 {
        0
    } else {
        assert(-0x8000_0000 * 0xffff_ffff <= delta * e <= 0x8000_0000 * 0xffff_ffff) by (nonlinear_arith)
            requires
                -0x8000_0000 <= delta < 0x8000_0000,
                0 <= e <= 0xffff_ffff,
        ;
        let n = delta as i128 * e as i128;
        let q = if n >= 0 {
            n / d as i128
        } else {
            -((-n) / d as i128)
        };
        q as i64
    }
}

fn tween(v: i64, delta: i32, from: u32, to: u32, d: u32, done: bool) -> (r: i64)
    requires
        -VALUE_LIMIT <= v <= VALUE_LIMIT,
        from <= to <= d,
    ensures
        r == spec_tween(v as int, delta as int, from as int, to as int, d as int, done),
        -VALUE_LIMIT <= r <= VALUE_LIMIT,
{
    let before = part(delta, from, d);
    let after = if done {
        delta as i64
    } else {
        part(delta, to, d)
    };
    let moved = v + after - before;
    if moved > VALUE_LIMIT {
        VALUE_LIMIT
    } else if moved < -VALUE_LIMIT {
        -VALUE_LIMIT
    } else {
        moved
    }
}

fn step(s: SpriteState, a: Action, to: u32, done: bool) -> (r: SpriteState)
    requires
        s.wf(),
        a.elapsed <= to <= a.duration,
    ensures
        r == spec_step(s, a, to as int, done),
        r.wf(),
{
    match a.effect {
        Effect::MoveBy(dx, dy) => SpriteState {
            x: tween(s.x, dx, a.elapsed, to, a.duration, done),
            y: tween(s.y, dy, a.elapsed, to, a.duration, done),
            ..s
        },
        Effect::FadeBy(da) => SpriteState {
            alpha: tween(s.alpha, da, a.elapsed, to, a.duration, done),
            ..s
        },
        Effect::ScaleBy(ds) => SpriteState {
            scale: tween(s.scale, ds, a.elapsed, to, a.duration, done),
            ..s
        },
        Effect::Show => SpriteState { visible: if done { true } else { s.visible }, ..s },
        Effect::Hide => SpriteState { visible: if done { false } else { s.visible }, ..s },
    }
}

proof fn lemma_step_wf(s: SpriteState, a: Action, to: int, done: bool)
    requires
        s.wf(),
    ensures
        spec_step(s, a, to, done).wf(),
{
}

/// A sprite: what it looks like now, whether it is drawn centered on its
/// position, and its timeline of pending actions.
#[derive(Debug)]
pub struct Sprite {
    state: SpriteState,
    centered: bool,
    actions: Vec<Action>,
}

impl View for Sprite {
    type V = (SpriteState, Seq<Action>);

    closed spec fn view(&self) -> (SpriteState, Seq<Action>) {
        (self.state, self.actions@)
    }
}

/// Every action of the timeline is pending.
pub open spec fn timeline_wf(q: Seq<Action>) -> bool {
    forall|i: int| 0 <= i < q.len() ==> (#[trigger] q[i]).wf()
}

/// Whether `q` is a timeline that a tick of no time leaves alone: its first
/// action, if any, still needs time to complete.
pub open spec fn starts_with_timed_action(q: Seq<Action>) -> bool {
    q.len() == 0 || q[0].elapsed < q[0].duration
}

impl Sprite {
    pub open spec fn wf(&self) -> bool {
        self@.0.wf() && timeline_wf(self@.1)
    }

    pub closed spec fn spec_centered(&self) -> bool {
        self.centered
    }

    /// A visible, opaque, unscaled sprite at the origin with an empty timeline.
    pub fn new() -> (r: Sprite)
        ensures
            r.wf(),
            r@.0 == (SpriteState { x: 0, y: 0, alpha: UNIT, scale: UNIT, visible: true }),
            r@.1 == Seq::<Action>::empty(),
            !r.spec_centered(),
    {
        Sprite {
            state: SpriteState { x: 0, y: 0, alpha: UNIT, scale: UNIT, visible: true },
            centered: false,
            actions: Vec::new(),
        }
    }

    /// What the sprite looks like now.
    pub fn state(&self) -> (r: SpriteState)
        ensures
            r == self@.0,
    {
        self.state
    }

    pub fn pos(&self) -> (r: Point)
        ensures
            r.x == self@.0.x,
            r.y == self@.0.y,
    {
        Point { x: self.state.x, y: self.state.y }
    }

    pub fn is_centered(&self) -> (r: bool)
        ensures
            r == self.spec_centered(),
    {
        self.centered
    }

    /// How many actions are pending.
    pub fn pending(&self) -> (r: usize)
        ensures
            r == self@.1.len(),
    {
        self.actions.len()
    }

    /// Moves the sprite to `pos`, which must lie within `VALUE_LIMIT`.
    pub fn set_pos(&mut self, pos: Point)
        requires
            old(self).wf(),
            -VALUE_LIMIT <= pos.x <= VALUE_LIMIT,
            -VALUE_LIMIT <= pos.y <= VALUE_LIMIT,
        ensures
            final(self).wf(),
            final(self)@ == (SpriteState { x: pos.x, y: pos.y, ..old(self)@.0 }, old(self)@.1),
            final(self).spec_centered() == old(self).spec_centered(),
    {
        self.state.x = pos.x;
        self.state.y = pos.y;
    }

    /// Whether the sprite is drawn centered on its position rather than
    /// with its top-left corner there.
    pub fn set_centered(&mut self, centered: bool)
        ensures
            final(self)@ == old(self)@,
            final(self).spec_centered() == centered,
    {
        self.centered = centered;
    }

    /// Queues `action` after those already pending.
    pub fn enqueue(&mut self, action: Action)
        requires
            old(self).wf(),
            action.wf(),
        ensures
            final(self).wf(),
            final(self)@ == (old(self)@.0, old(self)@.1.push(action)),
            final(self).spec_centered() == old(self).spec_centered(),
    {
        self.actions.push(action);
    }

    /// Runs the timeline for `dt` more milliseconds.
    pub fn tick(&mut self, dt: u64)
        requires
            old(self).wf(),
        ensures
            final(self).wf(),
            final(self)@ == spec_tick(old(self)@.0, old(self)@.1, dt as int),
            final(self).spec_centered() == old(self).spec_centered(),
    {
        let mut left = dt;
        while self.actions.len() > 0
            invariant
                self.wf(),
                self.centered == old(self).centered,
                spec_tick(self.state, self.actions@, left as int) == spec_tick(
                    old(self)@.0,
                    old(self)@.1,
                    dt as int,
                ),
            decreases self.actions@.len(),
        {
            let a = self.actions[0];
            assert(a.wf());
            let rest = (a.duration - a.elapsed) as u64;
            if left >= rest {
                self.state = step(self.state, a, a.duration, true);
                let _ = self.actions.remove(0);
                left = left - rest;
            } else {
                let reached = a.elapsed + left as u32;
                self.state = step(self.state, a, reached, false);
                self.actions.set(0, Action { elapsed: reached, ..a });
                return ;
            }
        }
    }
}

/// A tick of no time changes nothing, as long as the timeline does not
/// start with an action that takes no time.
pub proof fn lemma_zero_tick_changes_nothing(s: SpriteState, q: Seq<Action>)
    requires
        s.wf(),
        starts_with_timed_action(q),
    ensures
        spec_tick(s, q, 0) == (s, q),
{
    if q.len() > 0 {
        let a = q[0];
        assert(q.update(0, Action { elapsed: (a.elapsed + 0) as u32, ..a }) == q);
    }
}

/// Actions run in the order they were queued: after the first action's
/// whole duration the sprite is as the first action leaves it and the second
/// has not started; after the second's duration too, it is as the second
/// leaves it.
pub proof fn lemma_timeline_runs_in_order(s: SpriteState, a: Action, b: Action)
    requires
        s.wf(),
        a.elapsed == 0,
        b.elapsed == 0,
        a.duration > 0,
        b.duration > 0,
    ensures
        spec_tick(s, seq![a, b], a.duration as int) == (spec_finish(s, a), seq![b]),
        spec_tick(spec_finish(s, a), seq![b], b.duration as int) == (
            spec_finish(spec_finish(s, a), b),
            Seq::<Action>::empty(),
        ),
{
    let q = seq![a, b];
    lemma_step_wf(s, a, a.duration as int, true);
    let s1 = spec_finish(s, a);
    assert(q.drop_first() == seq![b]);
    lemma_zero_tick_changes_nothing(s1, seq![b]);
    assert(seq![b].drop_first() == Seq::<Action>::empty());
    let s2 = spec_finish(s1, b);
    assert(spec_tick(s2, Seq::<Action>::empty(), 0) == (s2, Seq::<Action>::empty()));
}

/// A drawing bucket of a scene, named by a number.
#[derive(Clone, Copy, Debug, PartialEq, Eq, Structural)]
pub struct Layer {
    pub id: u32,
}

impl Layer {
    pub fn new(id: u32) -> (r: Layer)
        ensures
            r.id == id,
    {
        Layer { id }
    }
}

/// Why a scene refused a sprite.
#[derive(Clone, Copy, Debug, PartialEq, Eq, Structural)]
pub enum SceneError {
    /// The scene has no such layer.
    UnknownLayer,
}

/// What the sprites of a scene are, layer by layer.
pub type SceneView = Seq<Seq<(SpriteState, Seq<Action>)>>;

/// Every sprite of the scene after `dt` more milliseconds.
pub open spec fn spec_scene_tick(v: SceneView, dt: int) -> SceneView {
    Seq::new(v.len(), |i: int| Seq::new(v[i].len(), |j: int| spec_tick(v[i][j].0, v[i][j].1, dt)))
}

/// The first position of `layer` in `layers`, if it is there.
pub open spec fn spec_layer_index(layers: Seq<Layer>, layer: Layer) -> Option<int> {
    if exists|i: int| 0 <= i < layers.len() && layers[i] == layer {
        Some(
            choose|i: int|
                0 <= i < layers.len() && layers[i] == layer && forall|k: int|
                    0 <= k < i ==> layers[k] != layer,
        )
    } else {
        None
    }
}

/// A fixed, ordered set of layers and the sprites in each.
///
/// Sprites are drawn layer by layer, and inside a layer in the order they
/// were added; nothing else decides what is drawn over what.
#[derive(Debug)]
pub struct Scene {
    layers: Vec<Layer>,
    sprites: Vec<Vec<Sprite>>,
}

impl Scene {
    pub closed spec fn spec_layers(&self) -> Seq<Layer> {
        self.layers@
    }

    /// The sprites, layer by layer, in drawing order.
    pub closed spec fn spec_sprites(&self) -> SceneView {
        Seq::new(self.sprites@.len(), |i: int| Seq::new(self.sprites@[i]@.len(), |j: int| self.sprites@[i]@[j]@))
    }

    pub closed spec fn wf(&self) -> bool {
        &&& self.sprites@.len() == self.layers@.len()
        &&& forall|i: int, j: int|
            0 <= i < self.sprites@.len() && 0 <= j < self.sprites@[i]@.len() ==> (#[trigger] self.sprites@[i]@[j]).wf()
    }

    /// A scene with the given layers, in drawing order, and no sprite.
    pub fn new(layers: Vec<Layer>) -> (r: Scene)
        ensures
            r.wf(),
            r.spec_layers() == layers@,
            r.spec_sprites().len() == layers@.len(),
            forall|i: int| 0 <= i < layers@.len() ==> (#[trigger] r.spec_sprites()[i]).len() == 0,
    {
        let mut sprites: Vec<Vec<Sprite>> = Vec::new();
        let mut i: usize = 0;
        while i < layers.len()
            invariant
                0 <= i <= layers@.len(),
                sprites@.len() == i,
                forall|k: int| 0 <= k < i ==> (#[trigger] sprites@[k])@.len() == 0,
            decreases layers@.len() - i,
        {
            sprites.push(Vec::new());
            i = i + 1;
        }
        Scene { layers, sprites }
    }

    /// How many layers the scene has.
    pub fn layer_count(&self) -> (r: usize)
        ensures
            r == self.spec_layers().len(),
    {
        self.layers.len()
    }

    /// How many sprites layer `i` holds.
    pub fn sprite_count(&self, i: usize) -> (r: usize)
        requires
            self.wf(),
            i < self.spec_layers().len(),
        ensures
            r == self.spec_sprites()[i as int].len(),
    {
        self.sprites[i].len()
    }

    /// The `j`-th sprite of layer `i`.
    pub fn sprite(&self, i: usize, j: usize) -> (r: &Sprite)
        requires
            self.wf(),
            i < self.spec_layers().len(),
            j < self.spec_sprites()[i as int].len(),
        ensures
            r@ == self.spec_sprites()[i as int][j as int],
            r.wf(),
    {
        &self.sprites[i][j]
    }

    /// Puts `sprite` on top of the others of `layer`; a layer that the scene
    /// does not have is refused.
    pub fn add(&mut self, layer: Layer, sprite: Sprite) -> (r: Result<(), SceneError>)
        requires
            old(self).wf(),
            sprite.wf(),
        ensures
            final(self).wf(),
            final(self).spec_layers() == old(self).spec_layers(),
            match spec_layer_index(old(self).spec_layers(), layer) {
                Some(i) => r is Ok && final(self).spec_sprites() == old(self).spec_sprites().update(
                    i,
                    old(self).spec_sprites()[i].push(sprite@),
                ),
                None => r == Err::<(), SceneError>(SceneError::UnknownLayer) && final(self).spec_sprites()
                    == old(self).spec_sprites(),
            },
    {
        let mut i: usize = 0;
        while i < self.layers.len()
            invariant
                self.wf(),
                sprite.wf(),
                self.layers@ == old(self).layers@,
                self.sprites@ == old(self).sprites@,
                0 <= i <= self.layers@.len(),
                forall|k: int| 0 <= k < i ==> self.layers@[k] != layer,
            decreases self.layers@.len() - i,
        {
            if self.layers[i] == layer {
                assert(spec_layer_index(self.layers@, layer) == Some(i as int)) by {
                    let c = choose|c: int|
                        0 <= c < self.layers@.len() && self.layers@[c] == layer && forall|k: int|
                            0 <= k < c ==> self.layers@[k] != layer;
                    assert(0 <= c < self.layers@.len() && self.layers@[c] == layer && forall|k: int|
                        0 <= k < c ==> self.layers@[k] != layer);
                    if c < i {
                    } else if c > i {
                    }
                }
                let ghost before = self.spec_sprites();
                let ghost vb = self.sprites@;
                self.sprites[i].push(sprite);
                proof {
                    let target = before.update(i as int, before[i as int].push(sprite@));
                    assert forall|k: int| 0 <= k < vb.len() implies #[trigger] self.spec_sprites()[k]
                        =~= target[k] by {
                        if k != i {
                            assert(self.sprites@[k] == vb[k]);
                        }
                    }
                    assert(self.spec_sprites() =~= target);
                }
                return Ok(());
            }
            i = i + 1;
        }
        Err(SceneError::UnknownLayer)
    }

    /// Runs every sprite's timeline, in every layer, for `dt` more
    /// milliseconds; sprites off screen are run too.
    pub fn tick(&mut self, dt: u64)
        requires
            old(self).wf(),
        ensures
            final(self).wf(),
            final(self).spec_layers() == old(self).spec_layers(),
            final(self).spec_sprites() == spec_scene_tick(old(self).spec_sprites(), dt as int),
    {
        let ghost start = self.spec_sprites();
        let mut i: usize = 0;
        while i < self.sprites.len()
            invariant
                self.wf(),
                self.layers@ == old(self).layers@,
                0 <= i <= self.sprites@.len(),
                start == old(self).spec_sprites(),
                self.spec_sprites().len() == start.len(),
                forall|k: int| 0 <= k < start.len() ==> (#[trigger] self.spec_sprites()[k]).len() == start[k].len(),
                forall|k: int, j: int|
                    0 <= k < i && 0 <= j < start[k].len() ==> self.spec_sprites()[k][j] == spec_tick(
                        start[k][j].0,
                        start[k][j].1,
                        dt as int,
                    ),
                forall|k: int, j: int|
                    i <= k < start.len() && 0 <= j < start[k].len() ==> self.spec_sprites()[k][j] == start[k][j],
            decreases self.sprites@.len() - i,
        {
            let mut j: usize = 0;
            while j < self.sprites[i].len()
                invariant
                    self.wf(),
                    self.layers@ == old(self).layers@,
                    0 <= i < self.sprites@.len(),
                    0 <= j <= self.sprites@[i as int]@.len(),
                    self.spec_sprites().len() == start.len(),
                    forall|k: int| 0 <= k < start.len() ==> (#[trigger] self.spec_sprites()[k]).len() == start[k].len(),
                    forall|k: int, l: int|
                        0 <= k < i && 0 <= l < start[k].len() ==> self.spec_sprites()[k][l] == spec_tick(
                            start[k][l].0,
                            start[k][l].1,
                            dt as int,
                        ),
                    forall|l: int|
                        0 <= l < j ==> self.spec_sprites()[i as int][l] == spec_tick(
                            start[i as int][l].0,
                            start[i as int][l].1,
                            dt as int,
                        ),
                    forall|k: int, l: int|
                        (i < k < start.len() && 0 <= l < start[k].len()) || (k == i && j <= l < start[k].len())
                            ==> self.spec_sprites()[k][l] == start[k][l],
                decreases self.sprites@[i as int]@.len() - j,
            {
                let ghost before = self.spec_sprites();
                let ghost vb = self.sprites@;
                assert(self.sprites@[i as int]@[j as int].wf());
                self.sprites[i][j].tick(dt);
                proof {
                    let target = before.update(
                        i as int,
                        before[i as int].update(
                            j as int,
                            spec_tick(before[i as int][j as int].0, before[i as int][j as int].1, dt as int),
                        ),
                    );
                    assert forall|k: int| 0 <= k < vb.len() implies #[trigger] self.spec_sprites()[k]
                        =~= target[k] by {
                        if k != i {
                            assert(self.sprites@[k] == vb[k]);
                        }
                    }
                    assert(self.spec_sprites() =~= target);
                }
                j = j + 1;
            }
            i = i + 1;
        }
        assert forall|k: int| 0 <= k < start.len() implies #[trigger] self.spec_sprites()[k]
            =~= spec_scene_tick(start, dt as int)[k] by {}
        assert(self.spec_sprites() =~= spec_scene_tick(start, dt as int));
    }
}

/// A tick of no time changes no sprite of the scene, as long as no
/// timeline starts with an action that takes no time.
pub proof fn lemma_zero_tick_keeps_scene(v: SceneView)
    requires
        forall|i: int, j: int|
            0 <= i < v.len() && 0 <= j < v[i].len() ==> (#[trigger] v[i][j]).0.wf()
                && starts_with_timed_action(v[i][j].1),
    ensures
        spec_scene_tick(v, 0) == v,
{
    assert forall|i: int, j: int| 0 <= i < v.len() && 0 <= j < v[i].len() implies spec_tick(
        v[i][j].0,
        v[i][j].1,
        0,
    ) == v[i][j] by {
        lemma_zero_tick_changes_nothing(v[i][j].0, v[i][j].1);
    }
    assert forall|i: int| 0 <= i < v.len() implies #[trigger] spec_scene_tick(v, 0)[i] == v[i] by {
        assert(spec_scene_tick(v, 0)[i] =~= v[i]);
    }
    assert(spec_scene_tick(v, 0) =~= v);
}

} // verus!
