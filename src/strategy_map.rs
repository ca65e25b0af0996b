//! The strategy map screen: a menu of two buttons over a scene, from which a
//! battle is started as a child screen whose outcome comes back through a
//! result channel.
use crate::channel::{spec_after_poll, spec_open, spec_polled, Mailbox, Receiver, Sender};
use crate::geom::{Point, UNIT};
use crate::gui::{
    button, column_wf, spec_click, spec_layout_rects, spec_resize, spec_scaled_width, Anchor,
    Group, Gui, HAnchor, VAnchor, VLayout, Widget, MAX_EXTENT,
};
use crate::scene::{spec_scene_tick, Layer, Scene, Sprite, SpriteState};
use vstd::prelude::*;

verus! {

/// What the buttons of the strategy map ask for.
#[derive(Clone, Copy, Debug, PartialEq, Eq, Structural)]
pub enum Message {
    Menu,
    StartBattle,
}

/// The height of the map's buttons.
pub const BUTTON_HEIGHT: i64 = 200000;

/// Whether an image of `w × h` pixels can be shown on a button.
pub open spec fn fits_button(w: int, h: int) -> bool {
    h > 0 && spec_scaled_width(w, h, BUTTON_HEIGHT as int) <= MAX_EXTENT
}

/// The map's buttons: "start battle" above "menu", at the top left corner.
pub open spec fn spec_map_buttons(start_w: int, start_h: int, menu_w: int, menu_h: int) -> Seq<Widget<Message>> {
    seq![
        Widget {
            w: spec_scaled_width(start_w, start_h, BUTTON_HEIGHT as int) as i64,
            h: BUTTON_HEIGHT,
            message: Some(Message::StartBattle),
        },
        Widget {
            w: spec_scaled_width(menu_w, menu_h, BUTTON_HEIGHT as int) as i64,
            h: BUTTON_HEIGHT,
            message: Some(Message::Menu),
        },
    ]
}

/// The map's GUI, given the sizes in pixels of the images of its two
/// buttons.
pub fn make_gui(start_w: u32, start_h: u32, menu_w: u32, menu_h: u32) -> (r: Gui<Message>)
    requires
        fits_button(start_w as int, start_h as int),
        fits_button(menu_w as int, menu_h as int),
    ensures
        r.wf(),
        r.spec_aspect_ratio() == UNIT,
        r@.0.len() == 1,
        r@.0[0].anchor == Anchor(HAnchor::Left, VAnchor::Top),
        r@.0[0].widgets@ == spec_map_buttons(start_w as int, start_h as int, menu_w as int, menu_h as int),
{
    let mut gui = Gui::new();
    let button_start_battle = button(start_w, start_h, BUTTON_HEIGHT, Message::StartBattle);
    let button_menu = button(menu_w, menu_h, BUTTON_HEIGHT, Message::Menu);
    let mut layout = VLayout::new();
    assert(column_wf(layout@));
    layout.add(button_start_battle);
    assert(layout@.drop_last() == Seq::<Widget<Message>>::empty());
    layout.add(button_menu);
    let anchor = Anchor(HAnchor::Left, VAnchor::Top);
    gui.add(layout, anchor);
    assert(gui@.0[0].widgets@ =~= spec_map_buttons(start_w as int, start_h as int, menu_w as int, menu_h as int));
    gui
}

/// The layers of the map's scene.
#[derive(Clone, Copy, Debug)]
pub struct Layers {
    pub fg: Layer,
}

impl Default for Layers {
    fn default() -> (r: Layers)
        ensures
            r.fg == (Layer { id: 0 }),
    {
        Layers { fg: Layer::new(0) }
    }
}

impl Layers {
    /// The layers in drawing order.
    pub fn sorted(self) -> (r: Vec<Layer>)
        ensures
            r@ == seq![self.fg],
    {
        let mut r = Vec::new();
        r.push(self.fg);
        r
    }
}

/// What the strategy map asks of the screen stack.
#[derive(Debug)]
pub enum Command {
    /// Stay on the map.
    Stay,
    /// Leave the map.
    Exit,
    /// Push a battle that reports its outcome through this sender.
    StartBattle(Sender),
}

/// The strategy map screen.
#[derive(Debug)]
pub struct StrategyMap {
    gui: Gui<Message>,
    sprite: Sprite,
    scene: Scene,
    layers: Layers,
    receiver: Option<Receiver>,
}

impl StrategyMap {
    pub closed spec fn spec_gui(&self) -> Gui<Message> {
        self.gui
    }

    pub closed spec fn spec_scene(&self) -> Scene {
        self.scene
    }

    pub closed spec fn spec_sprite(&self) -> Sprite {
        self.sprite
    }

    /// The channel of the battle whose outcome the map waits for, if any.
    pub closed spec fn awaiting(&self) -> Option<nat> {
        match self.receiver {
            Some(r) => Some(r.id()),
            None => None,
        }
    }

    /// The map's layers are those its scene was made with.
    pub closed spec fn layers_ok(&self) -> bool {
        self.layers.fg == (Layer { id: 0 })
    }

    pub open spec fn wf(&self) -> bool {
        &&& self.spec_gui().wf()
        &&& self.spec_sprite().wf()
        &&& self.spec_scene().wf()
        &&& self.layers_ok()
    }

    /// The map holds no channel that `slots` does not have.
    pub open spec fn awaits_within<R>(&self, slots: Seq<Option<R>>) -> bool {
        match self.awaiting() {
            Some(id) => id < slots.len(),
            None => true,
        }
    }

    /// A strategy map whose buttons show images of the given sizes in pixels.
    pub fn new(start_w: u32, start_h: u32, menu_w: u32, menu_h: u32) -> (r: StrategyMap)
        requires
            fits_button(start_w as int, start_h as int),
            fits_button(menu_w as int, menu_h as int),
        ensures
            r.wf(),
            r.awaiting() == None::<nat>,
            r.spec_gui().spec_aspect_ratio() == UNIT,
            r.spec_gui()@.0.len() == 1,
            r.spec_gui()@.0[0].anchor == Anchor(HAnchor::Left, VAnchor::Top),
            r.spec_gui()@.0[0].widgets@ == spec_map_buttons(
                start_w as int,
                start_h as int,
                menu_w as int,
                menu_h as int,
            ),
            r.spec_sprite()@.0.x == UNIT / 2,
            r.spec_sprite()@.0.y == UNIT / 2,
            r.spec_sprite()@.0.visible,
            r.spec_sprite().spec_centered(),
            r.spec_scene().spec_layers() == seq![Layer { id: 0 }],
            r.spec_scene().spec_sprites() == seq![Seq::<(SpriteState, Seq<crate::scene::Action>)>::empty()],
    {
        let gui = make_gui(start_w, start_h, menu_w, menu_h);
        let mut sprite = Sprite::new();
        sprite.set_centered(true);
        sprite.set_pos(Point::new(UNIT / 2, UNIT / 2));
        let layers = Layers::default();
        let scene = Scene::new(layers.sorted());
        assert(scene.spec_sprites()[0] =~= Seq::<(SpriteState, Seq<crate::scene::Action>)>::empty());
        assert(scene.spec_sprites() =~= seq![Seq::<(SpriteState, Seq<crate::scene::Action>)>::empty()]);
        StrategyMap { gui, sprite, scene, layers, receiver: None }
    }

    pub fn gui(&self) -> (r: &Gui<Message>)
        ensures
            *r == self.spec_gui(),
    {
        &self.gui
    }

    pub fn scene(&self) -> (r: &Scene)
        ensures
            *r == self.spec_scene(),
    {
        &self.scene
    }

    pub fn sprite(&self) -> (r: &Sprite)
        ensures
            *r == self.spec_sprite(),
    {
        &self.sprite
    }

    /// The layers of the map's scene.
    pub fn layers(&self) -> (r: Layers)
        requires
            self.wf(),
        ensures
            r.fg == (Layer { id: 0 }),
    {
        self.layers
    }

    /// Advances the scene by `dt` milliseconds and polls the channel of the
    /// battle the map waits for, without blocking. A received outcome is
    /// returned, and the map then waits for nothing.
    pub fn update<R>(&mut self, mailbox: &mut Mailbox<R>, dt: u64) -> (r: Option<R>)
        requires
            old(self).wf(),
            old(self).awaits_within(old(mailbox)@),
        ensures
            final(self).wf(),
            final(self).awaits_within(final(mailbox)@),
            final(self).spec_gui() == old(self).spec_gui(),
            final(self).spec_sprite() == old(self).spec_sprite(),
            final(self).spec_scene().spec_layers() == old(self).spec_scene().spec_layers(),
            final(self).spec_scene().spec_sprites() == spec_scene_tick(
                old(self).spec_scene().spec_sprites(),
                dt as int,
            ),
            match old(self).awaiting() {
                Some(id) => {
                    &&& r == spec_polled(old(mailbox)@, id)
                    &&& final(mailbox)@ == spec_after_poll(old(mailbox)@, id)
                    &&& final(self).awaiting() == if r is Some {
                        None
                    } else {
                        Some(id)
                    }
                },
                None => r is None && final(mailbox)@ == old(mailbox)@ && final(self).awaiting() == None::<
                    nat,
                >,
            },
    {
        self.scene.tick(dt);
        let outcome = match &self.receiver {
            Some(receiver) => mailbox.try_recv(receiver),
            None => None,
        };
        if outcome.is_some() {
            self.receiver = None;
        }
        outcome
    }

    /// Lays the buttons out for a viewport of the given aspect ratio.
    pub fn resize(&mut self, aspect_ratio: i64)
        requires
            old(self).wf(),
            0 < aspect_ratio <= MAX_EXTENT,
        ensures
            final(self).wf(),
            final(self).spec_gui()@ == spec_resize(old(self).spec_gui()@, aspect_ratio as int),
            final(self).awaiting() == old(self).awaiting(),
            final(self).spec_scene() == old(self).spec_scene(),
            final(self).spec_sprite() == old(self).spec_sprite(),
    {
        self.gui.resize(aspect_ratio);
    }

    /// Handles a click at `pos`. "Start battle" opens a fresh channel, keeps
    /// its receiving end in place of any earlier one and hands the sending
    /// end out for the battle; "menu" leaves the map; elsewhere nothing
    /// happens.
    pub fn click<R>(&mut self, mailbox: &mut Mailbox<R>, pos: Point) -> (r: Command)
        requires
            old(self).wf(),
            old(self).awaits_within(old(mailbox)@),
            old(mailbox)@.len() < usize::MAX,
        ensures
            final(self).wf(),
            final(self).awaits_within(final(mailbox)@),
            final(self).spec_gui() == old(self).spec_gui(),
            final(self).spec_scene() == old(self).spec_scene(),
            final(self).spec_sprite() == old(self).spec_sprite(),
            match spec_click(old(self).spec_gui()@.0, old(self).spec_gui()@.1, pos, 0) {
                Some(Message::StartBattle) => {
                    &&& r matches Command::StartBattle(s) && s.id() == old(mailbox)@.len()
                    &&& final(mailbox)@ == spec_open(old(mailbox)@)
                    &&& final(self).awaiting() == Some(old(mailbox)@.len())
                },
                Some(Message::Menu) => r is Exit && final(mailbox)@ == old(mailbox)@
                    && final(self).awaiting() == old(self).awaiting(),
                None => r is Stay && final(mailbox)@ == old(mailbox)@ && final(self).awaiting()
                    == old(self).awaiting(),
            },
    {
        let message = self.gui.click(pos);
        match message {
            Some(Message::StartBattle) => {
                let (sender, receiver) = mailbox.channel();
                self.receiver = Some(receiver);
                Command::StartBattle(sender)
            },
            Some(Message::Menu) => Command::Exit,
            None => Command::Stay,
        }
    }
}

} // verus!
