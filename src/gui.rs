//! Anchored GUI widgets and click routing.
//!
//! A `Gui` holds layouts, each anchored to a corner, edge or the center of
//! the viewport. A vertical layout stacks its widgets from the top in the
//! order they were added, without gaps or overlap. A click goes to the first
//! widget, in the order layouts and widgets were added, that contains the
//! click and carries a message; that message is the click's result.
use crate::geom::{Point, Rect, UNIT};
use vstd::prelude::*;

verus! {

/// The largest width or height of a widget or of a layout, and the largest
/// aspect ratio, so that every rectangle fits in `i64`.
pub const MAX_EXTENT: i64 = 1000000000000;

/// Horizontal reference of an anchor.
#[derive(Clone, Copy, Debug, PartialEq, Eq, Structural)]
pub enum HAnchor {
    Left,
    Middle,
    Right,
}

/// Vertical reference of an anchor.
#[derive(Clone, Copy, Debug, PartialEq, Eq, Structural)]
pub enum VAnchor {
    Top,
    Middle,
    Bottom,
}

/// Where a layout is attached to the viewport.
#[derive(Clone, Copy, Debug, PartialEq, Eq, Structural)]
pub struct Anchor(pub HAnchor, pub VAnchor);

/// A rectangular widget: a label when it has no message, a button when it
/// has one.
#[derive(Clone, Copy, Debug)]
pub struct Widget<M> {
    pub w: i64,
    pub h: i64,
    pub message: Option<M>,
}

impl<M> Widget<M> {
    pub open spec fn wf(&self) -> bool {
        0 <= self.w <= MAX_EXTENT && 0 <= self.h <= MAX_EXTENT
    }
}

/// The size of a widget of height `h` that shows an image of
/// `image_w × image_h` pixels without distorting it.
pub open spec fn spec_scaled_width(image_w: int, image_h: int, h: int) -> int {
    h * image_w / image_h
}

/// A widget of height `h` showing an `image_w × image_h` image, scaled to
/// keep its proportions.
fn scaled<M>(image_w: u32, image_h: u32, h: i64, message: Option<M>) -> (r: Widget<M>)
    requires
        image_h > 0,
        0 <= h <= MAX_EXTENT,
        spec_scaled_width(image_w as int, image_h as int, h as int) <= MAX_EXTENT,
    ensures
        r.w == spec_scaled_width(image_w as int, image_h as int, h as int),
        r.h == h,
        r.message == message,
        r.wf(),
{
    assert(0 <= h * image_w <= 1000000000000 * 0xffff_ffff) by (nonlinear_arith)
        requires
            0 <= h <= 1000000000000,
            0 <= image_w <= 0xffff_ffff,
    ;
    let n = h as i128 * image_w as i128;
    let w = n / image_h as i128;
    Widget { w: w as i64, h, message }
}

/// A button of height `h` showing an `image_w × image_h` image; a click on
/// it yields `message`.
pub fn button<M>(image_w: u32, image_h: u32, h: i64, message: M) -> (r: Widget<M>)
    requires
        image_h > 0,
        0 <= h <= MAX_EXTENT,
        spec_scaled_width(image_w as int, image_h as int, h as int) <= MAX_EXTENT,
    ensures
        r.w == spec_scaled_width(image_w as int, image_h as int, h as int),
        r.h == h,
        r.message == Some(message),
        r.wf(),
{
    scaled(image_w, image_h, h, Some(message))
}

/// A label of height `h` showing an `image_w × image_h` image; it takes no
/// clicks.
pub fn label<M>(image_w: u32, image_h: u32, h: i64) -> (r: Widget<M>)
    requires
        image_h > 0,
        0 <= h <= MAX_EXTENT,
        spec_scaled_width(image_w as int, image_h as int, h as int) <= MAX_EXTENT,
    ensures
        r.w == spec_scaled_width(image_w as int, image_h as int, h as int),
        r.h == h,
        r.message == None::<M>,
        r.wf(),
{
    scaled(image_w, image_h, h, None)
}

/// The total height of a column of widgets.
pub open spec fn sum_heights<M>(ws: Seq<Widget<M>>) -> int
    decreases ws.len(),
{
    if ws.len() == 0 {
        0
    } else {
        sum_heights(ws.drop_last()) + ws.last().h
    }
}

/// The width of the widest of the widgets.
pub open spec fn max_width<M>(ws: Seq<Widget<M>>) -> int
    decreases ws.len(),
{
    if ws.len() == 0 {
        0
    } else {
        let rest = max_width(ws.drop_last());
        if ws.last().w > rest {
            ws.last().w as int
        } else {
            rest
        }
    }
}

/// Where a layout of size `w × h` with anchor `a` has its left edge, in a
/// viewport of aspect ratio `ar`.
pub open spec fn anchor_x(a: Anchor, w: int, ar: int) -> int {
    match a.0 {
        HAnchor::Left => -ar,
        HAnchor::Middle => -(w / 2),
        HAnchor::Right => ar - w,
    }
}

/// Where a layout of height `h` with anchor `a` has its top edge.
pub open spec fn anchor_y(a: Anchor, h: int) -> int {
    match a.1 {
        VAnchor::Top => -UNIT,
        VAnchor::Middle => -(h / 2),
        VAnchor::Bottom => UNIT - h,
    }
}

/// The rectangle of the `i`-th widget of a vertical layout.
pub open spec fn spec_widget_rect<M>(ws: Seq<Widget<M>>, a: Anchor, ar: int, i: int) -> Rect {
    Rect {
        x: anchor_x(a, max_width(ws), ar) as i64,
        y: (anchor_y(a, sum_heights(ws)) + sum_heights(ws.take(i))) as i64,
        w: ws[i].w,
        h: ws[i].h,
    }
}

/// The rectangles of the widgets of a vertical layout.
pub open spec fn spec_layout_rects<M>(ws: Seq<Widget<M>>, a: Anchor, ar: int) -> Seq<Rect> {
    Seq::new(ws.len(), |i: int| spec_widget_rect(ws, a, ar, i))
}

/// Widgets stacked vertically, in the order they were added.
#[derive(Debug)]
pub struct VLayout<M> {
    widgets: Vec<Widget<M>>,
}

impl<M> View for VLayout<M> {
    type V = Seq<Widget<M>>;

    closed spec fn view(&self) -> Seq<Widget<M>> {
        self.widgets@
    }
}

/// All widgets are well formed and their heights add up to at most
/// `MAX_EXTENT`.
pub open spec fn column_wf<M>(ws: Seq<Widget<M>>) -> bool {
    &&& forall|i: int| 0 <= i < ws.len() ==> (#[trigger] ws[i]).wf()
    &&& sum_heights(ws) <= MAX_EXTENT
}

proof fn lemma_sum_heights_bounds<M>(ws: Seq<Widget<M>>, i: int)
    requires
        forall|j: int| 0 <= j < ws.len() ==> (#[trigger] ws[j]).wf(),
        0 <= i <= ws.len(),
    ensures
        0 <= sum_heights(ws.take(i)) <= sum_heights(ws),
    decreases ws.len(),
{
    if ws.len() > 0 {
        if i == ws.len() {
            assert(ws.take(i) == ws);
            lemma_sum_heights_bounds(ws.drop_last(), i - 1);
            assert(ws.drop_last().take(i - 1) == ws.drop_last());
        } else {
            lemma_sum_heights_bounds(ws.drop_last(), i);
            assert(ws.drop_last().take(i) == ws.take(i));
        }
    }
}

proof fn lemma_max_width_bounds<M>(ws: Seq<Widget<M>>)
    requires
        forall|j: int| 0 <= j < ws.len() ==> (#[trigger] ws[j]).wf(),
    ensures
        0 <= max_width(ws) <= MAX_EXTENT,
    decreases ws.len(),
{
    if ws.len() > 0 {
        lemma_max_width_bounds(ws.drop_last());
    }
}

impl<M> VLayout<M> {
    pub fn new() -> (r: VLayout<M>)
        ensures
            r@ == Seq::<Widget<M>>::empty(),
    {
        VLayout { widgets: Vec::new() }
    }

    /// Adds a widget under those already there.
    pub fn add(&mut self, widget: Widget<M>)
        requires
            column_wf(old(self)@),
            widget.wf(),
            sum_heights(old(self)@) + widget.h <= MAX_EXTENT,
        ensures
            final(self)@ == old(self)@.push(widget),
            column_wf(final(self)@),
    {
        self.widgets.push(widget);
        assert(self@.drop_last() == old(self)@);
    }
}

/// A layout with its anchor.
#[derive(Debug)]
pub struct Group<M> {
    pub anchor: Anchor,
    pub widgets: Vec<Widget<M>>,
}

/// Whether widget `i` of a layout with rectangles `rects` takes a click at `p`.
pub open spec fn takes_click<M>(ws: Seq<Widget<M>>, rects: Seq<Rect>, p: Point, i: int) -> bool {
    rects[i].spec_contains(p) && ws[i].message is Some
}

/// The message of the first widget from the `i`-th on that takes a click at `p`.
pub open spec fn spec_group_click<M>(
    ws: Seq<Widget<M>>,
    rects: Seq<Rect>,
    p: Point,
    i: int,
) -> Option<M>
    decreases ws.len() - i,
{
    if i < 0 || i >= ws.len() {
        None
    } else if takes_click(ws, rects, p, i) {
        ws[i].message
    } else {
        spec_group_click(ws, rects, p, i + 1)
    }
}

/// The message of the first widget of the `g`-th layout on that takes a click.
pub open spec fn spec_click<M>(groups: Seq<Group<M>>, rects: Seq<Seq<Rect>>, p: Point, g: int) -> Option<M>
    decreases groups.len() - g,
{
    if g < 0 || g >= groups.len() {
        None
    } else {
        match spec_group_click(groups[g].widgets@, rects[g], p, 0) {
            Some(m) => Some(m),
            None => spec_click(groups, rects, p, g + 1),
        }
    }
}

/// The rectangles of every layout in a viewport of aspect ratio `ar`.
pub open spec fn spec_layout<M>(groups: Seq<Group<M>>, ar: int) -> Seq<Seq<Rect>> {
    Seq::new(groups.len(), |g: int| spec_layout_rects(groups[g].widgets@, groups[g].anchor, ar))
}

/// A GUI as its layouts and their widgets' rectangles, after a resize.
pub open spec fn spec_resize<M>(state: (Seq<Group<M>>, Seq<Seq<Rect>>), ar: int) -> (
    Seq<Group<M>>,
    Seq<Seq<Rect>>,
) {
    (state.0, spec_layout(state.0, ar))
}

/// The anchored layouts of one screen, routing clicks to messages of type `M`.
#[derive(Debug)]
pub struct Gui<M> {
    groups: Vec<Group<M>>,
    rects: Vec<Vec<Rect>>,
    aspect_ratio: i64,
}

impl<M> View for Gui<M> {
    type V = (Seq<Group<M>>, Seq<Seq<Rect>>);

    closed spec fn view(&self) -> (Seq<Group<M>>, Seq<Seq<Rect>>) {
        (self.groups@, Seq::new(self.rects@.len(), |g: int| self.rects@[g]@))
    }
}

impl<M: Copy> Gui<M> {
    pub closed spec fn spec_aspect_ratio(&self) -> int {
        self.aspect_ratio as int
    }

    /// The layouts are well formed, their rectangles are those of the current
    /// aspect ratio.
    pub open spec fn wf(&self) -> bool {
        &&& 0 < self.spec_aspect_ratio() <= MAX_EXTENT
        &&& forall|g: int| 0 <= g < self@.0.len() ==> column_wf(#[trigger] self@.0[g].widgets@)
        &&& self@.1 == spec_layout(self@.0, self.spec_aspect_ratio())
    }

    proof fn lemma_wf_lengths(&self)
        requires
            self.wf(),
        ensures
            self.rects@.len() == self.groups@.len(),
            forall|g: int| 0 <= g < self.groups@.len() ==> column_wf(#[trigger] self.groups@[g].widgets@),
            self@.1 == spec_layout(self.groups@, self.aspect_ratio as int),
    {
        assert(self@.1.len() == self.rects@.len());
    }

    /// A GUI with no layout, for a square viewport.
    pub fn new() -> (r: Gui<M>)
        ensures
            r.wf(),
            r@.0 == Seq::<Group<M>>::empty(),
            r.spec_aspect_ratio() == UNIT,
    {
        let r = Gui { groups: Vec::new(), rects: Vec::new(), aspect_ratio: UNIT };
        assert(r@.1 =~= spec_layout(r.groups@, UNIT as int));
        r
    }

    /// The rectangles of a vertical layout's widgets.
    fn layout_rects(ws: &Vec<Widget<M>>, anchor: Anchor, ar: i64) -> (r: Vec<Rect>)
        requires
            column_wf(ws@),
            0 < ar <= MAX_EXTENT,
        ensures
            r@ == spec_layout_rects(ws@, anchor, ar as int),
    {
        // The size of the whole layout.
        let mut width: i64 = 0;
        let mut height: i64 = 0;
        let mut i: usize = 0;
        while i < ws.len()
            invariant
                column_wf(ws@),
                0 <= i <= ws@.len(),
                width == max_width(ws@.take(i as int)),
                height == sum_heights(ws@.take(i as int)),
            decreases ws@.len() - i,
        {
            proof {
                lemma_sum_heights_bounds(ws@, i as int + 1);
                lemma_max_width_bounds(ws@.take(i as int));
                assert(ws@.take(i as int + 1).drop_last() == ws@.take(i as int));
                assert(ws@[i as int].wf());
            }
            if ws[i].w > width {
                width = ws[i].w;
            }
            height = height + ws[i].h;
            i = i + 1;
        }
        assert(ws@.take(ws@.len() as int) == ws@);
        proof {
            lemma_sum_heights_bounds(ws@, ws@.len() as int);
            lemma_max_width_bounds(ws@);
        }
        let x0: i64 = match anchor.0 {
            HAnchor::Left => -ar,
            HAnchor::Middle => -(width / 2),
            HAnchor::Right => ar - width,
        };
        let y0: i64 = match anchor.1 {
            VAnchor::Top => -UNIT,
            VAnchor::Middle => -(height / 2),
            VAnchor::Bottom => UNIT - height,
        };
        let mut rects: Vec<Rect> = Vec::new();
        let mut above: i64 = 0;
        let mut j: usize = 0;
        while j < ws.len()
            invariant
                column_wf(ws@),
                0 <= j <= ws@.len(),
                0 < ar <= MAX_EXTENT,
                x0 == anchor_x(anchor, max_width(ws@), ar as int),
                y0 == anchor_y(anchor, sum_heights(ws@)),
                -MAX_EXTENT <= y0 <= UNIT,
                above == sum_heights(ws@.take(j as int)),
                rects@.len() == j,
                forall|k: int| 0 <= k < j ==> rects@[k] == spec_widget_rect(ws@, anchor, ar as int, k),
            decreases ws@.len() - j,
        {
            proof {
                lemma_sum_heights_bounds(ws@, j as int + 1);
                lemma_sum_heights_bounds(ws@, j as int);
                assert(ws@.take(j as int + 1).drop_last() == ws@.take(j as int));
                assert(ws@[j as int].wf());
            }
            rects.push(Rect { x: x0, y: y0 + above, w: ws[j].w, h: ws[j].h });
            above = above + ws[j].h;
            j = j + 1;
        }
        assert(rects@ =~= spec_layout_rects(ws@, anchor, ar as int));
        rects
    }

    /// Adds a layout at `anchor`, laid out for the current aspect ratio.
    pub fn add(&mut self, layout: VLayout<M>, anchor: Anchor)
        requires
            old(self).wf(),
            column_wf(layout@),
        ensures
            final(self).wf(),
            final(self)@.0.len() == old(self)@.0.len() + 1,
            final(self)@.0.drop_last() == old(self)@.0,
            final(self)@.0.last().anchor == anchor,
            final(self)@.0.last().widgets@ == layout@,
            final(self).spec_aspect_ratio() == old(self).spec_aspect_ratio(),
    {
        proof {
            self.lemma_wf_lengths();
        }
        let rects = Self::layout_rects(&layout.widgets, anchor, self.aspect_ratio);
        self.groups.push(Group { anchor, widgets: layout.widgets });
        self.rects.push(rects);
        assert(self@.0.drop_last() == old(self)@.0);
        assert forall|g: int| 0 <= g < self.groups@.len() implies #[trigger] self@.1[g] == spec_layout(
            self.groups@,
            self.aspect_ratio as int,
        )[g] by {
            if g < old(self).groups@.len() {
                assert(self.groups@[g] == old(self).groups@[g]);
                assert(old(self)@.1[g] == spec_layout(old(self).groups@, self.aspect_ratio as int)[g]);
            }
        }
        assert(self@.1 =~= spec_layout(self.groups@, self.aspect_ratio as int));
    }

    /// Lays every widget out again for a viewport of aspect ratio
    /// `aspect_ratio`.
    pub fn resize(&mut self, aspect_ratio: i64)
        requires
            old(self).wf(),
            0 < aspect_ratio <= MAX_EXTENT,
        ensures
            final(self).wf(),
            final(self)@ == spec_resize(old(self)@, aspect_ratio as int),
            final(self).spec_aspect_ratio() == aspect_ratio,
    {
        proof {
            self.lemma_wf_lengths();
        }
        let mut all: Vec<Vec<Rect>> = Vec::new();
        let mut g: usize = 0;
        while g < self.groups.len()
            invariant
                self.wf(),
                0 < aspect_ratio <= MAX_EXTENT,
                0 <= g <= self.groups@.len(),
                all@.len() == g,
                forall|k: int|
                    0 <= k < g ==> (#[trigger] all@[k])@ == spec_layout_rects(
                        self.groups@[k].widgets@,
                        self.groups@[k].anchor,
                        aspect_ratio as int,
                    ),
            decreases self.groups@.len() - g,
        {
            proof {
                self.lemma_wf_lengths();
            }
            assert(column_wf(self.groups@[g as int].widgets@));
            let rects = Self::layout_rects(&self.groups[g].widgets, self.groups[g].anchor, aspect_ratio);
            all.push(rects);
            g = g + 1;
        }
        self.rects = all;
        self.aspect_ratio = aspect_ratio;
        assert(self@.1 =~= spec_layout(self.groups@, aspect_ratio as int));
    }

    /// How many layouts the GUI holds.
    pub fn group_count(&self) -> (r: usize)
        ensures
            r == self@.0.len(),
    {
        self.groups.len()
    }

    /// The `g`-th layout.
    pub fn group(&self, g: usize) -> (r: &Group<M>)
        requires
            g < self@.0.len(),
        ensures
            *r == self@.0[g as int],
    {
        &self.groups[g]
    }

    /// The rectangle of widget `i` of layout `g`.
    pub fn rect(&self, g: usize, i: usize) -> (r: Rect)
        requires
            self.wf(),
            g < self@.0.len(),
            i < self@.0[g as int].widgets@.len(),
        ensures
            r == self@.1[g as int][i as int],
    {
        proof {
            self.lemma_wf_lengths();
        }
        assert(self@.1[g as int] == spec_layout_rects(
            self.groups@[g as int].widgets@,
            self.groups@[g as int].anchor,
            self.aspect_ratio as int,
        ));
        self.rects[g][i]
    }

    /// The message of the first widget that contains `pos` and carries a
    /// message, or `None` when no such widget is there.
    pub fn click(&self, pos: Point) -> (r: Option<M>)
        requires
            self.wf(),
        ensures
            r == spec_click(self@.0, self@.1, pos, 0),
    {
        proof {
            self.lemma_wf_lengths();
        }
        let mut g: usize = 0;
        while g < self.groups.len()
            invariant
                self.wf(),
                0 <= g <= self.groups@.len(),
                spec_click(self@.0, self@.1, pos, 0) == spec_click(self@.0, self@.1, pos, g as int),
            decreases self.groups@.len() - g,
        {
            proof {
                self.lemma_wf_lengths();
            }
            let ws = &self.groups[g].widgets;
            let rects = &self.rects[g];
            assert(rects@ == self@.1[g as int]);
            let mut i: usize = 0;
            while i < ws.len()
                invariant
                    0 <= i <= ws@.len(),
                    self.wf(),
                    0 <= g < self.groups@.len(),
                    ws@ == self@.0[g as int].widgets@,
                    rects@ == self@.1[g as int],
                    spec_click(self@.0, self@.1, pos, 0) == spec_click(self@.0, self@.1, pos, g as int),
                    rects@.len() == ws@.len(),
                    spec_group_click(ws@, rects@, pos, 0) == spec_group_click(ws@, rects@, pos, i as int),
                decreases ws@.len() - i,
            {
                if rects[i].contains(pos) && ws[i].message.is_some() {
                    return ws[i].message;
                }
                i = i + 1;
            }
            g = g + 1;
        }
        None
    }
}

/// A vertical layout stacks its widgets in the order they were added, each
/// starting where the one before ends: no gaps and no overlap.
pub proof fn lemma_layout_has_no_gaps<M>(ws: Seq<Widget<M>>, a: Anchor, ar: int, i: int)
    requires
        column_wf(ws),
        0 < ar <= MAX_EXTENT,
        0 <= i,
        i + 1 < ws.len(),
    ensures
        spec_layout_rects(ws, a, ar)[i + 1].y == spec_layout_rects(ws, a, ar)[i].y + ws[i].h,
        spec_layout_rects(ws, a, ar)[i + 1].x == spec_layout_rects(ws, a, ar)[i].x,
{
    lemma_sum_heights_bounds(ws, i);
    lemma_sum_heights_bounds(ws, i + 1);
    lemma_sum_heights_bounds(ws, ws.len() as int);
    assert(ws.take(ws.len() as int) == ws);
    assert(ws.take(i + 1).drop_last() == ws.take(i));
    assert(ws[i].wf());
}

/// Resizing twice to the same aspect ratio gives the same layout as resizing
/// once.
pub proof fn lemma_resize_idempotent<M>(state: (Seq<Group<M>>, Seq<Seq<Rect>>), ar: int)
    ensures
        spec_resize(spec_resize(state, ar), ar) == spec_resize(state, ar),
{
}

proof fn lemma_group_click_first<M>(ws: Seq<Widget<M>>, rects: Seq<Rect>, p: Point, i: int, j: int)
    requires
        0 <= i <= j < ws.len(),
        takes_click(ws, rects, p, j),
        forall|k: int| i <= k < j ==> !takes_click(ws, rects, p, k),
    ensures
        spec_group_click(ws, rects, p, i) == ws[j].message,
    decreases j - i,
{
    if i < j {
        lemma_group_click_first(ws, rects, p, i + 1, j);
    }
}

proof fn lemma_group_click_none<M>(ws: Seq<Widget<M>>, rects: Seq<Rect>, p: Point, i: int)
    requires
        0 <= i,
        forall|k: int| i <= k < ws.len() ==> !takes_click(ws, rects, p, k),
    ensures
        spec_group_click(ws, rects, p, i) == None::<M>,
    decreases ws.len() - i,
{
    if i < ws.len() {
        lemma_group_click_none(ws, rects, p, i + 1);
    }
}

/// Whether widget `i` of layout `g` takes a click at `p`.
pub open spec fn gui_takes_click<M>(
    groups: Seq<Group<M>>,
    rects: Seq<Seq<Rect>>,
    p: Point,
    g: int,
    i: int,
) -> bool {
    0 <= g < groups.len() && 0 <= i < groups[g].widgets@.len() && takes_click(
        groups[g].widgets@,
        rects[g],
        p,
        i,
    )
}

proof fn lemma_click_skips<M>(groups: Seq<Group<M>>, rects: Seq<Seq<Rect>>, p: Point, h: int, g: int)
    requires
        0 <= h <= g <= groups.len(),
        forall|a: int, k: int| h <= a < g ==> !gui_takes_click(groups, rects, p, a, k),
    ensures
        spec_click(groups, rects, p, h) == spec_click(groups, rects, p, g),
    decreases g - h,
{
    if h < g {
        assert forall|k: int| 0 <= k < groups[h].widgets@.len() implies !takes_click(
            groups[h].widgets@,
            rects[h],
            p,
            k,
        ) by {
            assert(!gui_takes_click(groups, rects, p, h, k));
        }
        lemma_group_click_none(groups[h].widgets@, rects[h], p, 0);
        lemma_click_skips(groups, rects, p, h + 1, g);
    }
}

/// A click that falls inside exactly one widget carrying a message yields
/// that widget's message, and no other.
pub proof fn lemma_click_routes_to_the_one_widget<M>(
    groups: Seq<Group<M>>,
    rects: Seq<Seq<Rect>>,
    p: Point,
    g: int,
    i: int,
)
    requires
        gui_takes_click(groups, rects, p, g, i),
        forall|a: int, k: int|
            gui_takes_click(groups, rects, p, a, k) ==> a == g && k == i,
    ensures
        spec_click(groups, rects, p, 0) == groups[g].widgets@[i].message,
{
    lemma_click_skips(groups, rects, p, 0, g);
    assert forall|k: int| 0 <= k < i implies !takes_click(groups[g].widgets@, rects[g], p, k) by {
        if takes_click(groups[g].widgets@, rects[g], p, k) {
            assert(gui_takes_click(groups, rects, p, g, k));
        }
    }
    lemma_group_click_first(groups[g].widgets@, rects[g], p, 0, i);
}

/// A click that falls inside no widget carrying a message yields nothing.
pub proof fn lemma_click_on_dead_space<M>(groups: Seq<Group<M>>, rects: Seq<Seq<Rect>>, p: Point)
    requires
        forall|a: int, k: int| !gui_takes_click(groups, rects, p, a, k),
    ensures
        spec_click(groups, rects, p, 0) == None::<M>,
{
    lemma_click_skips(groups, rects, p, 0, groups.len() as int);
}

} // verus!
