//! The space of the xdg-shell wrapper: every wrapped window is composited onto
//! one shared layer surface, which takes the largest size among them; one
//! window at a time is active.

use vstd::prelude::*;

use crate::config::{LayerLayout, LayerSurfaceSetup, layer_setup_spec};
use crate::events::{PopupRenderEvent, RenderEvent};
use crate::geometry::{Rectangle, constrain_dim_by_min_max, constrained_by_min_max, max_u32};
use crate::renderer::{ServerSurface, find_popup, is_first_popup, new_popup};
use crate::surface::{Popup, handle_popup_events, popups_after_events};

verus! {

/// Whether a window is the active one, and whether it has been drawn since.
#[derive(Clone, Copy, Debug, PartialEq, Eq, Structural)]
pub enum ActiveState {
    /// the active window; `true` once it is fully rendered
    ActiveFullyRendered(bool),
    /// an inactive window; `true` once it has been cleared
    InactiveCleared(bool),
}

/// A window of the space.
#[derive(Debug)]
pub struct SpaceTopLevel {
    /// id of the embedded window's surface
    pub s_top_level: u64,
    /// the embedded window's surface still exists
    pub alive: bool,
    /// size of the window
    pub dimensions: (u32, u32),
    /// the first window that was wrapped
    pub is_root: bool,
    /// the window needs to be rendered
    pub dirty: bool,
    /// whether the window is the active one
    pub active: ActiveState,
    /// popups of the window
    pub popups: Vec<Popup>,
}

/// A window of the space as a mathematical value.
#[verifier::ext_equal]
pub struct SpaceTopLevelView {
    pub s_top_level: u64,
    pub alive: bool,
    pub dimensions: (u32, u32),
    pub is_root: bool,
    pub dirty: bool,
    pub active: ActiveState,
    pub popups: Seq<Popup>,
}

impl View for SpaceTopLevel {
    type V = SpaceTopLevelView;

    open spec fn view(&self) -> SpaceTopLevelView {
        SpaceTopLevelView {
            s_top_level: self.s_top_level,
            alive: self.alive,
            dimensions: self.dimensions,
            is_root: self.is_root,
            dirty: self.dirty,
            active: self.active,
            popups: self.popups@,
        }
    }
}

/// The space of the xdg-shell wrapper.
#[derive(Debug)]
pub struct Space {
    /// the wrapped windows
    pub toplevels: Vec<SpaceTopLevel>,
    /// id of the shared layer surface's `wl_surface` on the desktop compositor
    pub layer_surface: u64,
    /// the output (id and name) to show the layer surface on
    pub output: Option<(u64, String)>,
    /// how the layer surface is laid out
    pub layout: LayerLayout,
    /// the display still has to be bound to the renderer
    pub needs_update: bool,
    /// size of the shared layer surface
    pub dimensions: (u32, u32),
    /// what the shared layer surface waits for before it renders
    pub next_render_event: Option<RenderEvent>,
    /// surface id of the window that has keyboard focus
    pub focused_surface: Option<u64>,
}

/// What handling events asks of the drawing side.
#[derive(Debug)]
pub struct SpaceWork {
    /// the shared layer surface or the root window is gone: stop the wrapped command
    pub kill_child: bool,
    /// resize the shared EGL surface to this size
    pub resize: Option<(u32, u32)>,
    /// draw these windows (by surface id), in order
    pub rendered: Vec<u64>,
    /// resize the EGL surface of these popups (by desktop surface id)
    pub popup_resizes: Vec<(u64, i32, i32)>,
}

pub open spec fn space_views(s: Seq<SpaceTopLevel>) -> Seq<SpaceTopLevelView> {
    s.map_values(|t: SpaceTopLevel| t@)
}

pub open spec fn is_active(a: ActiveState) -> bool {
    a is ActiveFullyRendered
}

/// The first active window.
pub open spec fn is_first_active(vs: Seq<SpaceTopLevelView>, i: int) -> bool {
    &&& 0 <= i < vs.len()
    &&& is_active(vs[i].active)
    &&& forall|j: int| 0 <= j < i ==> !is_active(vs[j].active)
}

/// The windows after the active one moves on: with an active window at `c`,
/// the one after it (wrapping around) becomes the only active one; with none,
/// the first window becomes active. Every window that changes is to be
/// rendered again.
pub open spec fn cycled(vs: Seq<SpaceTopLevelView>) -> Seq<SpaceTopLevelView> {
    if exists|c: int| is_first_active(vs, c) {
        let c = choose|c: int| is_first_active(vs, c);
        let n = (c + 1) % (vs.len() as int);
        Seq::new(
            vs.len(),
            |i: int|
                SpaceTopLevelView {
                    active: if i == n {
                        ActiveState::ActiveFullyRendered(false)
                    } else {
                        ActiveState::InactiveCleared(false)
                    },
                    dirty: true,
                    ..vs[i]
                },
        )
    } else if vs.len() > 0 {
        vs.update(
            0,
            SpaceTopLevelView {
                active: ActiveState::ActiveFullyRendered(false),
                dirty: true,
                ..vs[0]
            },
        )
    } else {
        vs
    }
}

/// The surface that has keyboard focus after the active window moves on.
pub open spec fn cycled_focus(vs: Seq<SpaceTopLevelView>, focus: Option<u64>) -> Option<u64> {
    if exists|c: int| is_first_active(vs, c) {
        let c = choose|c: int| is_first_active(vs, c);
        let n = (c + 1) % (vs.len() as int);
        if vs[n].alive {
            Some(vs[n].s_top_level)
        } else {
            None
        }
    } else if vs.len() > 0 {
        if vs[0].alive {
            Some(vs[0].s_top_level)
        } else {
            None
        }
    } else {
        focus
    }
}

proof fn lemma_first_active_unique(vs: Seq<SpaceTopLevelView>, i: int)
    requires
        is_first_active(vs, i),
    ensures
        (choose|c: int| is_first_active(vs, c)) == i,
{
    let k = choose|c: int| is_first_active(vs, c);
    assert(is_first_active(vs, k));
    if k < i {
        assert(!is_active(vs[k].active));
    } else if i < k {
        assert(!is_active(vs[i].active));
    }
}

proof fn lemma_least_active(vs: Seq<SpaceTopLevelView>, j: int)
    requires
        0 <= j < vs.len(),
        is_active(vs[j].active),
    ensures
        exists|c: int| is_first_active(vs, c),
    decreases j,
{
    if forall|m: int| 0 <= m < j ==> !is_active(vs[m].active) {
        assert(is_first_active(vs, j));
    } else {
        let m = choose|m: int| 0 <= m < j && is_active(vs[m].active);
        lemma_least_active(vs, m);
    }
}

/// Moving the active window on leaves a space that has windows with exactly
/// one active window.
pub proof fn lemma_cycle_leaves_one_active(vs: Seq<SpaceTopLevelView>)
    requires
        vs.len() > 0,
    ensures
        cycled(vs).len() == vs.len(),
        exists|i: int|
            0 <= i < vs.len() && is_active(#[trigger] cycled(vs)[i].active) && forall|j: int|
                0 <= j < vs.len() && j != i ==> !is_active(cycled(vs)[j].active),
{
    if exists|c: int| is_first_active(vs, c) {
        let c = choose|c: int| is_first_active(vs, c);
        let n = (c + 1) % (vs.len() as int);
        assert(0 <= n < vs.len());
        assert(is_active(cycled(vs)[n].active));
    } else {
        assert forall|j: int| 0 <= j < vs.len() implies !is_active(vs[j].active) by {
            if is_active(vs[j].active) {
                lemma_least_active(vs, j);
            }
        }
        assert(is_active(cycled(vs)[0].active));
    }
}

fn find_active(toplevels: &Vec<SpaceTopLevel>) -> (res: Option<usize>)
    ensures
        match res {
            Some(i) => is_first_active(space_views(toplevels@), i as int),
            None => forall|j: int|
                0 <= j < toplevels@.len() ==> !is_active(toplevels@[j].active),
        },
{
    let mut i: usize = 0;
    while i < toplevels.len()
        invariant
            i <= toplevels@.len(),
            forall|j: int| 0 <= j < i ==> !is_active(toplevels@[j].active),
        decreases toplevels@.len() - i,
    {
        let active = match toplevels[i].active {
            ActiveState::ActiveFullyRendered(_) => true,
            _ => false,
        };
        if active {
            proof {
                assert forall|j: int| 0 <= j < i implies !is_active(
                    space_views(toplevels@)[j].active,
                ) by {
                    assert(space_views(toplevels@)[j] == toplevels@[j]@);
                }
                assert(space_views(toplevels@)[i as int] == toplevels@[i as int]@);
            }
            return Some(i);
        }
        i = i + 1;
    }
    None
}

impl Space {
    /// Makes the window after the active one (wrapping around) the only active
    /// one, or the first window active when none is; it gets keyboard focus,
    /// and every window that changes is to be rendered again.
    pub fn cycle_active(&mut self)
        ensures
            space_views(final(self).toplevels@) == cycled(space_views(old(self).toplevels@)),
            final(self).focused_surface == cycled_focus(
                space_views(old(self).toplevels@),
                old(self).focused_surface,
            ),
            final(self).layer_surface == old(self).layer_surface,
            final(self).output == old(self).output,
            final(self).layout == old(self).layout,
            final(self).needs_update == old(self).needs_update,
            final(self).dimensions == old(self).dimensions,
            final(self).next_render_event == old(self).next_render_event,
    {
        let ghost vs = space_views(self.toplevels@);
        match find_active(&self.toplevels) {
            Some(cur) => {
                proof {
                    lemma_first_active_unique(vs, cur as int);
                }
                let len = self.toplevels.len();
                assert(cur < len);
                let n = (cur + 1) % len;
                let ghost before = self.toplevels@;
                let mut i: usize = 0;
                while i < self.toplevels.len()
                    invariant
                        i <= self.toplevels@.len(),
                        self.toplevels@.len() == before.len(),
                        n < before.len(),
                        n == (cur as int + 1) % (before.len() as int),
                        vs == space_views(before),
                        forall|j: int|
                            0 <= j < i ==> self.toplevels@[j]@ == (SpaceTopLevelView {
                                active: if j == n {
                                    ActiveState::ActiveFullyRendered(false)
                                } else {
                                    ActiveState::InactiveCleared(false)
                                },
                                dirty: true,
                                ..before[j]@
                            }),
                        forall|j: int| i <= j < before.len() ==> self.toplevels@[j] == before[j],
                        i > n ==> self.focused_surface == if before[n as int].alive {
                            Some(before[n as int].s_top_level)
                        } else {
                            None
                        },
                        self.layer_surface == old(self).layer_surface,
                        self.output == old(self).output,
                        self.layout == old(self).layout,
                        self.needs_update == old(self).needs_update,
                        self.dimensions == old(self).dimensions,
                        self.next_render_event == old(self).next_render_event,
                    decreases before.len() - i,
                {
                    let ghost cur_v = self.toplevels@;
                    let mut t = self.toplevels.remove(i);
                    if i == n {
                        t.active = ActiveState::ActiveFullyRendered(false);
                        self.focused_surface = if t.alive {
                            Some(t.s_top_level)
                        } else {
                            None
                        };
                    } else {
                        t.active = ActiveState::InactiveCleared(false);
                    }
                    t.dirty = true;
                    self.toplevels.insert(i, t);
                    proof {
                        assert(self.toplevels@ =~= cur_v.update(i as int, t));
                    }
                    i = i + 1;
                }
                proof {
                    assert(space_views(self.toplevels@) =~= cycled(vs));
                }
            },
            None => {
                if self.toplevels.len() > 0 {
                    let ghost before = self.toplevels@;
                    let mut t = self.toplevels.remove(0);
                    t.active = ActiveState::ActiveFullyRendered(false);
                    t.dirty = true;
                    self.focused_surface = if t.alive {
                        Some(t.s_top_level)
                    } else {
                        None
                    };
                    self.toplevels.insert(0, t);
                    proof {
                        assert forall|c: int| !is_first_active(vs, c) by {
                            if 0 <= c < vs.len() {
                                assert(vs[c] == before[c]@);
                            }
                        }
                        assert(space_views(self.toplevels@) =~= cycled(vs));
                    }
                } else {
                    proof {
                        assert(space_views(self.toplevels@) =~= cycled(vs));
                    }
                }
            },
        }
    }
}


/// The first window whose surface is `surface` and still exists.
pub open spec fn is_first_space_window(vs: Seq<SpaceTopLevelView>, surface: u64, i: int) -> bool {
    &&& 0 <= i < vs.len()
    &&& vs[i].alive && vs[i].s_top_level == surface
    &&& forall|j: int| 0 <= j < i ==> !(vs[j].alive && vs[j].s_top_level == surface)
}

pub open spec fn has_space_window(vs: Seq<SpaceTopLevelView>, surface: u64) -> bool {
    exists|i: int| is_first_space_window(vs, surface, i)
}

fn find_space_window(toplevels: &Vec<SpaceTopLevel>, surface: u64) -> (res: Option<usize>)
    ensures
        match res {
            Some(i) => is_first_space_window(space_views(toplevels@), surface, i as int),
            None => !has_space_window(space_views(toplevels@), surface),
        },
{
    let ghost vs = space_views(toplevels@);
    let mut i: usize = 0;
    while i < toplevels.len()
        invariant
            i <= toplevels@.len(),
            vs == space_views(toplevels@),
            forall|j: int| 0 <= j < i ==> !(vs[j].alive && vs[j].s_top_level == surface),
        decreases toplevels@.len() - i,
    {
        if toplevels[i].alive && toplevels[i].s_top_level == surface {
            return Some(i);
        }
        i = i + 1;
    }
    proof {
        if has_space_window(vs, surface) {
            let k = choose|k: int| is_first_space_window(vs, surface, k);
            assert(!(vs[k].alive && vs[k].s_top_level == surface));
        }
    }
    None
}

/// The windows after a new one with surface `s_top_level` and size `dims`
/// joins: every earlier window becomes inactive and is to be rendered again;
/// the new one is active, to be rendered, without popups, and the root when
/// it is the first one.
pub open spec fn joined(vs: Seq<SpaceTopLevelView>, s_top_level: u64, dims: (u32, u32)) -> Seq<
    SpaceTopLevelView,
> {
    vs.map_values(
        |v: SpaceTopLevelView|
            SpaceTopLevelView { active: ActiveState::InactiveCleared(false), dirty: true, ..v },
    ).push(
        SpaceTopLevelView {
            s_top_level,
            alive: true,
            dimensions: dims,
            is_root: vs.len() == 0,
            dirty: true,
            active: ActiveState::ActiveFullyRendered(false),
            popups: Seq::empty(),
        },
    )
}

/// The largest width and height among the windows other than the one with
/// surface `surface`, if there are any.
pub open spec fn others_max(vs: Seq<SpaceTopLevelView>, surface: u64) -> Option<(u32, u32)>
    decreases vs.len(),
{
    if vs.len() == 0 {
        None
    } else {
        let rest = others_max(vs.drop_last(), surface);
        let v = vs.last();
        if v.alive && v.s_top_level == surface {
            rest
        } else {
            match rest {
                Some(m) => Some((max_u32(v.dimensions.0, m.0), max_u32(v.dimensions.1, m.1))),
                None => Some(v.dimensions),
            }
        }
    }
}

/// The size of the shared layer surface when the window with surface
/// `surface` has size `(w, h)`: the largest width and height among all windows.
pub open spec fn shared_size(vs: Seq<SpaceTopLevelView>, surface: u64, w: u32, h: u32) -> (u32, u32) {
    match others_max(vs, surface) {
        Some(m) => (max_u32(m.0, w), max_u32(m.1, h)),
        None => (w, h),
    }
}

/// The window shown on the shared layer surface is the active one (the first,
/// should there be several); no window is when none is active.
pub open spec fn active_surface(vs: Seq<SpaceTopLevelView>) -> Option<u64> {
    if exists|i: int| is_first_active(vs, i) {
        Some(vs[choose|i: int| is_first_active(vs, i)].s_top_level)
    } else {
        None
    }
}

/// The popup shown on the desktop surface `c_surface` is popup `k` of window
/// `i`, the first in order.
pub open spec fn finds_space_popup(vs: Seq<SpaceTopLevelView>, c_surface: u64, i: int, k: int) -> bool {
    &&& 0 <= i < vs.len()
    &&& 0 <= k < vs[i].popups.len()
    &&& vs[i].popups[k].c_surface == c_surface
    &&& forall|m: int| 0 <= m < k ==> vs[i].popups[m].c_surface != c_surface
    &&& forall|j: int, m: int|
        0 <= j < i && 0 <= m < vs[j].popups.len() ==> vs[j].popups[m].c_surface != c_surface
}

impl Space {
    /// A space on `output` composited onto the desktop surface `layer_surface`:
    /// no windows, the layer surface at the smallest configured size and
    /// waiting for its first configure, the display still to be bound.
    /// Returns the setup of the layer surface too.
    pub fn new(
        output: Option<(u64, String)>,
        layout: LayerLayout,
        layer_surface: u64,
        focused_surface: Option<u64>,
    ) -> (res: (Space, LayerSurfaceSetup))
        ensures
            res.0.toplevels@.len() == 0,
            res.0.layer_surface == layer_surface,
            res.0.output == output,
            res.0.layout == layout,
            res.0.needs_update,
            res.0.dimensions == constrained_by_min_max((0, 0), layout.min_dimensions, layout.max_dimensions),
            res.0.next_render_event == Some(RenderEvent::WaitConfigure),
            res.0.focused_surface == focused_surface,
            res.1 == layer_setup_spec(layout, res.0.dimensions),
    {
        let dimensions = constrain_dim_by_min_max((0, 0), layout.min_dimensions, layout.max_dimensions);
        let setup = layout.setup(dimensions);
        (
            Space {
                toplevels: Vec::new(),
                layer_surface,
                output,
                layout,
                needs_update: true,
                dimensions,
                next_render_event: Some(RenderEvent::WaitConfigure),
                focused_surface,
            },
            setup,
        )
    }

    /// Whether the display is to be bound to the renderer now; afterwards it
    /// no longer has to be.
    pub fn apply_display(&mut self) -> (bind: bool)
        ensures
            bind == old(self).needs_update,
            !final(self).needs_update,
            final(self).toplevels@ == old(self).toplevels@,
            final(self).dimensions == old(self).dimensions,
            final(self).next_render_event == old(self).next_render_event,
            final(self).output == old(self).output,
            final(self).focused_surface == old(self).focused_surface,
    {
        if !self.needs_update {
            return false;
        }
        self.needs_update = false;
        true
    }

    /// Adds a window with surface `s_top_level` whose client asks for size
    /// `dimensions` (held between the configured minimum and maximum): it
    /// becomes the active one and every window is to be rendered.
    pub fn add_top_level(&mut self, s_top_level: u64, dimensions: (u32, u32))
        ensures
            space_views(final(self).toplevels@) == joined(
                space_views(old(self).toplevels@),
                s_top_level,
                constrained_by_min_max(
                    dimensions,
                    old(self).layout.min_dimensions,
                    old(self).layout.max_dimensions,
                ),
            ),
            final(self).dimensions == old(self).dimensions,
            final(self).next_render_event == old(self).next_render_event,
            final(self).needs_update == old(self).needs_update,
            final(self).output == old(self).output,
            final(self).layout == old(self).layout,
            final(self).focused_surface == old(self).focused_surface,
    {
        let ghost before = self.toplevels@;
        let mut i: usize = 0;
        while i < self.toplevels.len()
            invariant
                i <= self.toplevels@.len(),
                self.toplevels@.len() == before.len(),
                forall|j: int|
                    0 <= j < i ==> self.toplevels@[j]@ == (SpaceTopLevelView {
                        active: ActiveState::InactiveCleared(false),
                        dirty: true,
                        ..before[j]@
                    }),
                forall|j: int| i <= j < before.len() ==> self.toplevels@[j] == before[j],
                self.dimensions == old(self).dimensions,
                self.next_render_event == old(self).next_render_event,
                self.needs_update == old(self).needs_update,
                self.output == old(self).output,
                self.layout == old(self).layout,
                self.focused_surface == old(self).focused_surface,
            decreases before.len() - i,
        {
            let ghost cur = self.toplevels@;
            let mut t = self.toplevels.remove(i);
            t.active = ActiveState::InactiveCleared(false);
            t.dirty = true;
            self.toplevels.insert(i, t);
            proof {
                assert(self.toplevels@ =~= cur.update(i as int, t));
            }
            i = i + 1;
        }
        let dims = constrain_dim_by_min_max(
            dimensions,
            self.layout.min_dimensions,
            self.layout.max_dimensions,
        );
        let is_root = self.toplevels.len() == 0;
        let ghost mid = self.toplevels@;
        self.toplevels.push(
            SpaceTopLevel {
                s_top_level,
                alive: true,
                dimensions: dims,
                is_root,
                dirty: true,
                active: ActiveState::ActiveFullyRendered(false),
                popups: Vec::new(),
            },
        );
        proof {
            assert(space_views(self.toplevels@) =~= joined(space_views(before), s_top_level, dims));
        }
    }

    /// Shows the embedded popup `s_surface` of the window with surface
    /// `parent` on the desktop surface `c_surface`. Returns whether the window
    /// was found (only then is the popup set up on the desktop compositor).
    pub fn add_popup(&mut self, c_surface: u64, s_surface: u64, parent: u64) -> (found: bool)
        ensures
            found == has_space_window(space_views(old(self).toplevels@), parent),
            found ==> exists|i: int|
                is_first_space_window(space_views(old(self).toplevels@), parent, i) && space_views(
                    final(self).toplevels@,
                ) == space_views(old(self).toplevels@).update(
                    i,
                    SpaceTopLevelView {
                        popups: old(self).toplevels@[i]@.popups.push(new_popup(c_surface, s_surface)),
                        ..old(self).toplevels@[i]@
                    },
                ),
            !found ==> final(self).toplevels@ == old(self).toplevels@,
            final(self).dimensions == old(self).dimensions,
            final(self).next_render_event == old(self).next_render_event,
            final(self).needs_update == old(self).needs_update,
            final(self).output == old(self).output,
            final(self).layout == old(self).layout,
            final(self).focused_surface == old(self).focused_surface,
    {
        match find_space_window(&self.toplevels, parent) {
            Some(i) => {
                let ghost before = self.toplevels@;
                let mut t = self.toplevels.remove(i);
                t.popups.push(
                    Popup {
                        c_surface,
                        s_surface,
                        alive: true,
                        next_render_event: Some(PopupRenderEvent::WaitConfigure),
                        dirty: false,
                        bbox: Rectangle { x: 0, y: 0, w: 0, h: 0 },
                    },
                );
                self.toplevels.insert(i, t);
                proof {
                    assert(space_views(self.toplevels@) =~= space_views(before).update(
                        i as int,
                        t@,
                    ));
                    assert(space_views(before)[i as int] == before[i as int]@);
                }
                true
            },
            None => false,
        }
    }
}


impl Space {
    /// The largest width and height among the windows other than the one with
    /// surface `surface`.
    fn others_max_dims(&self, surface: u64) -> (res: Option<(u32, u32)>)
        ensures
            res == others_max(space_views(self.toplevels@), surface),
    {
        let ghost vs = space_views(self.toplevels@);
        let mut acc: Option<(u32, u32)> = None;
        let mut i: usize = 0;
        while i < self.toplevels.len()
            invariant
                i <= self.toplevels@.len(),
                vs == space_views(self.toplevels@),
                acc == others_max(vs.subrange(0, i as int), surface),
            decreases self.toplevels@.len() - i,
        {
            proof {
                assert(vs.subrange(0, i + 1).drop_last() =~= vs.subrange(0, i as int));
                assert(vs.subrange(0, i + 1).last() == vs[i as int]);
                assert(vs[i as int] == self.toplevels@[i as int]@);
            }
            let t = &self.toplevels[i];
            if !(t.alive && t.s_top_level == surface) {
                let (tw, th) = t.dimensions;
                acc = match acc {
                    Some((mw, mh)) => Some((if tw >= mw { tw } else { mw }, if th >= mh { th } else { mh })),
                    None => Some((tw, th)),
                };
            }
            i = i + 1;
        }
        proof {
            assert(vs.subrange(0, vs.len() as int) =~= vs);
        }
        acc
    }

    /// Marks the window with surface `surface` as needing a render after its
    /// client committed a buffer of size `(w, h)`. The shared layer surface
    /// takes the largest width and height among all windows; when that changed,
    /// the returned size is to be given to its EGL surface and layer surface.
    pub fn dirty(&mut self, surface: u64, w: u32, h: u32) -> (resize: Option<(u32, u32)>)
        ensures
            ({
                let vs = space_views(old(self).toplevels@);
                let sz = shared_size(vs, surface, w, h);
                if has_space_window(vs, surface) {
                    &&& exists|i: int|
                        is_first_space_window(vs, surface, i) && space_views(final(self).toplevels@)
                            == vs.update(
                            i,
                            SpaceTopLevelView {
                                dimensions: if vs[i].dimensions != (w, h) {
                                    sz
                                } else {
                                    vs[i].dimensions
                                },
                                dirty: true,
                                ..vs[i]
                            },
                        )
                    &&& final(self).dimensions == sz
                    &&& resize == if old(self).dimensions != sz {
                        Some(sz)
                    } else {
                        None
                    }
                } else {
                    &&& final(self).toplevels@ == old(self).toplevels@
                    &&& final(self).dimensions == old(self).dimensions
                    &&& resize is None
                }
            }),
            final(self).next_render_event == old(self).next_render_event,
            final(self).needs_update == old(self).needs_update,
            final(self).output == old(self).output,
            final(self).layout == old(self).layout,
            final(self).focused_surface == old(self).focused_surface,
    {
        let (max_w, max_h) = match self.others_max_dims(surface) {
            Some((mw, mh)) => (if mw >= w { mw } else { w }, if mh >= h { mh } else { h }),
            None => (w, h),
        };
        match find_space_window(&self.toplevels, surface) {
            Some(i) => {
                let ghost before = self.toplevels@;
                let mut t = self.toplevels.remove(i);
                if t.dimensions.0 != w || t.dimensions.1 != h {
                    t.dimensions = (max_w, max_h);
                }
                let mut resize = None;
                if self.dimensions.0 != max_w || self.dimensions.1 != max_h {
                    self.dimensions = (max_w, max_h);
                    resize = Some((max_w, max_h));
                }
                t.dirty = true;
                self.toplevels.insert(i, t);
                proof {
                    assert(space_views(self.toplevels@) =~= space_views(before).update(
                        i as int,
                        t@,
                    ));
                    assert(space_views(before)[i as int] == before[i as int]@);
                }
                resize
            },
            None => None,
        }
    }

    /// Marks the popup `popup` of the window with surface `top_level` as
    /// needing a render, with geometry `dim`. When the geometry changed, the
    /// popup takes it and the returned size is to be given to its EGL surface.
    pub fn dirty_popup(&mut self, top_level: u64, popup: u64, dim: Rectangle) -> (resize: Option<
        (i32, i32),
    >)
        ensures
            ({
                let vs = space_views(old(self).toplevels@);
                if exists|i: int, k: int|
                    is_first_space_window(vs, top_level, i) && is_first_popup(
                        vs[i].popups,
                        popup,
                        k,
                    ) {
                    exists|i: int, k: int|
                        is_first_space_window(vs, top_level, i) && is_first_popup(
                            vs[i].popups,
                            popup,
                            k,
                        ) && {
                            let p = vs[i].popups[k];
                            &&& resize == if p.bbox != dim {
                                Some((dim.w, dim.h))
                            } else {
                                None
                            }
                            &&& space_views(final(self).toplevels@) == vs.update(
                                i,
                                SpaceTopLevelView {
                                    popups: vs[i].popups.update(k, Popup { bbox: dim, dirty: true, ..p }),
                                    ..vs[i]
                                },
                            )
                        }
                } else {
                    resize is None && space_views(final(self).toplevels@) == vs
                }
            }),
            final(self).dimensions == old(self).dimensions,
            final(self).next_render_event == old(self).next_render_event,
            final(self).needs_update == old(self).needs_update,
            final(self).output == old(self).output,
            final(self).layout == old(self).layout,
            final(self).focused_surface == old(self).focused_surface,
    {
        let ghost vs = space_views(self.toplevels@);
        match find_space_window(&self.toplevels, top_level) {
            Some(i) => {
                let ghost before = self.toplevels@;
                let mut t = self.toplevels.remove(i);
                let mut resize = None;
                match find_popup(&t.popups, popup) {
                    Some(k) => {
                        let p = t.popups[k];
                        if p.bbox != dim {
                            resize = Some((dim.w, dim.h));
                        }
                        t.popups.set(k, Popup { bbox: dim, dirty: true, ..p });
                        proof {
                            assert(space_views(before)[i as int] == before[i as int]@);
                            assert(is_first_popup(vs[i as int].popups, popup, k as int));
                        }
                    },
                    None => {
                        proof {
                            assert(space_views(before)[i as int] == before[i as int]@);
                            assert forall|ii: int, kk: int|
                                is_first_space_window(vs, top_level, ii) implies !is_first_popup(
                                vs[ii].popups,
                                popup,
                                kk,
                            ) by {
                                if ii < i {
                                    assert(!(vs[ii].alive && vs[ii].s_top_level == top_level));
                                } else if ii > i {
                                    assert(!(vs[i as int].alive && vs[i as int].s_top_level == top_level));
                                }
                                if 0 <= kk < vs[ii].popups.len() {
                                    assert(vs[ii].popups[kk].s_surface != popup);
                                }
                            }
                        }
                    },
                }
                self.toplevels.insert(i, t);
                proof {
                    assert(space_views(self.toplevels@) =~= space_views(before).update(
                        i as int,
                        t@,
                    ));
                }
                resize
            },
            None => None,
        }
    }
}


/// The window with surface `x` is window `i`: the first window or popup in
/// order whose surface is `x` and still exists.
pub open spec fn finds_space_toplevel(vs: Seq<SpaceTopLevelView>, x: u64, i: int) -> bool {
    &&& 0 <= i < vs.len()
    &&& vs[i].alive && vs[i].s_top_level == x
    &&& no_window_before(vs, x, i)
}

/// No window before `i`, nor any of its popups, has the surface `x`.
pub open spec fn no_window_before(vs: Seq<SpaceTopLevelView>, x: u64, i: int) -> bool {
    forall|j: int|
        0 <= j < i ==> !(vs[j].alive && vs[j].s_top_level == x) && forall|m: int|
            0 <= m < vs[j].popups.len() ==> !(vs[j].popups[m].alive && vs[j].popups[m].s_surface
                == x)
}

/// The popup with surface `x` is popup `k` of window `i`: the first window or
/// popup in order whose surface is `x` and still exists.
pub open spec fn finds_space_window_popup(vs: Seq<SpaceTopLevelView>, x: u64, i: int, k: int) -> bool {
    &&& 0 <= i < vs.len()
    &&& !(vs[i].alive && vs[i].s_top_level == x)
    &&& 0 <= k < vs[i].popups.len()
    &&& vs[i].popups[k].alive && vs[i].popups[k].s_surface == x
    &&& forall|m: int|
        0 <= m < k ==> !(vs[i].popups[m].alive && vs[i].popups[m].s_surface == x)
    &&& no_window_before(vs, x, i)
}

impl Space {
    /// The embedded surface shown on the desktop surface `c_surface`: for the
    /// shared layer surface, the active window (none when no window is
    /// active); otherwise the first popup shown on it.
    pub fn find_server_surface(&self, c_surface: u64) -> (res: Option<ServerSurface>)
        ensures
            ({
                let vs = space_views(self.toplevels@);
                if c_surface == self.layer_surface {
                    match active_surface(vs) {
                        Some(t) => res == Some(ServerSurface::TopLevel(t)),
                        None => res is None,
                    }
                } else {
                    match res {
                        Some(ServerSurface::Popup(t, p)) => exists|i: int, k: int|
                            finds_space_popup(vs, c_surface, i, k) && t == vs[i].s_top_level && p
                                == vs[i].popups[k].s_surface,
                        Some(ServerSurface::TopLevel(_)) => false,
                        None => forall|j: int, m: int|
                            0 <= j < vs.len() && 0 <= m < vs[j].popups.len()
                                ==> vs[j].popups[m].c_surface != c_surface,
                    }
                }
            }),
    {
        let ghost vs = space_views(self.toplevels@);
        if c_surface == self.layer_surface {
            return match find_active(&self.toplevels) {
                Some(i) => {
                    proof {
                        lemma_first_active_unique(vs, i as int);
                        assert(vs[i as int] == self.toplevels@[i as int]@);
                    }
                    Some(ServerSurface::TopLevel(self.toplevels[i].s_top_level))
                },
                None => {
                    proof {
                        assert forall|c: int| !is_first_active(vs, c) by {
                            if 0 <= c < vs.len() {
                                assert(vs[c] == self.toplevels@[c]@);
                            }
                        }
                    }
                    None
                },
            };
        }
        let mut i: usize = 0;
        while i < self.toplevels.len()
            invariant
                i <= self.toplevels@.len(),
                vs == space_views(self.toplevels@),
                c_surface != self.layer_surface,
                forall|j: int, m: int|
                    0 <= j < i && 0 <= m < vs[j].popups.len() ==> vs[j].popups[m].c_surface
                        != c_surface,
            decreases self.toplevels@.len() - i,
        {
            let t = &self.toplevels[i];
            proof {
                assert(vs[i as int] == t@);
            }
            let mut k: usize = 0;
            while k < t.popups.len()
                invariant
                    k <= t.popups@.len(),
                    i < self.toplevels@.len(),
                    t == self.toplevels@[i as int],
                    vs == space_views(self.toplevels@),
                    vs[i as int] == t@,
                    c_surface != self.layer_surface,
                    forall|j: int, m: int|
                        0 <= j < i && 0 <= m < vs[j].popups.len() ==> vs[j].popups[m].c_surface
                            != c_surface,
                    forall|m: int| 0 <= m < k ==> t.popups@[m].c_surface != c_surface,
                decreases t.popups@.len() - k,
            {
                if t.popups[k].c_surface == c_surface {
                    proof {
                        assert(finds_space_popup(vs, c_surface, i as int, k as int));
                    }
                    return Some(ServerSurface::Popup(t.s_top_level, t.popups[k].s_surface));
                }
                k = k + 1;
            }
            i = i + 1;
        }
        None
    }

    /// The window or popup whose embedded surface is `x` and still exists,
    /// searching windows in order, each before its popups.
    pub fn find_server_window(&self, x: u64) -> (res: Option<ServerSurface>)
        ensures
            ({
                let vs = space_views(self.toplevels@);
                match res {
                    Some(ServerSurface::TopLevel(t)) => t == x && exists|i: int|
                        finds_space_toplevel(vs, x, i),
                    Some(ServerSurface::Popup(t, p)) => p == x && exists|i: int, k: int|
                        finds_space_window_popup(vs, x, i, k) && t == vs[i].s_top_level,
                    None => no_window_before(vs, x, vs.len() as int),
                }
            }),
    {
        let ghost vs = space_views(self.toplevels@);
        let mut i: usize = 0;
        while i < self.toplevels.len()
            invariant
                i <= self.toplevels@.len(),
                vs == space_views(self.toplevels@),
                no_window_before(vs, x, i as int),
            decreases self.toplevels@.len() - i,
        {
            let t = &self.toplevels[i];
            proof {
                assert(vs[i as int] == t@);
            }
            if t.alive && t.s_top_level == x {
                proof {
                    assert(finds_space_toplevel(vs, x, i as int));
                }
                return Some(ServerSurface::TopLevel(t.s_top_level));
            }
            let mut k: usize = 0;
            while k < t.popups.len()
                invariant
                    k <= t.popups@.len(),
                    i < self.toplevels@.len(),
                    t == self.toplevels@[i as int],
                    vs == space_views(self.toplevels@),
                    vs[i as int] == t@,
                    !(t.alive && t.s_top_level == x),
                    no_window_before(vs, x, i as int),
                    forall|m: int|
                        0 <= m < k ==> !(t.popups@[m].alive && t.popups@[m].s_surface == x),
                decreases t.popups@.len() - k,
            {
                if t.popups[k].alive && t.popups[k].s_surface == x {
                    proof {
                        assert(finds_space_window_popup(vs, x, i as int, k as int));
                    }
                    return Some(ServerSurface::Popup(t.s_top_level, t.popups[k].s_surface));
                }
                k = k + 1;
            }
            proof {
                assert forall|j: int|
                    0 <= j < i + 1 implies !(vs[j].alive && vs[j].s_top_level == x) && forall|m: int|
                    0 <= m < vs[j].popups.len() ==> !(vs[j].popups[m].alive
                        && vs[j].popups[m].s_surface == x) by {
                    if j == i {
                    }
                }
            }
            i = i + 1;
        }
        None
    }

    /// Moves the shared layer surface to `output`: it gets a new layer
    /// surface (setup returned, at the current size), waits for its first
    /// configure, and the display has to be bound again.
    pub fn set_output(&mut self, output: Option<(u64, String)>) -> (setup: LayerSurfaceSetup)
        ensures
            final(self).output == output,
            setup == layer_setup_spec(old(self).layout, old(self).dimensions),
            final(self).next_render_event == Some(RenderEvent::WaitConfigure),
            final(self).needs_update,
            final(self).toplevels@ == old(self).toplevels@,
            final(self).dimensions == old(self).dimensions,
            final(self).layout == old(self).layout,
            final(self).focused_surface == old(self).focused_surface,
    {
        self.output = output;
        let setup = self.layout.setup(self.dimensions);
        self.next_render_event = Some(RenderEvent::WaitConfigure);
        self.needs_update = true;
        setup
    }
}


/// The shared layer surface's pending event: closing stops the wrapped
/// command; a configure with a new size takes that size (the EGL surface is
/// resized and the display bound again); waiting keeps waiting.
/// Returns (next event, dimensions, needs update, kill, resize).
pub open spec fn space_event_result(next: Option<RenderEvent>, dimensions: (u32, u32), needs_update: bool) -> (
    Option<RenderEvent>,
    (u32, u32),
    bool,
    bool,
    Option<(u32, u32)>,
) {
    match next {
        Some(RenderEvent::Closed) => (None, dimensions, needs_update, true, None),
        Some(RenderEvent::Configure { width, height }) => if dimensions != (width, height) {
            (None, (width, height), true, false, Some((width, height)))
        } else {
            (None, dimensions, needs_update, false, None)
        },
        Some(RenderEvent::WaitConfigure) => (next, dimensions, needs_update, false, None),
        None => (None, dimensions, needs_update, false, None),
    }
}

/// A configure to a new size makes that the size of the shared layer
/// surface, resizes its EGL surface to it and asks for the display to be
/// bound again; a configure to the current size changes nothing but is
/// consumed; a close stops the wrapped command.
pub proof fn lemma_configure_resizes(dimensions: (u32, u32), needs_update: bool, width: u32, height: u32)
    ensures
        ({
            let r = space_event_result(
                Some(RenderEvent::Configure { width, height }),
                dimensions,
                needs_update,
            );
            &&& r.0 is None
            &&& !r.3
            &&& dimensions != (width, height) ==> r.1 == (width, height) && r.4 == Some(
                (width, height),
            ) && r.2
            &&& dimensions == (width, height) ==> r.1 == dimensions && r.4 is None && r.2
                == needs_update
        }),
        space_event_result(Some(RenderEvent::Closed), dimensions, needs_update).3,
        space_event_result(Some(RenderEvent::Closed), dimensions, needs_update).1 == dimensions,
{
}

/// One pass over the windows: a window whose surface is gone is dropped (when
/// it was the active one, another has to become active; when it was the root
/// window, the wrapped command is stopped); the pending events of the popups
/// of the others are handled; unless the layer surface waits for its first
/// configure, every inactive window is drawn (cleared).
/// Returns (kept windows, a new active window is needed, kill, windows drawn,
/// popups to resize).
pub open spec fn space_pass(vs: Seq<SpaceTopLevelView>, waiting: bool) -> (
    Seq<SpaceTopLevelView>,
    bool,
    bool,
    Seq<u64>,
    Seq<(u64, i32, i32)>,
)
    decreases vs.len(),
{
    if vs.len() == 0 {
        (Seq::empty(), false, false, Seq::empty(), Seq::empty())
    } else {
        let (kept, new_active, kill, drawn, resizes) = space_pass(vs.drop_last(), waiting);
        let v = vs.last();
        let remove = !v.alive;
        let was_active = remove && is_active(v.active);
        let active = if was_active {
            ActiveState::InactiveCleared(false)
        } else {
            v.active
        };
        let drawn2 = if !waiting && active is InactiveCleared {
            drawn.push(v.s_top_level)
        } else {
            drawn
        };
        if remove {
            (kept, new_active || was_active, kill || v.is_root, drawn2, resizes)
        } else {
            (
                kept.push(SpaceTopLevelView { popups: popups_after_events(v.popups), ..v }),
                new_active,
                kill,
                drawn2,
                resizes + crate::surface::popup_resizes_of(v.popups),
            )
        }
    }
}

impl Space {
    /// Handles pending events: the shared layer surface's event, then every
    /// window (see `space_pass`); then either another window becomes active
    /// (when the active one went away) or, unless the layer surface waits for
    /// its first configure, the active window is drawn.
    pub fn handle_events(&mut self) -> (work: SpaceWork)
        ensures
            ({
                let e = space_event_result(
                    old(self).next_render_event,
                    old(self).dimensions,
                    old(self).needs_update,
                );
                let waiting = e.0 == Some(RenderEvent::WaitConfigure);
                let p = space_pass(space_views(old(self).toplevels@), waiting);
                &&& final(self).next_render_event == e.0
                &&& final(self).dimensions == e.1
                &&& final(self).needs_update == e.2
                &&& work.resize == e.4
                &&& work.kill_child == (e.3 || p.2)
                &&& work.popup_resizes@ == p.4
                &&& if p.1 {
                    &&& space_views(final(self).toplevels@) == cycled(p.0)
                    &&& final(self).focused_surface == cycled_focus(p.0, old(self).focused_surface)
                    &&& work.rendered@ == p.3
                } else {
                    &&& space_views(final(self).toplevels@) == p.0
                    &&& final(self).focused_surface == old(self).focused_surface
                    &&& work.rendered@ == if !waiting {
                        match active_surface(p.0) {
                            Some(t) => p.3.push(t),
                            None => p.3,
                        }
                    } else {
                        p.3
                    }
                }
            }),
            final(self).layer_surface == old(self).layer_surface,
            final(self).output == old(self).output,
            final(self).layout == old(self).layout,
    {
        let mut kill_child = false;
        let mut resize: Option<(u32, u32)> = None;
        match self.next_render_event {
            Some(RenderEvent::Closed) => {
                self.next_render_event = None;
                kill_child = true;
            },
            Some(RenderEvent::Configure { width, height }) => {
                self.next_render_event = None;
                if self.dimensions.0 != width || self.dimensions.1 != height {
                    self.dimensions = (width, height);
                    resize = Some((width, height));
                    self.needs_update = true;
                }
            },
            Some(RenderEvent::WaitConfigure) => {},
            None => {},
        }
        let waiting = match self.next_render_event {
            Some(RenderEvent::WaitConfigure) => true,
            _ => false,
        };
        let mut rest: Vec<SpaceTopLevel> = Vec::new();
        std::mem::swap(&mut rest, &mut self.toplevels);
        let ghost vs = space_views(rest@);
        let total = rest.len();
        assert(vs.len() == total);
        let mut kept: Vec<SpaceTopLevel> = Vec::new();
        let mut needs_new_active = false;
        let mut pass_kill = false;
        let mut rendered: Vec<u64> = Vec::new();
        let mut popup_resizes: Vec<(u64, i32, i32)> = Vec::new();
        let mut done: usize = 0;
        while rest.len() > 0
            invariant
                done + rest@.len() == vs.len(),
                vs.len() <= usize::MAX,
                space_views(rest@) == vs.subrange(done as int, vs.len() as int),
                (space_views(kept@), needs_new_active, pass_kill, rendered@, popup_resizes@)
                    == space_pass(vs.subrange(0, done as int), waiting),
                waiting == (self.next_render_event == Some(RenderEvent::WaitConfigure)),
                self.layer_surface == old(self).layer_surface,
                self.output == old(self).output,
                self.layout == old(self).layout,
                self.focused_surface == old(self).focused_surface,
                self.dimensions == space_event_result(
                    old(self).next_render_event,
                    old(self).dimensions,
                    old(self).needs_update,
                ).1,
                self.needs_update == space_event_result(
                    old(self).next_render_event,
                    old(self).dimensions,
                    old(self).needs_update,
                ).2,
                self.next_render_event == space_event_result(
                    old(self).next_render_event,
                    old(self).dimensions,
                    old(self).needs_update,
                ).0,
            decreases rest@.len(),
        {
            let ghost before = rest@;
            let mut t = rest.remove(0);
            proof {
                assert(space_views(before)[0] == before[0]@);
                assert(vs.subrange(done as int, vs.len() as int)[0] == vs[done as int]);
                assert(t@ == vs[done as int]);
                assert(vs.subrange(0, done + 1).drop_last() =~= vs.subrange(0, done as int));
                assert(vs.subrange(0, done + 1).last() == vs[done as int]);
                assert forall|j: int| 0 <= j < rest@.len() implies space_views(rest@)[j]
                    == vs.subrange(done + 1, vs.len() as int)[j] by {
                    assert(rest@[j] == before[j + 1]);
                    assert(space_views(before)[j + 1] == before[j + 1]@);
                    assert(vs.subrange(done as int, vs.len() as int)[j + 1] == vs[done + 1 + j]);
                }
            }
            let remove = !t.alive;
            let was_active = match t.active {
                ActiveState::ActiveFullyRendered(_) => remove,
                _ => false,
            };
            if was_active {
                t.active = ActiveState::InactiveCleared(false);
                needs_new_active = true;
            }
            if remove && t.is_root {
                pass_kill = true;
            }
            let inactive = match t.active {
                ActiveState::InactiveCleared(_) => true,
                _ => false,
            };
            if !waiting && inactive {
                rendered.push(t.s_top_level);
            }
            if !remove {
                let mut old_popups: Vec<Popup> = Vec::new();
                std::mem::swap(&mut old_popups, &mut t.popups);
                let (new_popups, mut more) = handle_popup_events(old_popups);
                t.popups = new_popups;
                popup_resizes.append(&mut more);
                let t2 = t;
                let ghost kept_before = kept@;
                kept.push(t2);
                proof {
                    assert(space_views(kept@) =~= space_views(kept_before).push(t2@));
                }
            }
            done = done + 1;
        }
        proof {
            assert(vs.subrange(0, done as int) =~= vs);
        }
        self.toplevels = kept;
        if needs_new_active {
            self.cycle_active();
        } else if !waiting {
            match find_active(&self.toplevels) {
                Some(i) => {
                    proof {
                        lemma_first_active_unique(space_views(self.toplevels@), i as int);
                        assert(space_views(self.toplevels@)[i as int] == self.toplevels@[i as int]@);
                    }
                    rendered.push(self.toplevels[i].s_top_level);
                },
                None => {
                    proof {
                        let ws = space_views(self.toplevels@);
                        assert forall|c: int| !is_first_active(ws, c) by {
                            if 0 <= c < ws.len() {
                                assert(ws[c] == self.toplevels@[c]@);
                            }
                        }
                    }
                },
            }
        }
        SpaceWork { kill_child: kill_child || pass_kill, resize, rendered, popup_resizes }
    }
}

} // verus!
