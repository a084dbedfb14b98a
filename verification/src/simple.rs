//! The space of the simple wrapper: the windows of one wrapped client are
//! composited onto one layer surface, each at its own rectangle; the layer
//! surface grows to fit them within the configured size ranges.

use vstd::prelude::*;

use crate::config::{
    LayerSurfaceSetup, SimpleWrapperConfig, anchor_bits_spec, keyboard_interactivity_value_spec,
    layer_value_spec,
};
use crate::events::{SimplePopupEvent, SimpleSpaceEvent};
use crate::geometry::{Point, Rectangle, constrain_dim_by_ranges, constrained_by_ranges, rect_contains};

verus! {

/// Visibility of the space
#[derive(Clone, Copy, Debug, PartialEq, Eq, Structural)]
pub enum Visibility {
    /// hidden
    Hidden,
    /// visible
    Visible,
    /// transitioning to hidden
    TransitionToHidden {
        /// previous instant that was processed (milliseconds of a monotonic clock)
        last_instant: u64,
        /// duration of the transition progressed (milliseconds)
        progress: u64,
        /// previously calculated value
        prev_margin: i32,
    },
    /// transitioning to visible
    TransitionToVisible {
        /// previous instant that was processed (milliseconds of a monotonic clock)
        last_instant: u64,
        /// duration of the transition progressed (milliseconds)
        progress: u64,
        /// previously calculated value
        prev_margin: i32,
    },
}

impl Default for Visibility {
    fn default() -> (v: Self)
        ensures
            v == Visibility::Visible,
    {
        Visibility::Visible
    }
}

/// A popup of a window of the simple wrapper space.
#[derive(Clone, Copy, Debug, PartialEq, Eq, Structural)]
pub struct SimplePopup {
    /// id of the popup's surface on the desktop compositor
    pub c_surface: u64,
    /// id of the embedded popup's surface
    pub s_surface: u64,
    /// the embedded popup's surface still exists
    pub alive: bool,
    /// the popup needs to be rendered
    pub dirty: bool,
    /// the popup is drawn by a render pass
    pub should_render: bool,
    /// what the popup waits for
    pub next_render_event: Option<SimplePopupEvent>,
}

/// A window of the simple wrapper space.
#[derive(Debug)]
pub struct SimpleTopLevel {
    /// id of the embedded window's surface
    pub s_top_level: u64,
    /// the embedded window's surface still exists
    pub alive: bool,
    /// where the window sits on the layer surface, and its size
    pub rectangle: Rectangle,
    /// the window needs to be rendered
    pub dirty: bool,
    /// the window is not shown
    pub hidden: bool,
    /// order among windows
    pub priority: u32,
    /// popups of the window
    pub popups: Vec<SimplePopup>,
}

/// A window of the simple wrapper space as a mathematical value.
#[verifier::ext_equal]
pub struct SimpleTopLevelView {
    pub s_top_level: u64,
    pub alive: bool,
    pub rectangle: Rectangle,
    pub dirty: bool,
    pub hidden: bool,
    pub priority: u32,
    pub popups: Seq<SimplePopup>,
}

impl View for SimpleTopLevel {
    type V = SimpleTopLevelView;

    open spec fn view(&self) -> SimpleTopLevelView {
        SimpleTopLevelView {
            s_top_level: self.s_top_level,
            alive: self.alive,
            rectangle: self.rectangle,
            dirty: self.dirty,
            hidden: self.hidden,
            priority: self.priority,
            popups: self.popups@,
        }
    }
}

pub open spec fn simple_views(s: Seq<SimpleTopLevel>) -> Seq<SimpleTopLevelView> {
    s.map_values(|t: SimpleTopLevel| t@)
}

/// space for the cosmic panel
#[derive(Debug)]
pub struct SimpleWrapperSpace {
    /// config for the panel space
    pub config: SimpleWrapperConfig,
    /// the wrapped client's windows
    pub client_top_levels: Vec<SimpleTopLevel>,
    /// id of the wrapped client on the embedded server
    pub client: Option<u64>,
    /// the wrapped command was started
    pub has_child: bool,
    /// milliseconds (of a monotonic clock) at which a window last changed
    pub last_dirty: Option<u64>,
    /// size asked of the desktop compositor and not yet requested
    pub pending_dimensions: Option<(u32, u32)>,
    /// the whole layer surface is to be cleared and redrawn
    pub full_clear: bool,
    /// what the layer surface waits for
    pub next_render_event: Option<SimpleSpaceEvent>,
    /// size of the layer surface
    pub dimensions: (u32, u32),
    /// surface id of the window under the pointer
    pub focused_surface: Option<u64>,
    /// visibility state of the panel / panel
    pub visibility: Visibility,
    /// id of the output the space is shown on, once added
    pub output: Option<u64>,
    /// the layer shell global was given to the space
    pub has_layer_shell: bool,
    /// id of the layer surface's `wl_surface` on the desktop compositor, once added
    pub layer_shell_wl_surface: Option<u64>,
}

/// An embedded surface found for a surface, with the location of its window
/// on the layer surface.
#[derive(Clone, Copy, Debug, PartialEq, Eq, Structural)]
pub enum SimpleServerSurface {
    /// the window with surface id `.1`, at `.0`
    TopLevel(Point, u64),
    /// the popup with surface id `.2` of the window with surface id `.1`, at `.0`
    Popup(Point, u64, u64),
}

impl SimpleWrapperSpace {
    /// create a new space for the cosmic panel
    pub fn new(config: SimpleWrapperConfig) -> (s: Self)
        ensures
            s.config == config,
            s.client_top_levels@.len() == 0,
            s.client is None,
            !s.has_child,
            s.last_dirty is None,
            s.pending_dimensions is None,
            !s.full_clear,
            s.next_render_event is None,
            s.dimensions == (0u32, 0u32),
            s.focused_surface is None,
            s.visibility == Visibility::Visible,
            s.output is None,
            !s.has_layer_shell,
            s.layer_shell_wl_surface is None,
    {
        SimpleWrapperSpace {
            config,
            client_top_levels: Vec::new(),
            client: None,
            has_child: false,
            last_dirty: None,
            pending_dimensions: None,
            full_clear: false,
            next_render_event: None,
            dimensions: (0, 0),
            focused_surface: None,
            visibility: Visibility::Visible,
            output: None,
            has_layer_shell: false,
            layer_shell_wl_surface: None,
        }
    }

    /// The size asked for when the content is `dim`: at least 1x1, held into
    /// the configured width and height ranges.
    pub fn constrain_dim(&self, dim: (u32, u32)) -> (res: (u32, u32))
        ensures
            res == constrained_by_ranges(dim, self.config.width_range, self.config.height_range),
    {
        constrain_dim_by_ranges(dim, self.config.width_range, self.config.height_range)
    }

    /// The visibility of the space.
    pub fn visibility(&self) -> (v: Visibility)
        ensures
            v == self.visibility,
    {
        self.visibility
    }

    /// Drops every popup.
    pub fn close_popups(&mut self)
        ensures
            final(self).client_top_levels@.len() == old(self).client_top_levels@.len(),
            forall|i: int|
                0 <= i < old(self).client_top_levels@.len() ==> final(self).client_top_levels@[i]@
                    == (SimpleTopLevelView {
                    popups: Seq::empty(),
                    ..old(self).client_top_levels@[i]@
                }),
            final(self).config == old(self).config,
            final(self).client == old(self).client,
            final(self).has_child == old(self).has_child,
            final(self).last_dirty == old(self).last_dirty,
            final(self).pending_dimensions == old(self).pending_dimensions,
            final(self).full_clear == old(self).full_clear,
            final(self).next_render_event == old(self).next_render_event,
            final(self).dimensions == old(self).dimensions,
            final(self).focused_surface == old(self).focused_surface,
            final(self).visibility == old(self).visibility,
            final(self).output == old(self).output,
            final(self).has_layer_shell == old(self).has_layer_shell,
            final(self).layer_shell_wl_surface == old(self).layer_shell_wl_surface,
    {
        let ghost before = self.client_top_levels@;
        let mut i: usize = 0;
        while i < self.client_top_levels.len()
            invariant
                i <= self.client_top_levels@.len(),
                self.client_top_levels@.len() == before.len(),
                forall|j: int|
                    0 <= j < i ==> self.client_top_levels@[j]@ == (SimpleTopLevelView {
                        popups: Seq::empty(),
                        ..before[j]@
                    }),
                forall|j: int| i <= j < before.len() ==> self.client_top_levels@[j] == before[j],
                self.config == old(self).config,
                self.client == old(self).client,
                self.has_child == old(self).has_child,
                self.last_dirty == old(self).last_dirty,
                self.pending_dimensions == old(self).pending_dimensions,
                self.full_clear == old(self).full_clear,
                self.next_render_event == old(self).next_render_event,
                self.dimensions == old(self).dimensions,
                self.focused_surface == old(self).focused_surface,
                self.visibility == old(self).visibility,
                self.output == old(self).output,
                self.has_layer_shell == old(self).has_layer_shell,
                self.layer_shell_wl_surface == old(self).layer_shell_wl_surface,
            decreases before.len() - i,
        {
            let ghost cur = self.client_top_levels@;
            let mut t = self.client_top_levels.remove(i);
            t.popups = Vec::new();
            self.client_top_levels.insert(i, t);
            proof {
                assert(self.client_top_levels@ =~= cur.update(i as int, t));
                assert(t@ =~= (SimpleTopLevelView { popups: Seq::empty(), ..before[i as int]@ }));
            }
            i = i + 1;
        }
    }

    /// A button was pressed on the desktop surface `c_focused_surface`: when
    /// it is the layer surface and no window is under the pointer, every popup
    /// is dropped. Returns whether they were.
    pub fn handle_button(&mut self, c_focused_surface: u64) -> (closed: bool)
        requires
            old(self).layer_shell_wl_surface is Some,
        ensures
            closed == (old(self).focused_surface is None && old(self).layer_shell_wl_surface
                == Some(c_focused_surface)),
            closed ==> forall|i: int|
                0 <= i < final(self).client_top_levels@.len()
                    ==> final(self).client_top_levels@[i]@.popups.len() == 0,
            closed ==> final(self).client_top_levels@.len() == old(self).client_top_levels@.len(),
            !closed ==> final(self).client_top_levels@ == old(self).client_top_levels@,
            final(self).focused_surface == old(self).focused_surface,
            final(self).layer_shell_wl_surface == old(self).layer_shell_wl_surface,
    {
        let on_layer = match self.layer_shell_wl_surface {
            Some(s) => s == c_focused_surface,
            None => false,
        };
        if self.focused_surface.is_none() && on_layer {
            self.close_popups();
            true
        } else {
            false
        }
    }
}

/// The first shown window whose rectangle holds `p`.
pub open spec fn is_first_under(vs: Seq<SimpleTopLevelView>, p: Point, i: int) -> bool {
    &&& 0 <= i < vs.len()
    &&& !vs[i].hidden && rect_contains(vs[i].rectangle, p)
    &&& forall|j: int| 0 <= j < i ==> !(!vs[j].hidden && rect_contains(vs[j].rectangle, p))
}

/// The surface under the pointer at `p`: the surface of the first shown window
/// whose rectangle holds `p`, while that surface still exists.
pub open spec fn surface_under(vs: Seq<SimpleTopLevelView>, p: Point) -> Option<u64> {
    if exists|i: int| is_first_under(vs, p, i) {
        let i = choose|i: int| is_first_under(vs, p, i);
        if vs[i].alive {
            Some(vs[i].s_top_level)
        } else {
            None
        }
    } else {
        None
    }
}

proof fn lemma_first_under_unique(vs: Seq<SimpleTopLevelView>, p: Point, i: int)
    requires
        is_first_under(vs, p, i),
    ensures
        (choose|k: int| is_first_under(vs, p, k)) == i,
{
    let k = choose|k: int| is_first_under(vs, p, k);
    assert(is_first_under(vs, p, k));
    if k < i {
        assert(!(!vs[k].hidden && rect_contains(vs[k].rectangle, p)));
    } else if i < k {
        assert(!(!vs[i].hidden && rect_contains(vs[i].rectangle, p)));
    }
}

impl SimpleWrapperSpace {
    /// update active window based on pointer location
    pub fn update_pointer(&mut self, x: i32, y: i32)
        ensures
            final(self).focused_surface == surface_under(
                simple_views(old(self).client_top_levels@),
                Point { x, y },
            ),
            final(self).client_top_levels@ == old(self).client_top_levels@,
            final(self).layer_shell_wl_surface == old(self).layer_shell_wl_surface,
            final(self).dimensions == old(self).dimensions,
    {
        let p = Point { x, y };
        let ghost vs = simple_views(self.client_top_levels@);
        let mut i: usize = 0;
        while i < self.client_top_levels.len()
            invariant
                i <= self.client_top_levels@.len(),
                vs == simple_views(self.client_top_levels@),
                vs == simple_views(old(self).client_top_levels@),
                self.client_top_levels@ == old(self).client_top_levels@,
                self.layer_shell_wl_surface == old(self).layer_shell_wl_surface,
                self.dimensions == old(self).dimensions,
                p == (Point { x, y }),
                forall|j: int|
                    0 <= j < i ==> !(!vs[j].hidden && rect_contains(vs[j].rectangle, p)),
            decreases self.client_top_levels@.len() - i,
        {
            let t = &self.client_top_levels[i];
            proof {
                assert(vs[i as int] == t@);
            }
            if !t.hidden && t.rectangle.contains(p) {
                proof {
                    assert(is_first_under(vs, p, i as int));
                    lemma_first_under_unique(vs, p, i as int);
                    assert(p == Point { x, y });
                }
                self.focused_surface = if t.alive {
                    Some(t.s_top_level)
                } else {
                    None
                };
                return ;
            }
            i = i + 1;
        }
        self.focused_surface = None;
    }

    /// The embedded surface shown on the desktop surface `active`: on the
    /// layer surface, the first window whose surface is the one under the
    /// pointer; otherwise the first popup shown on `active`.
    pub fn server_surface_from_client_wl_surface(&self, active: u64) -> (res: Option<
        SimpleServerSurface,
    >)
        requires
            self.layer_shell_wl_surface is Some,
        ensures
            ({
                let vs = simple_views(self.client_top_levels@);
                if self.layer_shell_wl_surface == Some(active) {
                    match res {
                        Some(SimpleServerSurface::TopLevel(loc, t)) => exists|i: int|
                            0 <= i < vs.len() && vs[i].alive && self.focused_surface == Some(
                                vs[i].s_top_level,
                            ) && loc == vs[i].rectangle.loc_spec() && t == vs[i].s_top_level && forall|
                                j: int,
                            |
                                0 <= j < i ==> !(vs[j].alive && self.focused_surface == Some(
                                    vs[j].s_top_level,
                                )),
                        Some(SimpleServerSurface::Popup(..)) => false,
                        None => forall|j: int|
                            0 <= j < vs.len() ==> !(vs[j].alive && self.focused_surface == Some(
                                vs[j].s_top_level,
                            )),
                    }
                } else {
                    match res {
                        Some(SimpleServerSurface::Popup(loc, t, p)) => exists|i: int, k: int|
                            0 <= i < vs.len() && 0 <= k < vs[i].popups.len() && vs[i].popups[k].c_surface
                                == active && loc == vs[i].rectangle.loc_spec() && t == vs[i].s_top_level
                                && p == vs[i].popups[k].s_surface && (forall|m: int|
                                0 <= m < k ==> vs[i].popups[m].c_surface != active) && forall|
                                j: int,
                                m: int,
                            |
                                0 <= j < i && 0 <= m < vs[j].popups.len()
                                    ==> vs[j].popups[m].c_surface != active,
                        Some(SimpleServerSurface::TopLevel(..)) => false,
                        None => forall|j: int, m: int|
                            0 <= j < vs.len() && 0 <= m < vs[j].popups.len()
                                ==> vs[j].popups[m].c_surface != active,
                    }
                }
            }),
    {
        let ghost vs = simple_views(self.client_top_levels@);
        let on_layer = match self.layer_shell_wl_surface {
            Some(s) => s == active,
            None => false,
        };
        if on_layer {
            let mut i: usize = 0;
            while i < self.client_top_levels.len()
                invariant
                    i <= self.client_top_levels@.len(),
                    vs == simple_views(self.client_top_levels@),
                    self.layer_shell_wl_surface == Some(active),
                    forall|j: int|
                        0 <= j < i ==> !(vs[j].alive && self.focused_surface == Some(
                            vs[j].s_top_level,
                        )),
                decreases self.client_top_levels@.len() - i,
            {
                let t = &self.client_top_levels[i];
                proof {
                    assert(vs[i as int] == t@);
                }
                let hit = match self.focused_surface {
                    Some(f) => t.alive && f == t.s_top_level,
                    None => false,
                };
                if hit {
                    let loc = t.rectangle.loc();
                    proof {
                        assert(0 <= i < vs.len() && vs[i as int].alive && self.focused_surface == Some(
                            vs[i as int].s_top_level) && loc == vs[i as int].rectangle.loc_spec()
                            && t.s_top_level == vs[i as int].s_top_level && forall|j: int|
                            0 <= j < i ==> !(vs[j].alive && self.focused_surface == Some(
                                vs[j].s_top_level,
                            )));
                    }
                    return Some(SimpleServerSurface::TopLevel(loc, t.s_top_level));
                }
                i = i + 1;
            }
            return None;
        }
        let mut i: usize = 0;
        while i < self.client_top_levels.len()
            invariant
                i <= self.client_top_levels@.len(),
                vs == simple_views(self.client_top_levels@),
                self.layer_shell_wl_surface != Some(active),
                forall|j: int, m: int|
                    0 <= j < i && 0 <= m < vs[j].popups.len() ==> vs[j].popups[m].c_surface != active,
            decreases self.client_top_levels@.len() - i,
        {
            let t = &self.client_top_levels[i];
            proof {
                assert(vs[i as int] == t@);
            }
            let mut k: usize = 0;
            while k < t.popups.len()
                invariant
                    k <= t.popups@.len(),
                    i < self.client_top_levels@.len(),
                    t == self.client_top_levels@[i as int],
                    vs == simple_views(self.client_top_levels@),
                    vs[i as int] == t@,
                    self.layer_shell_wl_surface != Some(active),
                    forall|j: int, m: int|
                        0 <= j < i && 0 <= m < vs[j].popups.len() ==> vs[j].popups[m].c_surface
                            != active,
                    forall|m: int| 0 <= m < k ==> t.popups@[m].c_surface != active,
                decreases t.popups@.len() - k,
            {
                if t.popups[k].c_surface == active {
                    proof {
                        assert(vs[i as int].popups[k as int].c_surface == active);
                    }
                    return Some(
                        SimpleServerSurface::Popup(
                            t.rectangle.loc(),
                            t.s_top_level,
                            t.popups[k].s_surface,
                        ),
                    );
                }
                k = k + 1;
            }
            i = i + 1;
        }
        None
    }

    /// The window or popup whose embedded surface is `active` and still
    /// exists, searching windows in order, each before its popups.
    pub fn server_surface_from_server_wl_surface(&self, active: u64) -> (res: Option<
        SimpleServerSurface,
    >)
        ensures
            ({
                let vs = simple_views(self.client_top_levels@);
                match res {
                    Some(SimpleServerSurface::TopLevel(loc, t)) => t == active && exists|i: int|
                        0 <= i < vs.len() && vs[i].alive && vs[i].s_top_level == active && loc
                            == vs[i].rectangle.loc_spec() && simple_none_before(vs, active, i),
                    Some(SimpleServerSurface::Popup(loc, t, p)) => p == active && exists|i: int, k: int|
                        0 <= i < vs.len() && !(vs[i].alive && vs[i].s_top_level == active) && 0 <= k
                            < vs[i].popups.len() && vs[i].popups[k].alive && vs[i].popups[k].s_surface
                            == active && (forall|m: int|
                            0 <= m < k ==> !(vs[i].popups[m].alive && vs[i].popups[m].s_surface
                                == active)) && loc == vs[i].rectangle.loc_spec() && t
                            == vs[i].s_top_level && simple_none_before(vs, active, i),
                    None => simple_none_before(vs, active, vs.len() as int),
                }
            }),
    {
        let ghost vs = simple_views(self.client_top_levels@);
        let mut i: usize = 0;
        while i < self.client_top_levels.len()
            invariant
                i <= self.client_top_levels@.len(),
                vs == simple_views(self.client_top_levels@),
                simple_none_before(vs, active, i as int),
            decreases self.client_top_levels@.len() - i,
        {
            let t = &self.client_top_levels[i];
            proof {
                assert(vs[i as int] == t@);
            }
            if t.alive && t.s_top_level == active {
                return Some(SimpleServerSurface::TopLevel(t.rectangle.loc(), t.s_top_level));
            }
            let mut k: usize = 0;
            while k < t.popups.len()
                invariant
                    k <= t.popups@.len(),
                    i < self.client_top_levels@.len(),
                    t == self.client_top_levels@[i as int],
                    vs == simple_views(self.client_top_levels@),
                    vs[i as int] == t@,
                    !(t.alive && t.s_top_level == active),
                    simple_none_before(vs, active, i as int),
                    forall|m: int|
                        0 <= m < k ==> !(t.popups@[m].alive && t.popups@[m].s_surface == active),
                decreases t.popups@.len() - k,
            {
                if t.popups[k].alive && t.popups[k].s_surface == active {
                    proof {
                        assert(vs[i as int].popups[k as int].alive && vs[i as int].popups[k as int].s_surface == active);
                        assert(!(vs[i as int].alive && vs[i as int].s_top_level == active));
                    }
                    return Some(
                        SimpleServerSurface::Popup(
                            t.rectangle.loc(),
                            t.s_top_level,
                            t.popups[k].s_surface,
                        ),
                    );
                }
                k = k + 1;
            }
            i = i + 1;
        }
        None
    }
}

/// No window before `i`, nor any popup of one, has the surface `x` alive.
pub open spec fn simple_none_before(vs: Seq<SimpleTopLevelView>, x: u64, i: int) -> bool {
    forall|j: int|
        0 <= j < i ==> !(vs[j].alive && vs[j].s_top_level == x) && forall|m: int|
            0 <= m < vs[j].popups.len() ==> !(vs[j].popups[m].alive && vs[j].popups[m].s_surface
                == x)
}


/// The placement rules of a popup, as the embedded client gave them.
#[derive(Clone, Copy, Debug, PartialEq, Eq, Structural)]
pub struct PositionerState {
    /// width of the popup
    pub rect_w: i32,
    /// height of the popup
    pub rect_h: i32,
    /// rectangle of the parent that the popup is anchored to
    pub anchor_rect: Rectangle,
    /// xdg-positioner protocol value of the anchor edge
    pub anchor_edges: u32,
    /// xdg-positioner protocol value of the gravity
    pub gravity: u32,
    /// xdg-positioner constraint adjustment bits
    pub constraint_adjustment: u32,
    /// offset from the anchor point
    pub offset: Point,
    /// the popup is to be moved when the parent moves
    pub reactive: bool,
    /// whether a parent size is given
    pub has_parent_size: bool,
    /// parent width, when given
    pub parent_w: i32,
    /// parent height, when given
    pub parent_h: i32,
}

/// The requests that set up the positioner of a popup on the desktop compositor.
#[derive(Clone, Copy, Debug)]
pub struct PositionerSetup {
    /// width of the popup
    pub size_w: i32,
    /// height of the popup
    pub size_h: i32,
    /// anchor rectangle, moved to where the parent window sits on the layer surface
    pub anchor_rect: Rectangle,
    /// anchor edge (0 when the value is not one the protocol knows)
    pub anchor: u32,
    /// gravity (0 when the value is not one the protocol knows)
    pub gravity: u32,
    /// constraint adjustment bits
    pub constraint_adjustment: u32,
    /// offset from the anchor point
    pub offset: Point,
    /// ask for reactive placement
    pub set_reactive: bool,
    /// give the parent size
    pub parent_size: Option<(i32, i32)>,
}

/// An xdg-positioner anchor or gravity value as the protocol reads it: values
/// beyond the last known one (8) read as none (0).
pub open spec fn positioner_enum_value(v: u32) -> u32 {
    if v <= 8 {
        v
    } else {
        0
    }
}

/// The positioner setup of a popup whose parent window sits at `parent`, for
/// a positioner of protocol version `version`: reactive placement and the
/// parent size are only given from version 3 on.
pub open spec fn positioner_setup_spec(state: PositionerState, parent: Rectangle, version: u32) -> PositionerSetup {
    PositionerSetup {
        size_w: state.rect_w,
        size_h: state.rect_h,
        anchor_rect: Rectangle {
            x: (state.anchor_rect.x + parent.x) as i32,
            y: (state.anchor_rect.y + parent.y) as i32,
            w: state.anchor_rect.w,
            h: state.anchor_rect.h,
        },
        anchor: positioner_enum_value(state.anchor_edges),
        gravity: positioner_enum_value(state.gravity),
        constraint_adjustment: state.constraint_adjustment,
        offset: state.offset,
        set_reactive: version >= 3 && state.reactive,
        parent_size: if version >= 3 && state.has_parent_size {
            Some((state.parent_w, state.parent_h))
        } else {
            None
        },
    }
}

/// The positioner is set up with the client's own anchor edge as its
/// anchor and the client's own gravity as its gravity, each kept when it is
/// a value the protocol knows (0 to 8) and none (0) otherwise; size, offset
/// and constraint adjustment are the client's, and the anchor rectangle is
/// moved by the parent's location.
pub proof fn lemma_positioner_keeps_client_values(state: PositionerState, parent: Rectangle, version: u32)
    ensures
        ({
            let s = positioner_setup_spec(state, parent, version);
            &&& state.anchor_edges <= 8 ==> s.anchor == state.anchor_edges
            &&& state.anchor_edges > 8 ==> s.anchor == 0
            &&& state.gravity <= 8 ==> s.gravity == state.gravity
            &&& state.gravity > 8 ==> s.gravity == 0
            &&& s.size_w == state.rect_w && s.size_h == state.rect_h
            &&& s.offset == state.offset
            &&& s.constraint_adjustment == state.constraint_adjustment
            &&& s.anchor_rect.w == state.anchor_rect.w && s.anchor_rect.h == state.anchor_rect.h
            &&& positioner_fits(state, parent) ==> s.anchor_rect.x == state.anchor_rect.x + parent.x
                && s.anchor_rect.y == state.anchor_rect.y + parent.y
        }),
{
}

/// The anchor rectangle, moved by the parent's location, fits in `i32`.
pub open spec fn positioner_fits(state: PositionerState, parent: Rectangle) -> bool {
    &&& i32::MIN <= state.anchor_rect.x + parent.x <= i32::MAX
    &&& i32::MIN <= state.anchor_rect.y + parent.y <= i32::MAX
}

fn positioner_setup(state: PositionerState, parent: Rectangle, version: u32) -> (s: PositionerSetup)
    requires
        positioner_fits(state, parent),
    ensures
        s == positioner_setup_spec(state, parent, version),
{
    let anchor = if state.anchor_edges <= 8 {
        state.anchor_edges
    } else {
        0
    };
    let gravity = if state.gravity <= 8 {
        state.gravity
    } else {
        0
    };
    PositionerSetup {
        size_w: state.rect_w,
        size_h: state.rect_h,
        anchor_rect: Rectangle {
            x: state.anchor_rect.x + parent.x,
            y: state.anchor_rect.y + parent.y,
            w: state.anchor_rect.w,
            h: state.anchor_rect.h,
        },
        anchor,
        gravity,
        constraint_adjustment: state.constraint_adjustment,
        offset: state.offset,
        set_reactive: version >= 3 && state.reactive,
        parent_size: if version >= 3 && state.has_parent_size {
            Some((state.parent_w, state.parent_h))
        } else {
            None
        },
    }
}

/// Why a popup could not be repositioned.
#[derive(Clone, Copy, Debug, PartialEq, Eq, Structural)]
pub enum RepositionError {
    /// no popup of the space is the one to reposition
    NotFound,
    /// the desktop compositor's positioner is older than version 3: the
    /// embedded popup is told it was repositioned and configured again instead
    NotSupported,
}

/// The first window whose surface is `x` and still exists.
pub open spec fn is_first_simple_window(vs: Seq<SimpleTopLevelView>, x: u64, i: int) -> bool {
    &&& 0 <= i < vs.len()
    &&& vs[i].alive && vs[i].s_top_level == x
    &&& forall|j: int| 0 <= j < i ==> !(vs[j].alive && vs[j].s_top_level == x)
}

fn find_simple_window(tops: &Vec<SimpleTopLevel>, x: u64) -> (res: Option<usize>)
    ensures
        match res {
            Some(i) => is_first_simple_window(simple_views(tops@), x, i as int),
            None => forall|j: int|
                0 <= j < tops@.len() ==> !(tops@[j].alive && tops@[j].s_top_level == x),
        },
{
    let ghost vs = simple_views(tops@);
    let mut i: usize = 0;
    while i < tops.len()
        invariant
            i <= tops@.len(),
            vs == simple_views(tops@),
            forall|j: int| 0 <= j < i ==> !(tops@[j].alive && tops@[j].s_top_level == x),
        decreases tops@.len() - i,
    {
        if tops[i].alive && tops[i].s_top_level == x {
            proof {
                assert forall|j: int| 0 <= j < i implies !(vs[j].alive && vs[j].s_top_level == x) by {
                    assert(vs[j] == tops@[j]@);
                }
                assert(vs[i as int] == tops@[i as int]@);
            }
            return Some(i);
        }
        i = i + 1;
    }
    None
}

/// The first popup (window by window) whose embedded surface is `x`.
pub open spec fn is_first_simple_popup(vs: Seq<SimpleTopLevelView>, x: u64, i: int, k: int) -> bool {
    &&& 0 <= i < vs.len()
    &&& 0 <= k < vs[i].popups.len()
    &&& vs[i].popups[k].s_surface == x
    &&& forall|m: int| 0 <= m < k ==> vs[i].popups[m].s_surface != x
    &&& forall|j: int, m: int| 0 <= j < i && 0 <= m < vs[j].popups.len() ==> vs[j].popups[m].s_surface != x
}

impl SimpleWrapperSpace {
    /// Adds a window of surface `s_top_level` whose surface belongs to the
    /// client `surface_client` (none once its surface is gone). Only a window
    /// of the wrapped client is added, at the top-left corner with no size
    /// yet, shown and to be rendered; the whole layer surface is to be
    /// redrawn in any case.
    pub fn add_top_level(&mut self, s_top_level: u64, surface_client: Option<u64>)
        requires
            surface_client is Some ==> old(self).client is Some,
        ensures
            final(self).full_clear,
            if surface_client is Some && surface_client == old(self).client {
                simple_views(final(self).client_top_levels@) == simple_views(
                    old(self).client_top_levels@,
                ).push(
                    SimpleTopLevelView {
                        s_top_level,
                        alive: true,
                        rectangle: Rectangle { x: 0, y: 0, w: 0, h: 0 },
                        dirty: true,
                        hidden: false,
                        priority: 0,
                        popups: Seq::empty(),
                    },
                )
            } else {
                final(self).client_top_levels@ == old(self).client_top_levels@
            },
            final(self).dimensions == old(self).dimensions,
            final(self).pending_dimensions == old(self).pending_dimensions,
            final(self).next_render_event == old(self).next_render_event,
            final(self).client == old(self).client,
            final(self).layer_shell_wl_surface == old(self).layer_shell_wl_surface,
            final(self).output == old(self).output,
    {
        self.full_clear = true;
        if let Some(c) = surface_client {
            let own = match self.client {
                Some(own) => own,
                None => c,
            };
            if c == own {
                let ghost before = self.client_top_levels@;
                let t = SimpleTopLevel {
                    s_top_level,
                    alive: true,
                    rectangle: Rectangle { x: 0, y: 0, w: 0, h: 0 },
                    dirty: true,
                    hidden: false,
                    priority: 0,
                    popups: Vec::new(),
                };
                self.client_top_levels.push(t);
                proof {
                    assert(simple_views(self.client_top_levels@) =~= simple_views(before).push(t@));
                }
            }
        }
    }

    /// Shows the embedded popup `s_surface` of the window with surface
    /// `parent` on the desktop surface `c_surface`. Every other popup is
    /// dropped first. When the window is found, the popup is added, waiting
    /// for its first configure, and the returned setup of its positioner
    /// places it relative to where the window sits on the layer surface.
    pub fn add_popup(
        &mut self,
        c_surface: u64,
        s_surface: u64,
        parent: u64,
        state: PositionerState,
        version: u32,
    ) -> (res: Option<PositionerSetup>)
        requires
            forall|j: int|
                0 <= j < old(self).client_top_levels@.len() ==> positioner_fits(
                    state,
                    #[trigger] old(self).client_top_levels@[j].rectangle,
                ),
        ensures
            ({
                let vs = simple_views(old(self).client_top_levels@);
                let closed = vs.map_values(
                    |v: SimpleTopLevelView| SimpleTopLevelView { popups: Seq::empty(), ..v },
                );
                match res {
                    Some(setup) => exists|i: int|
                        is_first_simple_window(vs, parent, i) && setup == positioner_setup_spec(
                            state,
                            vs[i].rectangle,
                            version,
                        ) && simple_views(final(self).client_top_levels@) == closed.update(
                            i,
                            SimpleTopLevelView {
                                popups: seq![
                                    SimplePopup {
                                        c_surface,
                                        s_surface,
                                        alive: true,
                                        dirty: false,
                                        should_render: false,
                                        next_render_event: Some(SimplePopupEvent::WaitConfigure),
                                    },
                                ],
                                ..closed[i]
                            },
                        ),
                    None => (forall|j: int| 0 <= j < vs.len() ==> !(vs[j].alive && vs[j].s_top_level == parent))
                        && simple_views(final(self).client_top_levels@) == closed,
                }
            }),
            final(self).dimensions == old(self).dimensions,
            final(self).focused_surface == old(self).focused_surface,
            final(self).layer_shell_wl_surface == old(self).layer_shell_wl_surface,
    {
        let ghost vs = simple_views(self.client_top_levels@);
        self.close_popups();
        proof {
            assert(simple_views(self.client_top_levels@) =~= vs.map_values(
                |v: SimpleTopLevelView| SimpleTopLevelView { popups: Seq::empty(), ..v },
            ));
        }
        match find_simple_window(&self.client_top_levels, parent) {
            Some(i) => {
                let ghost before = self.client_top_levels@;
                let mut t = self.client_top_levels.remove(i);
                proof {
                    assert(positioner_fits(state, old(self).client_top_levels@[i as int].rectangle));
                }
                let setup = positioner_setup(state, t.rectangle, version);
                t.popups.push(
                    SimplePopup {
                        c_surface,
                        s_surface,
                        alive: true,
                        dirty: false,
                        should_render: false,
                        next_render_event: Some(SimplePopupEvent::WaitConfigure),
                    },
                );
                self.client_top_levels.insert(i, t);
                proof {
                    assert(simple_views(self.client_top_levels@) =~= simple_views(before).update(
                        i as int,
                        t@,
                    ));
                    assert(simple_views(before)[i as int] == before[i as int]@);
                    assert(is_first_simple_window(simple_views(before), parent, i as int));
                    assert forall|j: int| 0 <= j < vs.len() implies simple_views(before)[j].alive
                        == vs[j].alive && simple_views(before)[j].s_top_level == vs[j].s_top_level by {
                        assert(simple_views(before)[j] == vs.map_values(
                            |v: SimpleTopLevelView| SimpleTopLevelView { popups: Seq::empty(), ..v },
                        )[j]);
                    }
                    assert(is_first_simple_window(vs, parent, i as int));
                    assert(t@.popups =~= seq![
                        SimplePopup {
                            c_surface,
                            s_surface,
                            alive: true,
                            dirty: false,
                            should_render: false,
                            next_render_event: Some(SimplePopupEvent::WaitConfigure),
                        },
                    ]);
                }
                Some(setup)
            },
            None => {
                proof {
                    assert forall|j: int| 0 <= j < vs.len() implies !(vs[j].alive && vs[j].s_top_level
                        == parent) by {
                        assert(simple_views(self.client_top_levels@)[j] == self.client_top_levels@[j]@);
                    }
                }
                None
            },
        }
    }

    /// The positioner setup for repositioning the popup whose embedded
    /// surface is `popup` (the first such, window by window), relative to
    /// where its window sits; an error when there is no such popup, or when
    /// the desktop compositor's positioner (of protocol version `version`) is
    /// older than version 3.
    pub fn reposition_popup(&self, popup: u64, state: PositionerState, version: u32) -> (res: Result<
        PositionerSetup,
        RepositionError,
    >)
        requires
            forall|j: int|
                0 <= j < self.client_top_levels@.len() ==> positioner_fits(
                    state,
                    #[trigger] self.client_top_levels@[j].rectangle,
                ),
        ensures
            ({
                let vs = simple_views(self.client_top_levels@);
                if exists|i: int, k: int| is_first_simple_popup(vs, popup, i, k) {
                    if version >= 3 {
                        exists|i: int, k: int|
                            is_first_simple_popup(vs, popup, i, k) && res == Ok::<
                                PositionerSetup,
                                RepositionError,
                            >(positioner_setup_spec(state, vs[i].rectangle, version))
                    } else {
                        res == Err::<PositionerSetup, RepositionError>(RepositionError::NotSupported)
                    }
                } else {
                    res == Err::<PositionerSetup, RepositionError>(RepositionError::NotFound)
                }
            }),
    {
        let ghost vs = simple_views(self.client_top_levels@);
        let mut i: usize = 0;
        while i < self.client_top_levels.len()
            invariant
                i <= self.client_top_levels@.len(),
                vs == simple_views(self.client_top_levels@),
                forall|j: int|
                    0 <= j < self.client_top_levels@.len() ==> positioner_fits(
                        state,
                        #[trigger] self.client_top_levels@[j].rectangle,
                    ),
                forall|j: int, m: int|
                    0 <= j < i && 0 <= m < vs[j].popups.len() ==> vs[j].popups[m].s_surface != popup,
            decreases self.client_top_levels@.len() - i,
        {
            let t = &self.client_top_levels[i];
            proof {
                assert(vs[i as int] == t@);
            }
            let mut k: usize = 0;
            while k < t.popups.len()
                invariant
                    k <= t.popups@.len(),
                    i < self.client_top_levels@.len(),
                    t == self.client_top_levels@[i as int],
                    vs == simple_views(self.client_top_levels@),
                    vs[i as int] == t@,
                    positioner_fits(state, t.rectangle),
                    forall|j: int, m: int|
                        0 <= j < i && 0 <= m < vs[j].popups.len() ==> vs[j].popups[m].s_surface
                            != popup,
                    forall|m: int| 0 <= m < k ==> t.popups@[m].s_surface != popup,
                decreases t.popups@.len() - k,
            {
                if t.popups[k].s_surface == popup {
                    proof {
                        assert(is_first_simple_popup(vs, popup, i as int, k as int));
                    }
                    if version >= 3 {
                        let setup = positioner_setup(state, t.rectangle, version);
                        return Ok(setup);
                    } else {
                        return Err(RepositionError::NotSupported);
                    }
                }
                k = k + 1;
            }
            i = i + 1;
        }
        proof {
            assert forall|i: int, k: int| !is_first_simple_popup(vs, popup, i, k) by {
                if 0 <= i < vs.len() && 0 <= k < vs[i].popups.len() {
                    assert(vs[i].popups[k].s_surface != popup);
                }
            }
        }
        Err(RepositionError::NotFound)
    }
}


/// The size that the layer surface waits to get: the size of a configure
/// event that is not yet handled, or the size asked for by the last request;
/// `dims` when the space is to quit, `fallback` when nothing is pending.
pub open spec fn awaited_dims(next: Option<SimpleSpaceEvent>, dims: (u32, u32), fallback: (u32, u32)) -> (
    u32,
    u32,
) {
    match next {
        Some(SimpleSpaceEvent::Configure { width, height, .. }) => (width, height),
        Some(SimpleSpaceEvent::WaitConfigure { width, height }) => (width, height),
        Some(SimpleSpaceEvent::Quit) => dims,
        None => fallback,
    }
}

fn awaited(next: Option<SimpleSpaceEvent>, dims: (u32, u32), fallback: (u32, u32)) -> (res: (u32, u32))
    ensures
        res == awaited_dims(next, dims, fallback),
{
    match next {
        Some(SimpleSpaceEvent::Configure { width, height, .. }) => (width, height),
        Some(SimpleSpaceEvent::WaitConfigure { width, height }) => (width, height),
        Some(SimpleSpaceEvent::Quit) => dims,
        None => fallback,
    }
}

/// The pending size after a window grew to content `(nw, nh)` (already held
/// into the size ranges) while the space is on an output: the layer surface
/// only grows, in each direction where the content is larger than the
/// current size, the pending size and the awaited size.
pub open spec fn grown_pending(
    dims: (u32, u32),
    pending: Option<(u32, u32)>,
    awaited: (u32, u32),
    nw: u32,
    nh: u32,
) -> Option<(u32, u32)> {
    let pd = match pending {
        Some(p) => p,
        None => dims,
    };
    let grow_w = dims.0 < nw && pd.0 < nw && awaited.0 < nw;
    let p1 = if grow_w {
        Some((nw, awaited.1))
    } else {
        pending
    };
    let wd = if grow_w {
        (nw, awaited.1)
    } else {
        awaited
    };
    if dims.1 < nh && pd.1 < nh && wd.1 < nh {
        Some((wd.0, nh))
    } else {
        p1
    }
}

/// The pending size after a window grew: in a direction where the new
/// content is larger than the current size, the pending size and the size
/// awaited, the pending size takes the content's length; when it is larger
/// in neither direction, the pending size is left as it was.
pub proof fn lemma_grown_pending_grows(
    dims: (u32, u32),
    pending: Option<(u32, u32)>,
    awaited: (u32, u32),
    nw: u32,
    nh: u32,
)
    ensures
        ({
            let pd = match pending {
                Some(p) => p,
                None => dims,
            };
            let r = grown_pending(dims, pending, awaited, nw, nh);
            &&& (dims.0 < nw && pd.0 < nw && awaited.0 < nw) ==> (r matches Some(p) && p.0 == nw)
            &&& (dims.1 < nh && pd.1 < nh && awaited.1 < nh) ==> (r matches Some(p) && p.1 == nh)
            &&& !(dims.0 < nw && pd.0 < nw && awaited.0 < nw) && !(dims.1 < nh && pd.1 < nh
                && awaited.1 < nh) ==> r == pending
            &&& r != pending ==> (r matches Some(p) && (p.0 == nw || p.0 == awaited.0) && (p.1
                == nh || p.1 == awaited.1))
        }),
{
}

impl SimpleWrapperSpace {
    /// A window of surface `surface` committed a buffer of size
    /// `(size_w, size_h)` at time `now`: the window takes that size and is to
    /// be rendered; then the layer surface is to grow to fit (see
    /// `grown_pending`) when the space is on an output, or otherwise to take
    /// exactly that size when it does not already await it. The whole layer
    /// surface is to be redrawn when the window or the requested size changed.
    pub fn dirty_toplevel(&mut self, surface: u64, size_w: i32, size_h: i32, now: u64)
        ensures
            ({
                let w = size_w as u32;
                let h = size_h as u32;
                let vs = simple_views(old(self).client_top_levels@);
                let found = exists|i: int| is_first_simple_window(vs, surface, i);
                let resized = exists|i: int|
                    is_first_simple_window(vs, surface, i) && (vs[i].rectangle.w != w as i32
                        || vs[i].rectangle.h != h as i32);
                let awaited_fallback = match old(self).pending_dimensions {
                    Some(p) => p,
                    None => old(self).dimensions,
                };
                let aw = awaited_dims(old(self).next_render_event, old(self).dimensions, awaited_fallback);
                let n = constrained_by_ranges((w, h), old(self).config.width_range, old(self).config.height_range);
                let request_changed = old(self).output is None && aw != (w, h);
                &&& final(self).last_dirty == Some(now)
                &&& (found ==> exists|i: int|
                    is_first_simple_window(vs, surface, i) && simple_views(final(self).client_top_levels@)
                        == vs.update(
                        i,
                        SimpleTopLevelView {
                            rectangle: Rectangle { w: w as i32, h: h as i32, ..vs[i].rectangle },
                            dirty: true,
                            ..vs[i]
                        },
                    ))
                &&& (!found ==> final(self).client_top_levels@ == old(self).client_top_levels@)
                &&& final(self).pending_dimensions == if old(self).output is Some {
                    grown_pending(old(self).dimensions, old(self).pending_dimensions, aw, n.0, n.1)
                } else if request_changed {
                    Some((w, h))
                } else {
                    old(self).pending_dimensions
                }
                &&& final(self).full_clear == (old(self).full_clear || resized || request_changed)
            }),
            final(self).dimensions == old(self).dimensions,
            final(self).next_render_event == old(self).next_render_event,
            final(self).config == old(self).config,
            final(self).output == old(self).output,
            final(self).focused_surface == old(self).focused_surface,
            final(self).layer_shell_wl_surface == old(self).layer_shell_wl_surface,
            final(self).client == old(self).client,
    {
        let w = size_w as u32;
        let h = size_h as u32;
        self.last_dirty = Some(now);
        let mut full_clear = false;
        let ghost vs = simple_views(self.client_top_levels@);
        match find_simple_window(&self.client_top_levels, surface) {
            Some(i) => {
                let ghost before = self.client_top_levels@;
                let mut t = self.client_top_levels.remove(i);
                if t.rectangle.w != w as i32 || t.rectangle.h != h as i32 {
                    t.rectangle = Rectangle { w: w as i32, h: h as i32, ..t.rectangle };
                    full_clear = true;
                }
                t.dirty = true;
                self.client_top_levels.insert(i, t);
                proof {
                    assert(simple_views(self.client_top_levels@) =~= vs.update(i as int, t@));
                    assert(vs[i as int] == before[i as int]@);
                    assert(t@ =~= SimpleTopLevelView {
                        rectangle: Rectangle { w: w as i32, h: h as i32, ..vs[i as int].rectangle },
                        dirty: true,
                        ..vs[i as int]
                    });
                    if full_clear {
                        assert(is_first_simple_window(vs, surface, i as int));
                    } else {
                        assert forall|k: int|
                            is_first_simple_window(vs, surface, k) implies !(vs[k].rectangle.w
                            != w as i32 || vs[k].rectangle.h != h as i32) by {
                            if k < i {
                                assert(!(vs[k].alive && vs[k].s_top_level == surface));
                            } else if k > i {
                                assert(!(vs[i as int].alive && vs[i as int].s_top_level == surface));
                            }
                        }
                    }
                }
            },
            None => {
                proof {
                    assert forall|k: int| !is_first_simple_window(vs, surface, k) by {
                        if 0 <= k < vs.len() {
                            assert(vs[k] == self.client_top_levels@[k]@);
                        }
                    }
                }
            },
        }
        let fallback = match self.pending_dimensions {
            Some(p) => p,
            None => self.dimensions,
        };
        if self.output.is_some() {
            let (new_w, new_h) = self.constrain_dim((w, h));
            let pending = fallback;
            let mut wait = awaited(self.next_render_event, self.dimensions, pending);
            if self.dimensions.0 < new_w && pending.0 < new_w && wait.0 < new_w {
                self.pending_dimensions = Some((new_w, wait.1));
                wait = (new_w, wait.1);
            }
            if self.dimensions.1 < new_h && pending.1 < new_h && wait.1 < new_h {
                self.pending_dimensions = Some((wait.0, new_h));
            }
        } else {
            let aw = awaited(self.next_render_event, self.dimensions, fallback);
            if aw.0 != w || aw.1 != h {
                self.pending_dimensions = Some((w, h));
                full_clear = true;
            }
        }
        if full_clear {
            self.full_clear = true;
        }
    }

    /// The popup `popup` of the window with surface `top_level` changed at
    /// time `now`: it is to be rendered (the first such popup of the first
    /// such window).
    pub fn dirty_popup(&mut self, top_level: u64, popup: u64, now: u64)
        ensures
            final(self).last_dirty == Some(now),
            ({
                let vs = simple_views(old(self).client_top_levels@);
                if exists|i: int, k: int|
                    is_first_simple_window(vs, top_level, i) && is_first_popup_in(
                        vs[i].popups,
                        popup,
                        k,
                    ) {
                    exists|i: int, k: int|
                        is_first_simple_window(vs, top_level, i) && is_first_popup_in(
                            vs[i].popups,
                            popup,
                            k,
                        ) && simple_views(final(self).client_top_levels@) == vs.update(
                            i,
                            SimpleTopLevelView {
                                popups: vs[i].popups.update(
                                    k,
                                    SimplePopup { dirty: true, ..vs[i].popups[k] },
                                ),
                                ..vs[i]
                            },
                        )
                } else {
                    simple_views(final(self).client_top_levels@) == vs
                }
            }),
            final(self).dimensions == old(self).dimensions,
            final(self).pending_dimensions == old(self).pending_dimensions,
            final(self).next_render_event == old(self).next_render_event,
            final(self).full_clear == old(self).full_clear,
    {
        self.last_dirty = Some(now);
        let ghost vs = simple_views(self.client_top_levels@);
        match find_simple_window(&self.client_top_levels, top_level) {
            Some(i) => {
                let ghost before = self.client_top_levels@;
                let mut t = self.client_top_levels.remove(i);
                proof {
                    assert(vs[i as int] == before[i as int]@);
                }
                match find_simple_popup(&t.popups, popup) {
                    Some(k) => {
                        let p = t.popups[k];
                        let ghost tp = t.popups@;
                        t.popups.set(k, SimplePopup { dirty: true, ..p });
                        proof {
                            assert(is_first_simple_window(vs, top_level, i as int));
                            assert(tp == vs[i as int].popups);
                            assert(is_first_popup_in(vs[i as int].popups, popup, k as int));
                            assert(t@ =~= SimpleTopLevelView {
                                popups: vs[i as int].popups.update(
                                    k as int,
                                    SimplePopup { dirty: true, ..vs[i as int].popups[k as int] },
                                ),
                                ..vs[i as int]
                            });
                        }
                    },
                    None => {
                        proof {
                            assert forall|ii: int, kk: int|
                                is_first_simple_window(vs, top_level, ii) implies !is_first_popup_in(
                                vs[ii].popups,
                                popup,
                                kk,
                            ) by {
                                if ii < i {
                                    assert(!(vs[ii].alive && vs[ii].s_top_level == top_level));
                                } else if ii > i {
                                    assert(!(vs[i as int].alive && vs[i as int].s_top_level == top_level));
                                }
                                if 0 <= kk < vs[ii].popups.len() {
                                    assert(vs[ii].popups[kk].s_surface != popup);
                                }
                            }
                        }
                    },
                }
                self.client_top_levels.insert(i, t);
                proof {
                    assert(simple_views(self.client_top_levels@) =~= vs.update(i as int, t@));
                }
            },
            None => {
                proof {
                    assert forall|ii: int| !is_first_simple_window(vs, top_level, ii) by {
                        if 0 <= ii < vs.len() {
                            assert(vs[ii] == self.client_top_levels@[ii]@);
                        }
                    }
                }
            },
        }
    }
}

/// The first popup of `popups` whose embedded surface is `x`.
pub open spec fn is_first_popup_in(popups: Seq<SimplePopup>, x: u64, k: int) -> bool {
    &&& 0 <= k < popups.len()
    &&& popups[k].s_surface == x
    &&& forall|m: int| 0 <= m < k ==> popups[m].s_surface != x
}

fn find_simple_popup(popups: &Vec<SimplePopup>, x: u64) -> (res: Option<usize>)
    ensures
        match res {
            Some(k) => is_first_popup_in(popups@, x, k as int),
            None => forall|k: int| 0 <= k < popups@.len() ==> popups@[k].s_surface != x,
        },
{
    let mut k: usize = 0;
    while k < popups.len()
        invariant
            k <= popups@.len(),
            forall|m: int| 0 <= m < k ==> popups@[m].s_surface != x,
        decreases popups@.len() - k,
    {
        if popups[k].s_surface == x {
            return Some(k);
        }
        k = k + 1;
    }
    None
}


/// Where a window's content is at render time, as the embedded compositor
/// computes it: the location of its bounding box (with subsurfaces) and the
/// damage its surface tree accumulated since the last render.
#[derive(Debug)]
pub struct WindowGeometry {
    /// location of the window's bounding box
    pub bbox_loc: Point,
    /// damage of the window's surface tree
    pub damage: Vec<Rectangle>,
}

/// One window drawn onto the layer surface.
#[derive(Debug)]
pub struct SimpleDraw {
    /// surface id of the window
    pub surface: u64,
    /// where the surface tree is drawn
    pub loc: Point,
    /// damage to draw
    pub damage: Vec<Rectangle>,
    /// rectangles of the layer surface cleared before drawing
    pub clear: Vec<Rectangle>,
}

/// What a render pass of the simple wrapper space does.
#[derive(Debug)]
pub struct SimpleRenderPlan {
    /// clear the whole layer surface first (this rectangle)
    pub full_clear: Option<Rectangle>,
    /// windows drawn, in order
    pub draws: Vec<SimpleDraw>,
    /// swap the layer surface's buffers with this damage
    pub swap: Option<Vec<Rectangle>>,
    /// popups drawn (by desktop surface id), in order
    pub popups: Vec<u64>,
    /// windows sent frame callbacks (by surface id), in order
    pub frames: Vec<u64>,
}

pub open spec fn offset_rect(r: Rectangle, o: Point) -> Rectangle {
    Rectangle { x: (r.x + o.x) as i32, y: (r.y + o.y) as i32, w: r.w, h: r.h }
}

/// Where a window's surface tree is drawn: its rectangle's location, less the
/// offset of its bounding box.
pub open spec fn draw_loc(rect: Rectangle, bbox: Point) -> Point {
    Point { x: (-(bbox.x - rect.x)) as i32, y: (-(bbox.y - rect.y)) as i32 }
}

/// The damage of a window: its surface tree's damage, or its whole rectangle
/// (at the draw location) when the tree reports none.
pub open spec fn window_damage(v: SimpleTopLevelView, bbox: Point, damage: Seq<Rectangle>) -> Seq<Rectangle> {
    if damage.len() == 0 {
        let l = draw_loc(v.rectangle, bbox);
        seq![Rectangle { x: l.x, y: l.y, w: v.rectangle.w, h: v.rectangle.h }]
    } else {
        damage
    }
}

pub open spec fn geometry_views(gs: Seq<WindowGeometry>) -> Seq<(Point, Seq<Rectangle>)> {
    gs.map_values(|g: WindowGeometry| (g.bbox_loc, g.damage@))
}

pub open spec fn draw_views(ds: Seq<SimpleDraw>) -> Seq<(u64, Point, Seq<Rectangle>, Seq<Rectangle>)> {
    ds.map_values(|d: SimpleDraw| (d.surface, d.loc, d.damage@, d.clear@))
}

/// A window is drawn when it is shown, its surface exists, and it is dirty or
/// the whole layer surface is redrawn.
pub open spec fn window_drawn(v: SimpleTopLevelView, full: bool) -> bool {
    !v.hidden && v.alive && (v.dirty || full)
}

/// The draws of a render pass: with a full clear every drawn window is drawn
/// with the whole layer surface as damage and nothing cleared per window;
/// otherwise with its own damage, cleared first at its place on the layer surface.
pub open spec fn simple_draws(
    vs: Seq<SimpleTopLevelView>,
    gs: Seq<(Point, Seq<Rectangle>)>,
    full: bool,
    whole: Rectangle,
) -> Seq<(u64, Point, Seq<Rectangle>, Seq<Rectangle>)>
    decreases vs.len(),
{
    if vs.len() == 0 || gs.len() != vs.len() {
        Seq::empty()
    } else {
        let rest = simple_draws(vs.drop_last(), gs.drop_last(), full, whole);
        let v = vs.last();
        let g = gs.last();
        if window_drawn(v, full) {
            let d = window_damage(v, g.0, g.1);
            if full {
                rest.push((v.s_top_level, draw_loc(v.rectangle, g.0), seq![whole], Seq::empty()))
            } else {
                rest.push(
                    (
                        v.s_top_level,
                        draw_loc(v.rectangle, g.0),
                        d,
                        d.map_values(|r: Rectangle| offset_rect(r, v.rectangle.loc_spec())),
                    ),
                )
            }
        } else {
            rest
        }
    }
}

/// Which windows a render pass draws, and how: with a full clear, every
/// shown window whose surface is alive (dirty or not), each with the whole
/// layer surface as damage and nothing cleared on its own; without, exactly
/// the shown, alive windows that are dirty. The draws keep the windows'
/// order.
pub proof fn lemma_render_draws_shown_windows(
    vs: Seq<SimpleTopLevelView>,
    gs: Seq<(Point, Seq<Rectangle>)>,
    full: bool,
    whole: Rectangle,
)
    requires
        gs.len() == vs.len(),
    ensures
        simple_draws(vs, gs, full, whole).map_values(
            |d: (u64, Point, Seq<Rectangle>, Seq<Rectangle>)| d.0,
        ) == vs.filter(|v: SimpleTopLevelView| !v.hidden && v.alive && (v.dirty || full)).map_values(
            |v: SimpleTopLevelView| v.s_top_level,
        ),
        full ==> forall|k: int|
            0 <= k < simple_draws(vs, gs, full, whole).len() ==> (#[trigger] simple_draws(
                vs,
                gs,
                full,
                whole,
            )[k]).2 == seq![whole] && simple_draws(vs, gs, full, whole)[k].3.len() == 0,
    decreases vs.len(),
{
    reveal(Seq::filter);
    let p = |v: SimpleTopLevelView| !v.hidden && v.alive && (v.dirty || full);
    if vs.len() > 0 {
        lemma_render_draws_shown_windows(vs.drop_last(), gs.drop_last(), full, whole);
        let rest = simple_draws(vs.drop_last(), gs.drop_last(), full, whole);
        let d = simple_draws(vs, gs, full, whole);
        assert(vs.filter(p) == if p(vs.last()) {
            vs.drop_last().filter(p).push(vs.last())
        } else {
            vs.drop_last().filter(p)
        });
        if p(vs.last()) {
            assert(d == rest.push(d.last()));
            assert(d.map_values(|d: (u64, Point, Seq<Rectangle>, Seq<Rectangle>)| d.0)
                =~= rest.map_values(|d: (u64, Point, Seq<Rectangle>, Seq<Rectangle>)| d.0).push(
                vs.last().s_top_level,
            ));
            assert(vs.drop_last().filter(p).push(vs.last()).map_values(
                |v: SimpleTopLevelView| v.s_top_level,
            ) =~= vs.drop_last().filter(p).map_values(|v: SimpleTopLevelView| v.s_top_level).push(
                vs.last().s_top_level,
            ));
            if full {
                assert forall|k: int| 0 <= k < d.len() implies (#[trigger] d[k]).2 == seq![whole]
                    && d[k].3.len() == 0 by {
                    if k < rest.len() {
                        assert(d[k] == rest[k]);
                    }
                }
            }
        } else {
            assert(d == rest);
        }
    }
}

/// Everything cleared by the draws, in order.
pub open spec fn all_clears(ds: Seq<(u64, Point, Seq<Rectangle>, Seq<Rectangle>)>) -> Seq<Rectangle>
    decreases ds.len(),
{
    if ds.len() == 0 {
        Seq::empty()
    } else {
        all_clears(ds.drop_last()) + ds.last().3
    }
}

/// The coordinates a render pass computes fit in `i32`.
pub open spec fn render_fits(vs: Seq<SimpleTopLevelView>, gs: Seq<(Point, Seq<Rectangle>)>, full: bool) -> bool {
    forall|i: int|
        0 <= i < vs.len() && window_drawn(vs[i], full) ==> {
            let v = vs[i];
            let g = #[trigger] gs[i];
            &&& i32::MIN < g.0.x - v.rectangle.x <= i32::MAX
            &&& i32::MIN < g.0.y - v.rectangle.y <= i32::MAX
            &&& !full ==> offsets_fit(window_damage(v, g.0, g.1), v.rectangle.loc_spec())
        }
}

/// Every rectangle of `ds`, moved by `o`, has its location in `i32`.
pub open spec fn offsets_fit(ds: Seq<Rectangle>, o: Point) -> bool {
    forall|k: int|
        0 <= k < ds.len() ==> i32::MIN <= #[trigger] ds[k].x + o.x <= i32::MAX && i32::MIN <= ds[k].y
            + o.y <= i32::MAX
}

/// The popups drawn by a render pass: of every shown window, each popup that
/// is to be rendered and still exists.
pub open spec fn simple_popups_drawn(vs: Seq<SimpleTopLevelView>) -> Seq<u64>
    decreases vs.len(),
{
    if vs.len() == 0 {
        Seq::empty()
    } else {
        let rest = simple_popups_drawn(vs.drop_last());
        let v = vs.last();
        if !v.hidden {
            rest + popups_drawn_of(v.popups)
        } else {
            rest
        }
    }
}

/// The popups of one window drawn by a render pass: each that is to be
/// rendered and still exists.
pub open spec fn popups_drawn_of(ps: Seq<SimplePopup>) -> Seq<u64>
    decreases ps.len(),
{
    if ps.len() == 0 {
        Seq::empty()
    } else {
        let rest = popups_drawn_of(ps.drop_last());
        if ps.last().should_render && ps.last().alive {
            rest.push(ps.last().c_surface)
        } else {
            rest
        }
    }
}

pub open spec fn popup_after_simple_render(p: SimplePopup) -> SimplePopup {
    if p.should_render {
        SimplePopup { dirty: false, ..p }
    } else {
        p
    }
}

/// The windows sent frame callbacks: every dirty window whose surface exists.
pub open spec fn simple_frames(vs: Seq<SimpleTopLevelView>) -> Seq<u64>
    decreases vs.len(),
{
    if vs.len() == 0 {
        Seq::empty()
    } else {
        let rest = simple_frames(vs.drop_last());
        let v = vs.last();
        if v.dirty && v.alive {
            rest.push(v.s_top_level)
        } else {
            rest
        }
    }
}

/// A window after a render pass: no longer dirty; when shown, its popups
/// that were to be rendered are no longer dirty.
pub open spec fn window_after_render(v: SimpleTopLevelView) -> SimpleTopLevelView {
    SimpleTopLevelView {
        dirty: false,
        popups: if !v.hidden {
            v.popups.map_values(|p: SimplePopup| popup_after_simple_render(p))
        } else {
            v.popups
        },
        ..v
    }
}


fn copy_rects(v: &Vec<Rectangle>) -> (res: Vec<Rectangle>)
    ensures
        res@ == v@,
{
    let mut res: Vec<Rectangle> = Vec::new();
    let mut i: usize = 0;
    while i < v.len()
        invariant
            i <= v@.len(),
            res@ == v@.subrange(0, i as int),
        decreases v@.len() - i,
    {
        res.push(v[i]);
        proof {
            assert(res@ =~= v@.subrange(0, i + 1));
        }
        i = i + 1;
    }
    proof {
        assert(v@.subrange(0, v@.len() as int) =~= v@);
    }
    res
}

fn offset_rects(v: &Vec<Rectangle>, o: Point) -> (res: Vec<Rectangle>)
    requires
        offsets_fit(v@, o),
    ensures
        res@ == v@.map_values(|r: Rectangle| offset_rect(r, o)),
{
    let mut res: Vec<Rectangle> = Vec::new();
    let mut i: usize = 0;
    while i < v.len()
        invariant
            i <= v@.len(),
            offsets_fit(v@, o),
            res@ == v@.subrange(0, i as int).map_values(|r: Rectangle| offset_rect(r, o)),
        decreases v@.len() - i,
    {
        let r = v[i];
        proof {
            assert(i32::MIN <= v@[i as int].x + o.x <= i32::MAX);
        }
        res.push(Rectangle { x: r.x + o.x, y: r.y + o.y, w: r.w, h: r.h });
        proof {
            assert(res@ =~= v@.subrange(0, i + 1).map_values(|r: Rectangle| offset_rect(r, o)));
        }
        i = i + 1;
    }
    proof {
        assert(v@.subrange(0, v@.len() as int) =~= v@);
    }
    res
}

fn append_rects(dst: &mut Vec<Rectangle>, src: &Vec<Rectangle>)
    ensures
        final(dst)@ == old(dst)@ + src@,
{
    let mut i: usize = 0;
    let ghost start = dst@;
    while i < src.len()
        invariant
            i <= src@.len(),
            dst@ == start + src@.subrange(0, i as int),
        decreases src@.len() - i,
    {
        dst.push(src[i]);
        proof {
            assert(dst@ =~= start + src@.subrange(0, i + 1));
        }
        i = i + 1;
    }
    proof {
        assert(src@.subrange(0, src@.len() as int) =~= src@);
    }
}

/// The whole layer surface of size `dims`, at the origin.
pub open spec fn whole_surface(dims: (u32, u32)) -> Rectangle {
    Rectangle { x: 0, y: 0, w: dims.0 as i32, h: dims.1 as i32 }
}

impl SimpleWrapperSpace {
    /// Plans a render pass of the layer surface (see `simple_draws`): the
    /// layer surface is cleared whole when a full clear was asked for; its
    /// buffers are swapped when it was or when a shown window is dirty; then
    /// the popups to be rendered are drawn and dirty windows get frame
    /// callbacks. Afterwards nothing is dirty and no full clear is pending.
    /// Only a space that was shown on an output (see `add_output`) renders.
    pub fn render(&mut self, windows: &Vec<WindowGeometry>) -> (plan: SimpleRenderPlan)
        requires
            old(self).layer_shell_wl_surface is Some,
            windows@.len() == old(self).client_top_levels@.len(),
            render_fits(
                simple_views(old(self).client_top_levels@),
                geometry_views(windows@),
                old(self).full_clear,
            ),
        ensures
            ({
                let vs = simple_views(old(self).client_top_levels@);
                let full = old(self).full_clear;
                let whole = whole_surface(old(self).dimensions);
                let draws = simple_draws(vs, geometry_views(windows@), full, whole);
                &&& plan.full_clear == if full {
                    Some(whole)
                } else {
                    None
                }
                &&& draw_views(plan.draws@) == draws
                &&& (plan.swap is Some) == (full || exists|i: int|
                    0 <= i < vs.len() && vs[i].dirty && !vs[i].hidden)
                &&& (plan.swap matches Some(d) ==> d@ == (if full {
                    seq![whole]
                } else {
                    Seq::empty()
                }) + all_clears(draws))
                &&& plan.popups@ == simple_popups_drawn(vs)
                &&& plan.frames@ == simple_frames(vs)
                &&& simple_views(final(self).client_top_levels@) == vs.map_values(
                    |v: SimpleTopLevelView| window_after_render(v),
                )
            }),
            !final(self).full_clear,
            final(self).dimensions == old(self).dimensions,
            final(self).pending_dimensions == old(self).pending_dimensions,
            final(self).next_render_event == old(self).next_render_event,
            final(self).config == old(self).config,
            final(self).output == old(self).output,
            final(self).client == old(self).client,
            final(self).focused_surface == old(self).focused_surface,
            final(self).layer_shell_wl_surface == old(self).layer_shell_wl_surface,
            final(self).last_dirty == old(self).last_dirty,
            final(self).visibility == old(self).visibility,
            final(self).has_child == old(self).has_child,
            final(self).has_layer_shell == old(self).has_layer_shell,
    {
        let ghost vs = simple_views(self.client_top_levels@);
        let ghost gs = geometry_views(windows@);
        let full = self.full_clear;
        self.full_clear = false;
        let whole = Rectangle { x: 0, y: 0, w: self.dimensions.0 as i32, h: self.dimensions.1 as i32 };
        let mut swap_damage: Vec<Rectangle> = Vec::new();
        if full {
            swap_damage.push(whole);
        }
        let ghost prefix = swap_damage@;
        let mut draws: Vec<SimpleDraw> = Vec::new();
        let mut i: usize = 0;
        while i < self.client_top_levels.len()
            invariant
                i <= self.client_top_levels@.len(),
                windows@.len() == self.client_top_levels@.len(),
                vs == simple_views(self.client_top_levels@),
                gs == geometry_views(windows@),
                render_fits(vs, gs, full),
                draw_views(draws@) == simple_draws(
                    vs.subrange(0, i as int),
                    gs.subrange(0, i as int),
                    full,
                    whole,
                ),
                swap_damage@ == prefix + all_clears(draw_views(draws@)),
            decreases self.client_top_levels@.len() - i,
        {
            let t = &self.client_top_levels[i];
            let g = &windows[i];
            proof {
                assert(vs[i as int] == t@);
                assert(gs[i as int] == (g.bbox_loc, g.damage@));
                assert(vs.subrange(0, i + 1).drop_last() =~= vs.subrange(0, i as int));
                assert(gs.subrange(0, i + 1).drop_last() =~= gs.subrange(0, i as int));
                assert(vs.subrange(0, i + 1).last() == vs[i as int]);
                assert(gs.subrange(0, i + 1).last() == gs[i as int]);
            }
            let ghost dv = draw_views(draws@);
            if !t.hidden && t.alive && (t.dirty || full) {
                proof {
                    assert(window_drawn(vs[i as int], full));
                }
                let loc = Point {
                    x: -(g.bbox_loc.x - t.rectangle.x),
                    y: -(g.bbox_loc.y - t.rectangle.y),
                };
                if full {
                    let mut damage: Vec<Rectangle> = Vec::new();
                    damage.push(whole);
                    let d = SimpleDraw { surface: t.s_top_level, loc, damage, clear: Vec::new() };
                    let ghost d_view = (d.surface, d.loc, d.damage@, d.clear@);
                    draws.push(d);
                    proof {
                        assert(draw_views(draws@) =~= dv.push(d_view));
                        assert(dv.push(d_view).drop_last() =~= dv);
                        assert(d_view.3 =~= Seq::<Rectangle>::empty());
                        assert(all_clears(dv.push(d_view)) =~= all_clears(dv) + d_view.3);
                    }
                } else {
                    let damage = if g.damage.len() == 0 {
                        let mut d: Vec<Rectangle> = Vec::new();
                        d.push(Rectangle { x: loc.x, y: loc.y, w: t.rectangle.w, h: t.rectangle.h });
                        d
                    } else {
                        copy_rects(&g.damage)
                    };
                    proof {
                        assert(damage@ =~= window_damage(vs[i as int], g.bbox_loc, g.damage@));
                        assert(offsets_fit(damage@, t.rectangle.loc_spec()));
                    }
                    let clear = offset_rects(&damage, t.rectangle.loc());
                    append_rects(&mut swap_damage, &clear);
                    let d = SimpleDraw { surface: t.s_top_level, loc, damage, clear };
                    let ghost d_view = (d.surface, d.loc, d.damage@, d.clear@);
                    draws.push(d);
                    proof {
                        assert(draw_views(draws@) =~= dv.push(d_view));
                        assert(dv.push(d_view).drop_last() =~= dv);
                        assert(all_clears(dv.push(d_view)) =~= all_clears(dv) + d_view.3);
                    }
                }
            }
            i = i + 1;
        }
        proof {
            assert(vs.subrange(0, i as int) =~= vs);
            assert(gs.subrange(0, i as int) =~= gs);
        }
        let mut any_dirty = false;
        let mut j: usize = 0;
        while j < self.client_top_levels.len()
            invariant
                j <= self.client_top_levels@.len(),
                vs == simple_views(self.client_top_levels@),
                any_dirty == exists|k: int| 0 <= k < j && vs[k].dirty && !vs[k].hidden,
            decreases self.client_top_levels@.len() - j,
        {
            proof {
                assert(vs[j as int] == self.client_top_levels@[j as int]@);
            }
            if self.client_top_levels[j].dirty && !self.client_top_levels[j].hidden {
                any_dirty = true;
            }
            j = j + 1;
        }
        let swap = if any_dirty || full {
            Some(swap_damage)
        } else {
            None
        };
        // popups, then frame callbacks
        let mut popups: Vec<u64> = Vec::new();
        let mut frames: Vec<u64> = Vec::new();
        let ghost before = self.client_top_levels@;
        let mut i: usize = 0;
        while i < self.client_top_levels.len()
            invariant
                i <= self.client_top_levels@.len(),
                self.client_top_levels@.len() == before.len(),
                vs == simple_views(before),
                forall|j: int|
                    0 <= j < i ==> self.client_top_levels@[j]@ == window_after_render(before[j]@),
                forall|j: int| i <= j < before.len() ==> self.client_top_levels@[j] == before[j],
                popups@ == simple_popups_drawn(vs.subrange(0, i as int)),
                frames@ == simple_frames(vs.subrange(0, i as int)),
                !self.full_clear,
                self.dimensions == old(self).dimensions,
                self.pending_dimensions == old(self).pending_dimensions,
                self.next_render_event == old(self).next_render_event,
                self.config == old(self).config,
                self.output == old(self).output,
                self.client == old(self).client,
                self.focused_surface == old(self).focused_surface,
                self.layer_shell_wl_surface == old(self).layer_shell_wl_surface,
                self.last_dirty == old(self).last_dirty,
                self.visibility == old(self).visibility,
                self.has_child == old(self).has_child,
                self.has_layer_shell == old(self).has_layer_shell,
            decreases before.len() - i,
        {
            let ghost cur = self.client_top_levels@;
            let mut t = self.client_top_levels.remove(i);
            proof {
                assert(t == before[i as int]);
                assert(vs[i as int] == t@);
                assert(vs.subrange(0, i + 1).drop_last() =~= vs.subrange(0, i as int));
                assert(vs.subrange(0, i + 1).last() == vs[i as int]);
            }
            let ghost tv = t@;
            if !t.hidden {
                let ghost ps = t.popups@;
                let mut k: usize = 0;
                let ghost drawn_before = popups@;
                while k < t.popups.len()
                    invariant
                        k <= t.popups@.len(),
                        t.popups@.len() == ps.len(),
                        forall|m: int| 0 <= m < k ==> t.popups@[m] == popup_after_simple_render(ps[m]),
                        forall|m: int| k <= m < ps.len() ==> t.popups@[m] == ps[m],
                        popups@ == drawn_before + popups_drawn_of(ps.subrange(0, k as int)),
                        t.dirty == tv.dirty,
                        t.alive == tv.alive,
                        t.hidden == tv.hidden,
                        t.s_top_level == tv.s_top_level,
                        t.rectangle == tv.rectangle,
                        t.priority == tv.priority,
                        ps == tv.popups,
                        frames@ == simple_frames(vs.subrange(0, i as int)),
                    decreases ps.len() - k,
                {
                    let p = t.popups[k];
                    proof {
                        assert(ps.subrange(0, k + 1).drop_last() =~= ps.subrange(0, k as int));
                        assert(ps.subrange(0, k + 1).last() == ps[k as int]);
                    }
                    if p.should_render {
                        t.popups.set(k, SimplePopup { dirty: false, ..p });
                        if p.alive {
                            popups.push(p.c_surface);
                        }
                    }
                    proof {
                        assert(popups@ =~= drawn_before + popups_drawn_of(ps.subrange(0, k + 1)));
                    }
                    k = k + 1;
                }
                proof {
                    assert(ps.subrange(0, ps.len() as int) =~= ps);
                    assert(t.popups@ =~= ps.map_values(|p: SimplePopup| popup_after_simple_render(p)));
                }
            }
            if t.dirty {
                t.dirty = false;
                if t.alive {
                    frames.push(t.s_top_level);
                }
            }
            self.client_top_levels.insert(i, t);
            proof {
                assert(self.client_top_levels@ =~= cur.update(i as int, t));
                assert(t@ =~= window_after_render(tv));
            }
            i = i + 1;
        }
        proof {
            assert(vs.subrange(0, i as int) =~= vs);
            assert(simple_views(self.client_top_levels@) =~= vs.map_values(
                |v: SimpleTopLevelView| window_after_render(v),
            ));
        }
        SimpleRenderPlan {
            full_clear: if full {
                Some(whole)
            } else {
                None
            },
            draws,
            swap,
            popups,
            frames,
        }
    }
}


/// What the program does after `SimpleWrapperSpace::handle_events`.
#[derive(Debug)]
pub struct SimpleEventsWork {
    /// every wrapped child exited: exit the program
    pub exit: bool,
    /// the layer surface was closed: kill the wrapped children
    pub kill_children: bool,
    /// commit the layer surface and resize its EGL surface to this size
    pub resize: Option<(u32, u32)>,
    /// ask the desktop compositor for this size, then commit the layer surface
    pub request_size: Option<(u32, u32)>,
    /// run a render pass (`SimpleWrapperSpace::render`)
    pub render: bool,
}

/// One step of the layer surface's event handling, from the pending event,
/// the pending size, the size and the full-clear flag to their new values and
/// the work to do: (next event, pending size, size, full clear, kill children,
/// resize, request size, render).
///
/// A quit kills the children; a configure event to a new size is taken unless
/// a size request is pending; a surface that waits for a configure keeps
/// waiting; with nothing pending, a pending size is requested, or else the
/// surface is rendered.
pub open spec fn simple_events_step(
    next: Option<SimpleSpaceEvent>,
    pending: Option<(u32, u32)>,
    dims: (u32, u32),
    full_clear: bool,
) -> (Option<SimpleSpaceEvent>, Option<(u32, u32)>, (u32, u32), bool, bool, Option<(u32, u32)>, Option<
    (u32, u32),
>, bool) {
    match next {
        Some(SimpleSpaceEvent::Quit) => (None, pending, dims, full_clear, true, None, None, false),
        Some(SimpleSpaceEvent::Configure { width, height, .. }) => {
            if dims != (width, height) && pending is None {
                (None, pending, (width, height), true, false, Some((width, height)), None, false)
            } else {
                (None, pending, dims, full_clear, false, None, None, false)
            }
        },
        Some(SimpleSpaceEvent::WaitConfigure { .. }) => (
            next,
            pending,
            dims,
            full_clear,
            false,
            None,
            None,
            false,
        ),
        None => match pending {
            Some(p) => (
                Some(SimpleSpaceEvent::WaitConfigure { width: p.0, height: p.1 }),
                None,
                dims,
                full_clear,
                false,
                None,
                Some(p),
                false,
            ),
            None => (None, None, dims, full_clear, false, None, None, true),
        },
    }
}

/// `SimpleWrapperSpace::add_output` was called on a space that already has
/// an output, a layer shell or a layer surface.
#[derive(Clone, Copy, Debug, PartialEq, Eq, Structural)]
pub enum AddOutputError {
    /// output already added!
    AlreadyAdded,
}

/// `SimpleWrapperSpace::spawn_clients` was called after the client was started.
#[derive(Clone, Copy, Debug, PartialEq, Eq, Structural)]
pub enum SpawnError {
    /// Clients have already been spawned!
    AlreadySpawned,
}

impl SimpleWrapperSpace {
    /// Handles the pending event of the layer surface (see
    /// `simple_events_step`). When every wrapped child has exited
    /// (`children_exited`, also when none was started) the program is to exit
    /// and nothing changes.
    pub fn handle_events(&mut self, children_exited: bool) -> (work: SimpleEventsWork)
        requires
            children_exited || old(self).layer_shell_wl_surface is Some,
        ensures
            work.exit == children_exited,
            children_exited ==> *final(self) == *old(self) && !work.kill_children
                && work.resize is None && work.request_size is None && !work.render,
            !children_exited ==> ({
                let r = simple_events_step(
                    old(self).next_render_event,
                    old(self).pending_dimensions,
                    old(self).dimensions,
                    old(self).full_clear,
                );
                &&& *final(self) == (SimpleWrapperSpace {
                    next_render_event: r.0,
                    pending_dimensions: r.1,
                    dimensions: r.2,
                    full_clear: r.3,
                    ..*old(self)
                })
                &&& work.kill_children == r.4
                &&& work.resize == r.5
                &&& work.request_size == r.6
                &&& work.render == r.7
            }),
    {
        let mut work = SimpleEventsWork {
            exit: children_exited,
            kill_children: false,
            resize: None,
            request_size: None,
            render: false,
        };
        if children_exited {
            return work;
        }
        let next = self.next_render_event.take();
        match next {
            Some(SimpleSpaceEvent::Quit) => {
                work.kill_children = true;
            },
            Some(SimpleSpaceEvent::Configure { width, height, serial: _ }) => {
                let differs = self.dimensions.0 != width || self.dimensions.1 != height;
                if differs && self.pending_dimensions.is_none() {
                    self.dimensions = (width, height);
                    self.full_clear = true;
                    work.resize = Some((width, height));
                }
            },
            Some(SimpleSpaceEvent::WaitConfigure { width, height }) => {
                self.next_render_event = Some(SimpleSpaceEvent::WaitConfigure { width, height });
            },
            None => {
                match self.pending_dimensions.take() {
                    Some(p) => {
                        self.next_render_event = Some(
                            SimpleSpaceEvent::WaitConfigure { width: p.0, height: p.1 },
                        );
                        work.request_size = Some(p);
                    },
                    None => {
                        work.render = true;
                    },
                }
            },
        }
        work
    }

    /// The layer surface's EGL surface reports size `size`: when that is not
    /// the size of the layer surface, the whole surface is to be redrawn.
    pub fn note_egl_size(&mut self, size: Option<(i32, i32)>)
        ensures
            *final(self) == (SimpleWrapperSpace {
                full_clear: old(self).full_clear || size != Some(
                    (old(self).dimensions.0 as i32, old(self).dimensions.1 as i32),
                ),
                ..*old(self)
            }),
    {
        let w = self.dimensions.0 as i32;
        let h = self.dimensions.1 as i32;
        let same = match size {
            Some(s) => s.0 == w && s.1 == h,
            None => false,
        };
        if !same {
            self.full_clear = true;
        }
    }

    /// Shows the space on `output` (the output's id, when the output and its
    /// description are both known), on the desktop surface `c_surface`:
    /// returns the requests that set up its layer surface, at the configured
    /// layer and anchor, with the configured keyboard interactivity and the
    /// smallest size that the size ranges allow. The space then waits for the
    /// first configure event and is to be cleared whole. Refused when the
    /// space already has an output, a layer shell or a layer surface.
    pub fn add_output(&mut self, output: Option<u64>, c_surface: u64, focused_surface: Option<u64>)
        -> (res: Result<LayerSurfaceSetup, AddOutputError>)
        ensures
            ({
                let taken = old(self).layer_shell_wl_surface is Some || old(self).output is Some
                    || old(self).has_layer_shell;
                let dims = constrained_by_ranges(
                    (0u32, 0u32),
                    old(self).config.width_range,
                    old(self).config.height_range,
                );
                &&& taken ==> res == Err::<LayerSurfaceSetup, AddOutputError>(
                    AddOutputError::AlreadyAdded,
                ) && *final(self) == *old(self)
                &&& !taken ==> res == Ok::<LayerSurfaceSetup, AddOutputError>(
                    LayerSurfaceSetup {
                        layer: layer_value_spec(old(self).config.layer),
                        anchor: anchor_bits_spec(old(self).config.anchor),
                        keyboard_interactivity: keyboard_interactivity_value_spec(
                            old(self).config.keyboard_interactivity,
                        ),
                        size: dims,
                    },
                ) && *final(self) == (SimpleWrapperSpace {
                    output,
                    has_layer_shell: true,
                    dimensions: dims,
                    focused_surface,
                    next_render_event: Some(
                        SimpleSpaceEvent::WaitConfigure { width: dims.0, height: dims.1 },
                    ),
                    full_clear: true,
                    layer_shell_wl_surface: Some(c_surface),
                    ..*old(self)
                })
            }),
    {
        if self.layer_shell_wl_surface.is_some() || self.output.is_some() || self.has_layer_shell {
            return Err(AddOutputError::AlreadyAdded);
        }
        let dims = self.constrain_dim((0, 0));
        let setup = LayerSurfaceSetup {
            layer: self.config.layer(),
            anchor: self.config.anchor.to_bits(),
            keyboard_interactivity: self.config.keyboard_interactivity(),
            size: dims,
        };
        self.output = output;
        self.has_layer_shell = true;
        self.dimensions = dims;
        self.focused_surface = focused_surface;
        self.next_render_event = Some(SimpleSpaceEvent::WaitConfigure { width: dims.0, height: dims.1 });
        self.full_clear = true;
        self.layer_shell_wl_surface = Some(c_surface);
        Ok(setup)
    }

    /// Asks to start the wrapped client again: a space whose client was
    /// already started refuses, and nothing changes. (A space without a
    /// started client cannot start one here.)
    pub fn spawn_clients(&mut self) -> (res: Result<(), SpawnError>)
        requires
            old(self).has_child,
        ensures
            res == Err::<(), SpawnError>(SpawnError::AlreadySpawned),
            *final(self) == *old(self),
    {
        Err(SpawnError::AlreadySpawned)
    }
}

} // verus!
