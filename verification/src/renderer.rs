//! The renderer of the xdg-shell wrapper: every wrapped window gets a layer
//! surface of its own on the configured output.

use vstd::prelude::*;

use crate::config::{LayerLayout, LayerSurfaceSetup, layer_setup_spec};
use crate::events::{PopupRenderEvent, RenderEvent};
use crate::geometry::{Rectangle, constrain_dim_by_min_max, constrained_by_min_max};
use crate::surface::{
    Popup,
    RenderPlan,
    SurfaceUpdate,
    TopLevelSurface,
    TopLevelView,
    after_events,
    after_render,
};

verus! {

/// An embedded surface found for a surface of the desktop compositor.
#[derive(Clone, Copy, Debug, PartialEq, Eq, Structural)]
pub enum ServerSurface {
    /// the wrapped window with this surface id
    TopLevel(u64),
    /// the popup with surface id `.1` of the wrapped window with surface id `.0`
    Popup(u64, u64),
}

/// What handling events asks of the drawing side, per wrapped window.
#[derive(Debug)]
pub struct RendererWork {
    /// the root window is gone: stop the wrapped command
    pub kill_child: bool,
    /// for each window handled (by desktop surface id), the EGL surfaces to resize
    pub updates: Vec<(u64, SurfaceUpdate)>,
    /// for each window kept (by desktop surface id), what to draw
    pub renders: Vec<(u64, RenderPlan)>,
}

/// The renderer of the xdg-shell wrapper.
#[derive(Debug)]
pub struct WrapperRenderer {
    /// the wrapped windows
    pub surfaces: Vec<TopLevelSurface>,
    /// the output (id and name) to show the surfaces on
    pub output: Option<(u64, String)>,
    /// how the layer surfaces are laid out
    pub layout: LayerLayout,
    /// the display still has to be bound to the renderer
    pub needs_update: bool,
    /// the EGL display and renderer exist
    pub has_renderer: bool,
}

pub open spec fn surface_views(s: Seq<TopLevelSurface>) -> Seq<TopLevelView> {
    s.map_values(|t: TopLevelSurface| t@)
}

/// The windows kept by an event pass, and whether the root window went away.
/// A kept window is rendered in the same pass when a renderer exists.
pub open spec fn renderer_pass(vs: Seq<TopLevelView>, has_renderer: bool) -> (Seq<TopLevelView>, bool)
    decreases vs.len(),
{
    if vs.len() == 0 {
        (Seq::empty(), false)
    } else {
        let (rest, kill) = renderer_pass(vs.drop_last(), has_renderer);
        let e = after_events(vs.last());
        if e.1 {
            (rest, kill || vs.last().is_root)
        } else if has_renderer {
            (rest.push(after_render(e.0).0), kill)
        } else {
            (rest.push(e.0), kill)
        }
    }
}

/// What each window kept by an event pass draws, in order, by desktop
/// surface id: (surface, window drawn, popups drawn); nothing without a
/// renderer.
pub open spec fn renderer_renders(vs: Seq<TopLevelView>, has_renderer: bool) -> Seq<(u64, bool, Seq<u64>)>
    decreases vs.len(),
{
    if vs.len() == 0 {
        Seq::empty()
    } else {
        let rest = renderer_renders(vs.drop_last(), has_renderer);
        let e = after_events(vs.last());
        if !e.1 && has_renderer {
            let r = after_render(e.0);
            rest.push((vs.last().c_top_level, r.1, r.2))
        } else {
            rest
        }
    }
}

/// A surface update as a mathematical value: (remove, resize, popup resizes).
pub open spec fn update_view(u: SurfaceUpdate) -> (bool, Option<(u32, u32)>, Seq<(u64, i32, i32)>) {
    (u.remove, u.resize, u.popup_resizes@)
}

/// The render plans of a pass as mathematical values.
pub open spec fn render_views(rs: Seq<(u64, RenderPlan)>) -> Seq<(u64, bool, Seq<u64>)> {
    rs.map_values(|r: (u64, RenderPlan)| (r.0, r.1.toplevel, r.1.popups@))
}

/// The first wrapped window whose surface is `surface` and still exists.
pub open spec fn is_first_window(vs: Seq<TopLevelView>, surface: u64, i: int) -> bool {
    &&& 0 <= i < vs.len()
    &&& vs[i].alive && vs[i].s_top_level == surface
    &&& forall|j: int| 0 <= j < i ==> !(vs[j].alive && vs[j].s_top_level == surface)
}

pub open spec fn has_window(vs: Seq<TopLevelView>, surface: u64) -> bool {
    exists|i: int| is_first_window(vs, surface, i)
}

fn find_window(surfaces: &Vec<TopLevelSurface>, surface: u64) -> (res: Option<usize>)
    ensures
        match res {
            Some(i) => is_first_window(surface_views(surfaces@), surface, i as int),
            None => !has_window(surface_views(surfaces@), surface),
        },
{
    let ghost vs = surface_views(surfaces@);
    let mut i: usize = 0;
    while i < surfaces.len()
        invariant
            i <= surfaces@.len(),
            vs == surface_views(surfaces@),
            forall|j: int| 0 <= j < i ==> !(vs[j].alive && vs[j].s_top_level == surface),
        decreases surfaces@.len() - i,
    {
        if surfaces[i].alive && surfaces[i].s_top_level == surface {
            return Some(i);
        }
        i = i + 1;
    }
    proof {
        if has_window(vs, surface) {
            let k = choose|k: int| is_first_window(vs, surface, k);
            assert(!(vs[k].alive && vs[k].s_top_level == surface));
        }
    }
    None
}

/// The surfaces after a window of desktop surface `c_surface` and embedded
/// surface `s_top_level` is added: it waits for its first configure, is dirty,
/// has no popups and is the root when it is the first one.
pub open spec fn added_window(vs: Seq<TopLevelView>, c_surface: u64, s_top_level: u64) -> Seq<
    TopLevelView,
> {
    vs.push(
        TopLevelView {
            c_top_level: c_surface,
            s_top_level,
            alive: true,
            next_render_event: Some(RenderEvent::WaitConfigure),
            dirty: true,
            dimensions: (0, 0),
            popups: Seq::empty(),
            is_root: vs.len() == 0,
        },
    )
}

/// The popup that a window gets when the embedded popup `s_surface` is shown
/// on the desktop surface `c_surface`: waiting for its first configure.
pub open spec fn new_popup(c_surface: u64, s_surface: u64) -> Popup {
    Popup {
        c_surface,
        s_surface,
        alive: true,
        next_render_event: Some(PopupRenderEvent::WaitConfigure),
        dirty: false,
        bbox: Rectangle { x: 0, y: 0, w: 0, h: 0 },
    }
}

/// The first popup of `popups` whose embedded surface is `s_surface`.
pub open spec fn is_first_popup(popups: Seq<Popup>, s_surface: u64, k: int) -> bool {
    &&& 0 <= k < popups.len()
    &&& popups[k].s_surface == s_surface
    &&& forall|j: int| 0 <= j < k ==> popups[j].s_surface != s_surface
}

/// The surface of the desktop compositor `c_surface` is the layer surface of
/// window `i` (and of no earlier window, nor a popup of one).
pub open spec fn finds_toplevel(vs: Seq<TopLevelView>, c_surface: u64, i: int) -> bool {
    &&& 0 <= i < vs.len()
    &&& vs[i].c_top_level == c_surface
    &&& forall|j: int| 0 <= j < i ==> vs[j].c_top_level != c_surface && forall|k: int|
        0 <= k < vs[j].popups.len() ==> vs[j].popups[k].c_surface != c_surface
}

/// The surface of the desktop compositor `c_surface` is the surface of popup
/// `k` of window `i` (and of nothing earlier).
pub open spec fn finds_popup(vs: Seq<TopLevelView>, c_surface: u64, i: int, k: int) -> bool {
    &&& 0 <= i < vs.len()
    &&& vs[i].c_top_level != c_surface
    &&& 0 <= k < vs[i].popups.len()
    &&& vs[i].popups[k].c_surface == c_surface
    &&& forall|m: int| 0 <= m < k ==> vs[i].popups[m].c_surface != c_surface
    &&& forall|j: int| 0 <= j < i ==> vs[j].c_top_level != c_surface && forall|m: int|
        0 <= m < vs[j].popups.len() ==> vs[j].popups[m].c_surface != c_surface
}

/// No window or popup is shown on the surface `c_surface`.
pub open spec fn finds_nothing(vs: Seq<TopLevelView>, c_surface: u64) -> bool {
    forall|j: int|
        0 <= j < vs.len() ==> vs[j].c_top_level != c_surface && forall|m: int|
            0 <= m < vs[j].popups.len() ==> vs[j].popups[m].c_surface != c_surface
}

/// A window added on a desktop surface that shows nothing yet is what that
/// surface is then found to show, and the first window added is the root.
pub proof fn lemma_added_window_is_found(vs: Seq<TopLevelView>, c_surface: u64, s_top_level: u64)
    requires
        finds_nothing(vs, c_surface),
    ensures
        finds_toplevel(added_window(vs, c_surface, s_top_level), c_surface, vs.len() as int),
        added_window(vs, c_surface, s_top_level)[vs.len() as int].s_top_level == s_top_level,
        added_window(vs, c_surface, s_top_level)[vs.len() as int].is_root == (vs.len() == 0),
{
    let a = added_window(vs, c_surface, s_top_level);
    assert forall|j: int| 0 <= j < vs.len() implies a[j].c_top_level != c_surface && forall|k: int|
        0 <= k < a[j].popups.len() ==> a[j].popups[k].c_surface != c_surface by {
        assert(a[j] == vs[j]);
    }
}

impl WrapperRenderer {
    /// A renderer for `output` with no windows, no EGL display yet and nothing to bind.
    pub fn new(output: Option<(u64, String)>, layout: LayerLayout) -> (r: Self)
        ensures
            r.surfaces@.len() == 0,
            r.output == output,
            r.layout == layout,
            !r.needs_update,
            !r.has_renderer,
    {
        WrapperRenderer {
            surfaces: Vec::new(),
            output,
            layout,
            needs_update: false,
            has_renderer: false,
        }
    }

    /// Handles the pending events of every window: windows that are gone are
    /// dropped (the wrapped command is stopped when the root window goes), the
    /// others are rendered when a renderer exists.
    pub fn handle_events(&mut self) -> (work: RendererWork)
        ensures
            (surface_views(final(self).surfaces@), work.kill_child) == renderer_pass(
                surface_views(old(self).surfaces@),
                old(self).has_renderer,
            ),
            work.updates@.len() == old(self).surfaces@.len(),
            forall|i: int|
                0 <= i < old(self).surfaces@.len() ==> {
                    let v = surface_views(old(self).surfaces@)[i];
                    let e = after_events(v);
                    &&& (#[trigger] work.updates@[i]).0 == v.c_top_level
                    &&& update_view(work.updates@[i].1) == (e.1, e.2, e.3)
                },
            render_views(work.renders@) == renderer_renders(
                surface_views(old(self).surfaces@),
                old(self).has_renderer,
            ),
            final(self).output == old(self).output,
            final(self).layout == old(self).layout,
            final(self).needs_update == old(self).needs_update,
            final(self).has_renderer == old(self).has_renderer,
    {
        let mut rest: Vec<TopLevelSurface> = Vec::new();
        std::mem::swap(&mut rest, &mut self.surfaces);
        let ghost vs = surface_views(rest@);
        let total = rest.len();
        assert(vs.len() == total);
        let mut kept: Vec<TopLevelSurface> = Vec::new();
        let mut updates: Vec<(u64, SurfaceUpdate)> = Vec::new();
        let mut renders: Vec<(u64, RenderPlan)> = Vec::new();
        let mut kill_child = false;
        let has_renderer = self.has_renderer;
        let mut done: usize = 0;
        while rest.len() > 0
            invariant
                done + rest@.len() == vs.len(),
                vs.len() <= usize::MAX,
                updates@.len() == done,
                vs == surface_views(old(self).surfaces@),
                forall|j: int|
                    0 <= j < done ==> {
                        let e = after_events(vs[j]);
                        &&& (#[trigger] updates@[j]).0 == vs[j].c_top_level
                        &&& update_view(updates@[j].1) == (e.1, e.2, e.3)
                    },
                render_views(renders@) == renderer_renders(vs.subrange(0, done as int), has_renderer),
                surface_views(rest@) == vs.subrange(done as int, vs.len() as int),
                (surface_views(kept@), kill_child) == renderer_pass(
                    vs.subrange(0, done as int),
                    has_renderer,
                ),
                has_renderer == self.has_renderer,
                self.output == old(self).output,
                self.layout == old(self).layout,
                self.needs_update == old(self).needs_update,
                self.has_renderer == old(self).has_renderer,
            decreases rest@.len(),
        {
            let ghost before = rest@;
            let mut s = rest.remove(0);
            proof {
                assert(surface_views(before)[0] == before[0]@);
                assert(vs.subrange(done as int, vs.len() as int)[0] == vs[done as int]);
                assert(s@ == vs[done as int]);
                assert forall|j: int| 0 <= j < rest@.len() implies surface_views(rest@)[j]
                    == vs.subrange(done + 1, vs.len() as int)[j] by {
                    assert(rest@[j] == before[j + 1]);
                    assert(surface_views(before)[j + 1] == before[j + 1]@);
                    assert(vs.subrange(done as int, vs.len() as int)[j + 1] == vs[done + 1 + j]);
                }
                assert(vs.subrange(0, done + 1).drop_last() =~= vs.subrange(0, done as int));
                assert(vs.subrange(0, done + 1).last() == vs[done as int]);
                assert(surface_views(rest@) =~= vs.subrange(done + 1, vs.len() as int));
            }
            let c = s.c_top_level;
            let ghost renders_before = renders@;
            let update = s.handle_events();
            if update.remove {
                if s.is_root {
                    kill_child = true;
                }
            } else {
                if has_renderer {
                    let plan = s.render();
                    renders.push((c, plan));
                    proof {
                        assert(render_views(renders@) =~= render_views(renders_before).push(
                            (c, plan.toplevel, plan.popups@),
                        ));
                    }
                }
                let ghost kept_before = kept@;
                kept.push(s);
                proof {
                    assert(surface_views(kept@) =~= surface_views(kept_before).push(s@));
                }
            }
            let ghost updates_before = updates@;
            updates.push((c, update));
            proof {
                assert(forall|j: int| 0 <= j < done ==> updates@[j] == updates_before[j]);
            }
            done = done + 1;
        }
        proof {
            assert(vs.subrange(0, done as int) =~= vs);
        }
        self.surfaces = kept;
        RendererWork { kill_child, updates, renders }
    }
}


pub(crate) fn find_popup(popups: &Vec<Popup>, s_surface: u64) -> (res: Option<usize>)
    ensures
        match res {
            Some(k) => is_first_popup(popups@, s_surface, k as int),
            None => forall|k: int| 0 <= k < popups@.len() ==> popups@[k].s_surface != s_surface,
        },
{
    let mut k: usize = 0;
    while k < popups.len()
        invariant
            k <= popups@.len(),
            forall|m: int| 0 <= m < k ==> popups@[m].s_surface != s_surface,
        decreases popups@.len() - k,
    {
        if popups[k].s_surface == s_surface {
            return Some(k);
        }
        k = k + 1;
    }
    None
}

/// Takes window `i` out of `surfaces`.
fn take_window(surfaces: &mut Vec<TopLevelSurface>, i: usize) -> (s: TopLevelSurface)
    requires
        i < old(surfaces)@.len(),
    ensures
        s == old(surfaces)@[i as int],
        final(surfaces)@ == old(surfaces)@.remove(i as int),
{
    surfaces.remove(i)
}

fn put_window(surfaces: &mut Vec<TopLevelSurface>, i: usize, s: TopLevelSurface)
    requires
        i <= old(surfaces)@.len(),
    ensures
        final(surfaces)@ == old(surfaces)@.insert(i as int, s),
{
    surfaces.insert(i, s);
}

proof fn lemma_views_replace(before: Seq<TopLevelSurface>, i: int, s: TopLevelSurface)
    requires
        0 <= i < before.len(),
    ensures
        surface_views(before.remove(i).insert(i, s)) == surface_views(before).update(i, s@),
{
    assert(surface_views(before.remove(i).insert(i, s)) =~= surface_views(before).update(i, s@));
}

impl WrapperRenderer {
    /// Whether the display is to be bound to the renderer now: when it still
    /// has to be and a renderer exists; afterwards it no longer has to be.
    pub fn apply_display(&mut self) -> (bind: bool)
        ensures
            bind == (old(self).needs_update && old(self).has_renderer),
            final(self).needs_update == (old(self).needs_update && !bind),
            final(self).has_renderer == old(self).has_renderer,
            final(self).surfaces@ == old(self).surfaces@,
            final(self).output == old(self).output,
            final(self).layout == old(self).layout,
    {
        if !self.needs_update || !self.has_renderer {
            return false;
        }
        self.needs_update = false;
        true
    }

    /// Holds a requested size between the configured minimum and maximum.
    pub fn constrain_dim(&self, dim: (u32, u32)) -> (res: (u32, u32))
        ensures
            res == constrained_by_min_max(dim, self.layout.min_dimensions, self.layout.max_dimensions),
    {
        constrain_dim_by_min_max(dim, self.layout.min_dimensions, self.layout.max_dimensions)
    }

    /// Wraps a new window shown on the desktop surface `c_surface`. Returns the
    /// setup of its layer surface (its size held between the configured
    /// minimum and maximum) and whether the EGL display and renderer are to be
    /// created now (when none exists yet; the display then has to be bound).
    pub fn add_top_level(&mut self, c_surface: u64, s_top_level: u64, dimensions: (u32, u32)) -> (res: (
        LayerSurfaceSetup,
        bool,
    ))
        ensures
            res.0 == layer_setup_spec(
                old(self).layout,
                constrained_by_min_max(
                    dimensions,
                    old(self).layout.min_dimensions,
                    old(self).layout.max_dimensions,
                ),
            ),
            res.1 == !old(self).has_renderer,
            final(self).has_renderer,
            final(self).needs_update == (old(self).needs_update || !old(self).has_renderer),
            surface_views(final(self).surfaces@) == added_window(
                surface_views(old(self).surfaces@),
                c_surface,
                s_top_level,
            ),
            final(self).output == old(self).output,
            final(self).layout == old(self).layout,
    {
        let dims = self.constrain_dim(dimensions);
        let setup = self.layout.setup(dims);
        let create = !self.has_renderer;
        if create {
            self.needs_update = true;
            self.has_renderer = true;
        }
        let is_root = self.surfaces.len() == 0;
        let ghost before = self.surfaces@;
        self.surfaces.push(
            TopLevelSurface {
                c_top_level: c_surface,
                s_top_level,
                alive: true,
                next_render_event: Some(RenderEvent::WaitConfigure),
                dirty: true,
                dimensions: (0, 0),
                popups: Vec::new(),
                is_root,
            },
        );
        proof {
            assert(surface_views(self.surfaces@) =~= added_window(
                surface_views(before),
                c_surface,
                s_top_level,
            ));
        }
        (setup, create)
    }

    /// Shows the embedded popup `s_surface` of the window with surface `parent`
    /// on the desktop surface `c_surface`. Returns whether the window was found
    /// (only then is the popup's EGL surface to be made).
    pub fn add_popup(&mut self, c_surface: u64, s_surface: u64, parent: u64) -> (found: bool)
        ensures
            found == has_window(surface_views(old(self).surfaces@), parent),
            found ==> exists|i: int|
                is_first_window(surface_views(old(self).surfaces@), parent, i) && surface_views(
                    final(self).surfaces@,
                ) == surface_views(old(self).surfaces@).update(
                    i,
                    TopLevelView {
                        popups: old(self).surfaces@[i]@.popups.push(new_popup(c_surface, s_surface)),
                        ..old(self).surfaces@[i]@
                    },
                ),
            !found ==> final(self).surfaces@ == old(self).surfaces@,
            final(self).output == old(self).output,
            final(self).layout == old(self).layout,
            final(self).needs_update == old(self).needs_update,
            final(self).has_renderer == old(self).has_renderer,
    {
        match find_window(&self.surfaces, parent) {
            Some(i) => {
                let ghost before = self.surfaces@;
                let mut s = take_window(&mut self.surfaces, i);
                s.popups.push(
                    Popup {
                        c_surface,
                        s_surface,
                        alive: true,
                        next_render_event: Some(PopupRenderEvent::WaitConfigure),
                        dirty: false,
                        bbox: Rectangle { x: 0, y: 0, w: 0, h: 0 },
                    },
                );
                let ghost sv = s@;
                put_window(&mut self.surfaces, i, s);
                proof {
                    lemma_views_replace(before, i as int, s);
                    assert(surface_views(before)[i as int] == before[i as int]@);
                    assert(sv =~= TopLevelView {
                        popups: before[i as int]@.popups.push(new_popup(c_surface, s_surface)),
                        ..before[i as int]@
                    });
                }
                true
            },
            None => false,
        }
    }

    /// Marks the window with surface `surface` as needing a render after its
    /// client committed a buffer of size `(w, h)`. When the size changed, the
    /// window takes it and the returned size is to be given to its layer
    /// surface and EGL surface.
    pub fn dirty(&mut self, surface: u64, w: u32, h: u32) -> (resize: Option<(u32, u32)>)
        ensures
            has_window(surface_views(old(self).surfaces@), surface) ==> exists|i: int|
                is_first_window(surface_views(old(self).surfaces@), surface, i) && {
                    let v = old(self).surfaces@[i]@;
                    &&& resize == if v.dimensions != (w, h) {
                        Some((w, h))
                    } else {
                        None
                    }
                    &&& surface_views(final(self).surfaces@) == surface_views(
                        old(self).surfaces@,
                    ).update(i, TopLevelView { dimensions: (w, h), dirty: true, ..v })
                },
            !has_window(surface_views(old(self).surfaces@), surface) ==> resize is None
                && final(self).surfaces@ == old(self).surfaces@,
            final(self).output == old(self).output,
            final(self).layout == old(self).layout,
            final(self).needs_update == old(self).needs_update,
            final(self).has_renderer == old(self).has_renderer,
    {
        match find_window(&self.surfaces, surface) {
            Some(i) => {
                let ghost before = self.surfaces@;
                let mut s = take_window(&mut self.surfaces, i);
                let mut resize = None;
                if s.dimensions.0 != w || s.dimensions.1 != h {
                    s.dimensions = (w, h);
                    resize = Some((w, h));
                }
                s.dirty = true;
                put_window(&mut self.surfaces, i, s);
                proof {
                    lemma_views_replace(before, i as int, s);
                    assert(surface_views(before)[i as int] == before[i as int]@);
                    assert(s@ =~= TopLevelView { dimensions: (w, h), dirty: true, ..before[i as int]@ });
                }
                resize
            },
            None => None,
        }
    }

    /// Marks the popup `popup` of the window with surface `top_level` as
    /// needing a render, with geometry `dim`. When the geometry changed, the
    /// popup takes it and the returned size is to be given to its EGL surface.
    pub fn dirty_popup(&mut self, top_level: u64, popup: u64, dim: Rectangle) -> (resize: Option<
        (i32, i32),
    >)
        ensures
            ({
                let vs = surface_views(old(self).surfaces@);
                if exists|i: int, k: int|
                    is_first_window(vs, top_level, i) && is_first_popup(vs[i].popups, popup, k) {
                    exists|i: int, k: int|
                        is_first_window(vs, top_level, i) && is_first_popup(vs[i].popups, popup, k)
                            && {
                            let p = vs[i].popups[k];
                            &&& resize == if p.bbox != dim {
                                Some((dim.w, dim.h))
                            } else {
                                None
                            }
                            &&& surface_views(final(self).surfaces@) == vs.update(
                                i,
                                TopLevelView {
                                    popups: vs[i].popups.update(k, Popup { bbox: dim, dirty: true, ..p }),
                                    ..vs[i]
                                },
                            )
                        }
                } else {
                    resize is None && surface_views(final(self).surfaces@) == vs
                }
            }),
            final(self).output == old(self).output,
            final(self).layout == old(self).layout,
            final(self).needs_update == old(self).needs_update,
            final(self).has_renderer == old(self).has_renderer,
    {
        let ghost vs = surface_views(self.surfaces@);
        match find_window(&self.surfaces, top_level) {
            Some(i) => {
                let ghost before = self.surfaces@;
                let mut s = take_window(&mut self.surfaces, i);
                let mut resize = None;
                match find_popup(&s.popups, popup) {
                    Some(k) => {
                        let p = s.popups[k];
                        if p.bbox != dim {
                            resize = Some((dim.w, dim.h));
                        }
                        s.popups.set(k, Popup { bbox: dim, dirty: true, ..p });
                        proof {
                            assert(surface_views(before)[i as int] == before[i as int]@);
                            assert(is_first_popup(vs[i as int].popups, popup, k as int));
                        }
                    },
                    None => {
                        proof {
                            assert(surface_views(before)[i as int] == before[i as int]@);
                            assert forall|ii: int, kk: int|
                                is_first_window(vs, top_level, ii) implies !is_first_popup(
                                vs[ii].popups,
                                popup,
                                kk,
                            ) by {
                                if ii < i {
                                    assert(!(vs[ii].alive && vs[ii].s_top_level == top_level));
                                } else if ii > i {
                                    assert(!(vs[i as int].alive && vs[i as int].s_top_level == top_level));
                                }
                                if 0 <= kk < vs[ii].popups.len() {
                                    assert(vs[ii].popups[kk].s_surface != popup);
                                }
                            }
                        }
                    },
                }
                put_window(&mut self.surfaces, i, s);
                proof {
                    lemma_views_replace(before, i as int, s);
                    assert(surface_views(before)[i as int] == before[i as int]@);
                }
                resize
            },
            None => None,
        }
    }
}


/// What an output change does to a window: it gets a new layer surface, waits
/// for its first configure and is to be rendered.
pub open spec fn window_on_new_output(v: TopLevelView) -> TopLevelView {
    TopLevelView { next_render_event: Some(RenderEvent::WaitConfigure), dirty: true, ..v }
}

impl WrapperRenderer {
    /// The embedded surface shown on the desktop surface `c_surface`: a window
    /// when it is that window's layer surface, or a popup of a window; windows
    /// are searched in order, each before its popups.
    pub fn find_server_surface(&self, c_surface: u64) -> (res: Option<ServerSurface>)
        ensures
            ({
                let vs = surface_views(self.surfaces@);
                match res {
                    Some(ServerSurface::TopLevel(t)) => exists|i: int|
                        finds_toplevel(vs, c_surface, i) && t == vs[i].s_top_level,
                    Some(ServerSurface::Popup(t, p)) => exists|i: int, k: int|
                        finds_popup(vs, c_surface, i, k) && t == vs[i].s_top_level && p
                            == vs[i].popups[k].s_surface,
                    None => finds_nothing(vs, c_surface),
                }
            }),
    {
        let ghost vs = surface_views(self.surfaces@);
        let mut i: usize = 0;
        while i < self.surfaces.len()
            invariant
                i <= self.surfaces@.len(),
                vs == surface_views(self.surfaces@),
                forall|j: int|
                    0 <= j < i ==> vs[j].c_top_level != c_surface && forall|m: int|
                        0 <= m < vs[j].popups.len() ==> vs[j].popups[m].c_surface != c_surface,
            decreases self.surfaces@.len() - i,
        {
            let s = &self.surfaces[i];
            proof {
                assert(vs[i as int] == s@);
            }
            if s.c_top_level == c_surface {
                proof {
                    assert(finds_toplevel(vs, c_surface, i as int));
                }
                return Some(ServerSurface::TopLevel(s.s_top_level));
            }
            let mut k: usize = 0;
            while k < s.popups.len()
                invariant
                    k <= s.popups@.len(),
                    i < self.surfaces@.len(),
                    s == self.surfaces@[i as int],
                    vs == surface_views(self.surfaces@),
                    vs[i as int] == s@,
                    s.c_top_level != c_surface,
                    forall|j: int|
                        0 <= j < i ==> vs[j].c_top_level != c_surface && forall|m: int|
                            0 <= m < vs[j].popups.len() ==> vs[j].popups[m].c_surface != c_surface,
                    forall|m: int| 0 <= m < k ==> s.popups@[m].c_surface != c_surface,
                decreases s.popups@.len() - k,
            {
                if s.popups[k].c_surface == c_surface {
                    proof {
                        assert(finds_popup(vs, c_surface, i as int, k as int));
                    }
                    return Some(ServerSurface::Popup(s.s_top_level, s.popups[k].s_surface));
                }
                k = k + 1;
            }
            i = i + 1;
        }
        None
    }

    /// Moves every window to `output`: each gets a new layer surface (setups
    /// returned in order, by desktop surface id, at the window's size), waits
    /// for its first configure and is to be rendered. Returns also whether
    /// the EGL display and renderer are to be created now.
    pub fn set_output(&mut self, output: Option<(u64, String)>) -> (res: (
        Vec<(u64, LayerSurfaceSetup)>,
        bool,
    ))
        ensures
            final(self).output == output,
            surface_views(final(self).surfaces@) == surface_views(old(self).surfaces@).map_values(
                |v: TopLevelView| window_on_new_output(v),
            ),
            res.0@.len() == old(self).surfaces@.len(),
            forall|i: int|
                0 <= i < res.0@.len() ==> res.0@[i].0 == old(self).surfaces@[i].c_top_level
                    && res.0@[i].1 == layer_setup_spec(
                    old(self).layout,
                    old(self).surfaces@[i].dimensions,
                ),
            res.1 == (!old(self).has_renderer && old(self).surfaces@.len() > 0),
            final(self).has_renderer == (old(self).has_renderer || old(self).surfaces@.len() > 0),
            final(self).needs_update == (old(self).needs_update || res.1),
            final(self).layout == old(self).layout,
    {
        self.output = output;
        let ghost before = self.surfaces@;
        let mut setups: Vec<(u64, LayerSurfaceSetup)> = Vec::new();
        let mut create = false;
        let mut i: usize = 0;
        while i < self.surfaces.len()
            invariant
                i <= self.surfaces@.len(),
                self.surfaces@.len() == before.len(),
                setups@.len() == i,
                forall|j: int|
                    0 <= j < i ==> setups@[j].0 == before[j].c_top_level && setups@[j].1
                        == layer_setup_spec(self.layout, before[j].dimensions),
                forall|j: int| 0 <= j < i ==> self.surfaces@[j]@ == window_on_new_output(before[j]@),
                forall|j: int| i <= j < before.len() ==> self.surfaces@[j] == before[j],
                self.layout == old(self).layout,
                self.output == output,
                create == (!old(self).has_renderer && i > 0),
                self.has_renderer == (old(self).has_renderer || i > 0),
                self.needs_update == (old(self).needs_update || create),
            decreases before.len() - i,
        {
            let ghost cur = self.surfaces@;
            let mut s = take_window(&mut self.surfaces, i);
            setups.push((s.c_top_level, self.layout.setup(s.dimensions)));
            if !self.has_renderer {
                self.needs_update = true;
                self.has_renderer = true;
                create = true;
            }
            s.next_render_event = Some(RenderEvent::WaitConfigure);
            s.dirty = true;
            put_window(&mut self.surfaces, i, s);
            proof {
                assert(self.surfaces@ =~= cur.update(i as int, s));
                assert(s@ =~= window_on_new_output(before[i as int]@));
            }
            i = i + 1;
        }
        proof {
            assert(surface_views(self.surfaces@) =~= surface_views(before).map_values(
                |v: TopLevelView| window_on_new_output(v),
            ));
        }
        (setups, create)
    }
}

} // verus!
