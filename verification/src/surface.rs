//! A wrapped toplevel window, shown on a layer surface of its own, with the
//! popups it opened: how pending events change it and what it renders.

use vstd::prelude::*;

use crate::events::{PopupRenderEvent, RenderEvent};
use crate::geometry::Rectangle;

verus! {

/// A popup of a wrapped window.
#[derive(Clone, Copy, Debug, PartialEq, Eq, Structural)]
pub struct Popup {
    /// id of the popup's surface on the desktop compositor
    pub c_surface: u64,
    /// id of the embedded popup's surface
    pub s_surface: u64,
    /// the embedded popup is still alive
    pub alive: bool,
    /// what the popup waits for before it renders
    pub next_render_event: Option<PopupRenderEvent>,
    /// the popup needs to be rendered
    pub dirty: bool,
    /// geometry of the popup
    pub bbox: Rectangle,
}

/// A wrapped toplevel window and its layer surface.
#[derive(Debug)]
pub struct TopLevelSurface {
    /// id of the layer surface's `wl_surface` on the desktop compositor
    pub c_top_level: u64,
    /// id of the embedded window's surface
    pub s_top_level: u64,
    /// the embedded window's surface still exists
    pub alive: bool,
    /// what the layer surface waits for before it renders
    pub next_render_event: Option<RenderEvent>,
    /// the window needs to be rendered
    pub dirty: bool,
    /// size of the layer surface
    pub dimensions: (u32, u32),
    /// popups of the window
    pub popups: Vec<Popup>,
    /// the first window that was wrapped
    pub is_root: bool,
}

/// What handling pending events asks of the drawing side.
#[derive(Debug)]
pub struct SurfaceUpdate {
    /// the window is gone and its surface is to be dropped
    pub remove: bool,
    /// resize the layer surface's EGL surface to this size
    pub resize: Option<(u32, u32)>,
    /// resize the EGL surface of these popups (by desktop surface id)
    pub popup_resizes: Vec<(u64, i32, i32)>,
}

/// What rendering draws.
#[derive(Debug)]
pub struct RenderPlan {
    /// draw the window onto its layer surface
    pub toplevel: bool,
    /// draw these popups (by desktop surface id)
    pub popups: Vec<u64>,
}

/// A popup after its pending event is handled, or `None` when it is dropped:
/// a dead or dismissed popup is dropped; a configured one takes its new size
/// and is to be rendered; a waiting one keeps waiting.
pub open spec fn popup_after_events(p: Popup) -> Option<Popup> {
    if !p.alive {
        None
    } else {
        match p.next_render_event {
            Some(PopupRenderEvent::Closed) => None,
            Some(PopupRenderEvent::Configure { width, height, .. }) => Some(
                Popup {
                    next_render_event: None,
                    dirty: true,
                    bbox: Rectangle { w: width, h: height, ..p.bbox },
                    ..p
                },
            ),
            _ => Some(p),
        }
    }
}

/// The popups that are kept after their pending events are handled.
pub open spec fn popups_after_events(s: Seq<Popup>) -> Seq<Popup>
    decreases s.len(),
{
    if s.len() == 0 {
        Seq::empty()
    } else {
        let rest = popups_after_events(s.drop_last());
        match popup_after_events(s.last()) {
            Some(q) => rest.push(q),
            None => rest,
        }
    }
}

/// The popups whose EGL surface is resized when their pending events are handled.
pub open spec fn popup_resizes_of(s: Seq<Popup>) -> Seq<(u64, i32, i32)>
    decreases s.len(),
{
    if s.len() == 0 {
        Seq::empty()
    } else {
        let rest = popup_resizes_of(s.drop_last());
        let p = s.last();
        match p.next_render_event {
            Some(PopupRenderEvent::Configure { width, height, .. }) => if p.alive {
                rest.push((p.c_surface, width, height))
            } else {
                rest
            },
            _ => rest,
        }
    }
}

/// The window's pending event: closing removes the surface; a configure with a
/// new size takes that size and is to be rendered; waiting keeps waiting.
/// Returns (next event, dimensions, dirty, remove, resize).
pub open spec fn toplevel_event_result(
    next: Option<RenderEvent>,
    dimensions: (u32, u32),
    dirty: bool,
) -> (Option<RenderEvent>, (u32, u32), bool, bool, Option<(u32, u32)>) {
    match next {
        Some(RenderEvent::Closed) => (None, dimensions, dirty, true, None),
        Some(RenderEvent::Configure { width, height }) => if dimensions != (width, height) {
            (None, (width, height), true, false, Some((width, height)))
        } else {
            (None, dimensions, dirty, false, None)
        },
        Some(RenderEvent::WaitConfigure) => (next, dimensions, dirty, false, None),
        None => (None, dimensions, dirty, false, None),
    }
}

/// The state of a wrapped window as a mathematical value.
#[verifier::ext_equal]
pub struct TopLevelView {
    pub c_top_level: u64,
    pub s_top_level: u64,
    pub alive: bool,
    pub next_render_event: Option<RenderEvent>,
    pub dirty: bool,
    pub dimensions: (u32, u32),
    pub popups: Seq<Popup>,
    pub is_root: bool,
}

impl View for TopLevelSurface {
    type V = TopLevelView;

    open spec fn view(&self) -> TopLevelView {
        TopLevelView {
            c_top_level: self.c_top_level,
            s_top_level: self.s_top_level,
            alive: self.alive,
            next_render_event: self.next_render_event,
            dirty: self.dirty,
            dimensions: self.dimensions,
            popups: self.popups@,
            is_root: self.is_root,
        }
    }
}

/// A wrapped window after its pending events are handled, whether it is to be
/// dropped, the size to resize its EGL surface to, and the popups to resize.
/// A window whose surface is gone is dropped untouched.
pub open spec fn after_events(v: TopLevelView) -> (TopLevelView, bool, Option<(u32, u32)>, Seq<
    (u64, i32, i32),
>) {
    if !v.alive {
        (v, true, None, Seq::empty())
    } else {
        let r = toplevel_event_result(v.next_render_event, v.dimensions, v.dirty);
        (
            TopLevelView {
                next_render_event: r.0,
                dimensions: r.1,
                dirty: r.2,
                popups: popups_after_events(v.popups),
                ..v
            },
            r.3,
            r.4,
            popup_resizes_of(v.popups),
        )
    }
}

/// Handles the pending events of popups: returns the popups kept and the
/// popups whose EGL surface is to be resized.
pub fn handle_popup_events(popups: Vec<Popup>) -> (res: (Vec<Popup>, Vec<(u64, i32, i32)>))
    ensures
        res.0@ == popups_after_events(popups@),
        res.1@ == popup_resizes_of(popups@),
{
    let old_popups = popups;
    let mut popup_resizes: Vec<(u64, i32, i32)> = Vec::new();
    let mut kept: Vec<Popup> = Vec::new();
    let mut i: usize = 0;
    while i < old_popups.len()
        invariant
            i <= old_popups@.len(),
            kept@ == popups_after_events(old_popups@.subrange(0, i as int)),
            popup_resizes@ == popup_resizes_of(old_popups@.subrange(0, i as int)),
        decreases old_popups@.len() - i,
    {
        let p = old_popups[i];
        proof {
            assert(old_popups@.subrange(0, i + 1).drop_last() =~= old_popups@.subrange(0, i as int));
            assert(old_popups@.subrange(0, i + 1).last() == p);
        }
        if p.alive {
            match p.next_render_event {
                Some(PopupRenderEvent::Closed) => {},
                Some(PopupRenderEvent::Configure { width, height, .. }) => {
                    popup_resizes.push((p.c_surface, width, height));
                    kept.push(
                        Popup {
                            next_render_event: None,
                            dirty: true,
                            bbox: Rectangle { w: width, h: height, ..p.bbox },
                            ..p
                        },
                    );
                },
                _ => {
                    kept.push(p);
                },
            }
        }
        i = i + 1;
    }
    proof {
        assert(old_popups@.subrange(0, old_popups@.len() as int) =~= old_popups@);
    }
    (kept, popup_resizes)
}

impl TopLevelSurface {
    /// Handles any events that have occurred since the last call. The update
    /// says whether the surface should be dropped and which EGL surfaces to resize.
    pub fn handle_events(&mut self) -> (update: SurfaceUpdate)
        ensures
            after_events(old(self)@) == (
                final(self)@,
                update.remove,
                update.resize,
                update.popup_resizes@,
            ),
    {
        if !self.alive {
            return SurfaceUpdate { remove: true, resize: None, popup_resizes: Vec::new() };
        }
        let mut old_popups: Vec<Popup> = Vec::new();
        std::mem::swap(&mut old_popups, &mut self.popups);
        let (kept, popup_resizes) = handle_popup_events(old_popups);
        self.popups = kept;
        let mut remove = false;
        let mut resize: Option<(u32, u32)> = None;
        match self.next_render_event {
            Some(RenderEvent::Closed) => {
                self.next_render_event = None;
                remove = true;
            },
            Some(RenderEvent::Configure { width, height }) => {
                self.next_render_event = None;
                if self.dimensions.0 != width || self.dimensions.1 != height {
                    self.dimensions = (width, height);
                    resize = Some((width, height));
                    self.dirty = true;
                }
            },
            Some(RenderEvent::WaitConfigure) => {},
            None => {},
        }
        SurfaceUpdate { remove, resize, popup_resizes }
    }
}

/// A popup after a render pass: it is drawn (and no longer dirty) when it is
/// dirty, alive and waits for nothing.
pub open spec fn popup_renders(p: Popup) -> bool {
    p.dirty && p.alive && p.next_render_event is None
}

pub open spec fn popup_after_render(p: Popup) -> Popup {
    if popup_renders(p) {
        Popup { dirty: false, ..p }
    } else {
        p
    }
}

/// The desktop surface ids of the popups drawn by a render pass, in order.
pub open spec fn rendered_popups(s: Seq<Popup>) -> Seq<u64>
    decreases s.len(),
{
    if s.len() == 0 {
        Seq::empty()
    } else {
        let rest = rendered_popups(s.drop_last());
        if popup_renders(s.last()) {
            rest.push(s.last().c_surface)
        } else {
            rest
        }
    }
}

/// A wrapped window after a render pass, whether the window is drawn, and the
/// popups drawn: nothing while the layer surface waits for its first
/// configure; otherwise the window when it is dirty (unless it is gone, which
/// ends the pass), then every popup that is dirty, alive and waits for nothing.
/// What is drawn is no longer dirty.
pub open spec fn after_render(v: TopLevelView) -> (TopLevelView, bool, Seq<u64>) {
    if v.next_render_event == Some(RenderEvent::WaitConfigure) {
        (v, false, Seq::empty())
    } else if v.dirty && !v.alive {
        (TopLevelView { dirty: false, ..v }, false, Seq::empty())
    } else {
        (
            TopLevelView {
                dirty: false,
                popups: v.popups.map_values(|p: Popup| popup_after_render(p)),
                ..v
            },
            v.dirty,
            rendered_popups(v.popups),
        )
    }
}

impl TopLevelSurface {
    /// Decides what a render pass draws, and marks it as drawn.
    pub fn render(&mut self) -> (plan: RenderPlan)
        ensures
            after_render(old(self)@) == (final(self)@, plan.toplevel, plan.popups@),
    {
        let mut drawn: Vec<u64> = Vec::new();
        let waiting = match self.next_render_event {
            Some(RenderEvent::WaitConfigure) => true,
            _ => false,
        };
        if waiting {
            return RenderPlan { toplevel: false, popups: drawn };
        }
        let mut toplevel = false;
        if self.dirty {
            self.dirty = false;
            if !self.alive {
                proof {
                    assert(self@ =~= TopLevelView { dirty: false, ..old(self)@ });
                }
                return RenderPlan { toplevel: false, popups: drawn };
            }
            toplevel = true;
        }
        let ghost old_popups = self.popups@;
        let mut i: usize = 0;
        while i < self.popups.len()
            invariant
                i <= self.popups@.len(),
                self.popups@.len() == old_popups.len(),
                forall|j: int| 0 <= j < i ==> self.popups@[j] == popup_after_render(old_popups[j]),
                forall|j: int| i <= j < old_popups.len() ==> self.popups@[j] == old_popups[j],
                drawn@ == rendered_popups(old_popups.subrange(0, i as int)),
                old_popups == old(self).popups@,
                self.c_top_level == old(self).c_top_level,
                self.s_top_level == old(self).s_top_level,
                self.alive == old(self).alive,
                self.next_render_event == old(self).next_render_event,
                self.dimensions == old(self).dimensions,
                self.is_root == old(self).is_root,
                !self.dirty,
                toplevel == old(self).dirty,
            decreases old_popups.len() - i,
        {
            let p = self.popups[i];
            proof {
                assert(old_popups.subrange(0, i + 1).drop_last() =~= old_popups.subrange(0, i as int));
                assert(old_popups.subrange(0, i + 1).last() == p);
            }
            let waits = match p.next_render_event {
                None => false,
                _ => true,
            };
            if p.dirty && p.alive && !waits {
                self.popups.set(i, Popup { dirty: false, ..p });
                drawn.push(p.c_surface);
            }
            i = i + 1;
        }
        proof {
            assert(old_popups.subrange(0, old_popups.len() as int) =~= old_popups);
            assert(self.popups@ =~= old_popups.map_values(|p: Popup| popup_after_render(p)));
            assert(self@ =~= after_render(old(self)@).0);
        }
        RenderPlan { toplevel, popups: drawn }
    }
}

} // verus!
