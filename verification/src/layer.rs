//! Surfaces that embedded clients commit: which role a committed surface has,
//! and the layer surfaces, cursor images and drag-and-drop icons that the
//! wrapper proxies to the desktop compositor.

use vstd::prelude::*;

use crate::config::{ANCHOR_BOTTOM, ANCHOR_LEFT, ANCHOR_RIGHT, ANCHOR_TOP};
use crate::geometry::Point;
use crate::seat::{SeatPair, SeatPairView, seat_views, first_where};

verus! {

/// The role of a committed embedded surface, as far as a commit cares.
#[derive(Clone, Copy, Debug, PartialEq, Eq, Structural)]
pub enum CommitRole {
    /// an xdg toplevel: the space redraws its window
    Toplevel,
    /// an xdg popup: the popup manager and the space take the commit
    Popup,
    /// a cursor image: it is copied to the desktop cursor surface
    CursorImage,
    /// a layer surface proxied to the desktop compositor
    LayerSurface,
    /// a drag-and-drop icon
    DndIcon,
    /// any other role, or none
    Other,
}

/// The commit role of a surface with role name `role`.
pub open spec fn commit_role_spec(role: Option<Seq<char>>) -> CommitRole {
    match role {
        Some(r) => if r == "xdg_toplevel"@ {
            CommitRole::Toplevel
        } else if r == "xdg_popup"@ {
            CommitRole::Popup
        } else if r == "cursor_image"@ {
            CommitRole::CursorImage
        } else if r == "zwlr_layer_surface_v1"@ {
            CommitRole::LayerSurface
        } else if r == "dnd_icon"@ {
            CommitRole::DndIcon
        } else {
            CommitRole::Other
        },
        None => CommitRole::Other,
    }
}

/// The commit role of a surface with role name `role`.
pub fn commit_role(role: Option<&str>) -> (res: CommitRole)
    ensures
        res == commit_role_spec(
            match role {
                Some(r) => Some(r@),
                None => None,
            },
        ),
{
    match role {
        Some(r) => {
            let r = r.to_owned();
            if r == "xdg_toplevel".to_owned() {
                CommitRole::Toplevel
            } else if r == "xdg_popup".to_owned() {
                CommitRole::Popup
            } else if r == "cursor_image".to_owned() {
                CommitRole::CursorImage
            } else if r == "zwlr_layer_surface_v1".to_owned() {
                CommitRole::LayerSurface
            } else if r == "dnd_icon".to_owned() {
                CommitRole::DndIcon
            } else {
                CommitRole::Other
            }
        },
        None => CommitRole::Other,
    }
}

/// Where a proxied layer surface is in its render cycle.
#[derive(Clone, Copy, Debug, PartialEq, Eq, Structural)]
pub enum SurfaceState {
    /// waiting for the first configure
    WaitingFirst,
    /// waiting for a commit
    Waiting,
    /// to be drawn
    Dirty,
}

/// A layer surface of an embedded client, proxied to the desktop compositor.
#[derive(Clone, Copy, Debug, PartialEq, Eq, Structural)]
pub struct ProxiedLayerSurface {
    /// id of the embedded layer surface's `wl_surface`
    pub s_surface: u64,
    /// id of the desktop layer surface's `wl_surface`
    pub c_surface: u64,
    /// the embedded surface still exists
    pub alive: bool,
    /// render state
    pub state: SurfaceState,
}

/// `i` is the first proxied layer surface of embedded surface `surface`.
pub open spec fn proxied_index(s: Seq<ProxiedLayerSurface>, surface: u64) -> Option<int> {
    first_where(s, |p: ProxiedLayerSurface| p.s_surface == surface)
}

proof fn lemma_first_proxied(s: Seq<ProxiedLayerSurface>, surface: u64, i: int)
    requires
        0 <= i < s.len(),
        s[i].s_surface == surface,
        forall|j: int| 0 <= j < i ==> s[j].s_surface != surface,
    ensures
        proxied_index(s, surface) == Some(i),
{
    let p = |q: ProxiedLayerSurface| q.s_surface == surface;
    assert(crate::seat::is_first_where(s, p, i));
    let k = choose|k: int| crate::seat::is_first_where(s, p, k);
    assert(crate::seat::is_first_where(s, p, k));
    if k < i {
        assert(!p(s[k]));
    } else if i < k {
        assert(!p(s[i]));
    }
}

proof fn lemma_no_proxied(s: Seq<ProxiedLayerSurface>, surface: u64)
    requires
        forall|j: int| 0 <= j < s.len() ==> s[j].s_surface != surface,
    ensures
        proxied_index(s, surface) is None,
{
    let p = |q: ProxiedLayerSurface| q.s_surface == surface;
    if exists|i: int| crate::seat::is_first_where(s, p, i) {
        let i = choose|i: int| crate::seat::is_first_where(s, p, i);
        assert(p(s[i]));
    }
}

/// Finds the first proxied layer surface of embedded surface `surface`.
pub fn find_proxied(surfaces: &Vec<ProxiedLayerSurface>, surface: u64) -> (res: Option<usize>)
    ensures
        match res {
            Some(i) => proxied_index(surfaces@, surface) == Some(i as int),
            None => proxied_index(surfaces@, surface) is None,
        },
{
    let mut i: usize = 0;
    while i < surfaces.len()
        invariant
            i <= surfaces@.len(),
            forall|j: int| 0 <= j < i ==> surfaces@[j].s_surface != surface,
        decreases surfaces@.len() - i,
    {
        if surfaces[i].s_surface == surface {
            proof {
                lemma_first_proxied(surfaces@, surface, i as int);
            }
            return Some(i);
        }
        i = i + 1;
    }
    proof {
        lemma_no_proxied(surfaces@, surface);
    }
    None
}

/// A commit of a proxied layer surface whose bounding box went from
/// `old_size` to `size`: an empty box, an unknown surface or a surface that
/// waits for its first configure changes nothing; otherwise the surface is to
/// be drawn, and when the size changed the desktop surface is resized to it.
pub open spec fn layer_commit_result(
    s: Seq<ProxiedLayerSurface>,
    surface: u64,
    old_size: (i32, i32),
    size: (i32, i32),
) -> (Seq<ProxiedLayerSurface>, Option<(i32, i32)>) {
    match proxied_index(s, surface) {
        Some(i) => if size.0 <= 0 || size.1 <= 0 || s[i].state == SurfaceState::WaitingFirst {
            (s, None)
        } else {
            (
                s.update(i, ProxiedLayerSurface { state: SurfaceState::Dirty, ..s[i] }),
                if old_size != size {
                    Some(size)
                } else {
                    None
                },
            )
        },
        None => (s, None),
    }
}

/// Handles a commit of the embedded layer surface `surface` (see
/// `layer_commit_result`); returns the size to resize the desktop surface,
/// its EGL surface and its damage tracker to, if any.
pub fn layer_surface_committed(
    surfaces: &mut Vec<ProxiedLayerSurface>,
    surface: u64,
    old_size: (i32, i32),
    size: (i32, i32),
) -> (resize: Option<(i32, i32)>)
    ensures
        (final(surfaces)@, resize) == layer_commit_result(old(surfaces)@, surface, old_size, size),
{
    match find_proxied(surfaces, surface) {
        Some(i) => {
            let p = surfaces[i];
            if size.0 <= 0 || size.1 <= 0 {
                return None;
            }
            if p.state == SurfaceState::WaitingFirst {
                return None;
            }
            surfaces.set(i, ProxiedLayerSurface { state: SurfaceState::Dirty, ..p });
            if old_size.0 != size.0 || old_size.1 != size.1 {
                Some(size)
            } else {
                None
            }
        },
        None => None,
    }
}

/// The proxied layer surfaces after a draw pass: the dirty ones were drawn
/// and wait for a commit again.
pub open spec fn after_layer_draw(p: ProxiedLayerSurface) -> ProxiedLayerSurface {
    if p.state == SurfaceState::Dirty {
        ProxiedLayerSurface { state: SurfaceState::Waiting, ..p }
    } else {
        p
    }
}

/// The desktop surfaces drawn by a draw pass, in order: those of the dirty
/// proxied layer surfaces.
pub open spec fn layer_draws(s: Seq<ProxiedLayerSurface>) -> Seq<u64>
    decreases s.len(),
{
    if s.len() == 0 {
        Seq::empty()
    } else {
        let rest = layer_draws(s.drop_last());
        if s.last().state == SurfaceState::Dirty {
            rest.push(s.last().c_surface)
        } else {
            rest
        }
    }
}

/// Draws the proxied layer surfaces that are dirty; returns their desktop
/// surfaces, in order.
pub fn draw_layer_surfaces(surfaces: &mut Vec<ProxiedLayerSurface>) -> (drawn: Vec<u64>)
    ensures
        drawn@ == layer_draws(old(surfaces)@),
        final(surfaces)@ == old(surfaces)@.map_values(|p: ProxiedLayerSurface| after_layer_draw(p)),
{
    let ghost before = surfaces@;
    let mut drawn: Vec<u64> = Vec::new();
    let mut i: usize = 0;
    while i < surfaces.len()
        invariant
            i <= surfaces@.len(),
            surfaces@.len() == before.len(),
            drawn@ == layer_draws(before.subrange(0, i as int)),
            forall|j: int| 0 <= j < i ==> surfaces@[j] == after_layer_draw(before[j]),
            forall|j: int| i <= j < before.len() ==> surfaces@[j] == before[j],
        decreases before.len() - i,
    {
        let p = surfaces[i];
        proof {
            assert(before.subrange(0, i + 1).drop_last() =~= before.subrange(0, i as int));
            assert(before.subrange(0, i + 1).last() == before[i as int]);
        }
        if p.state == SurfaceState::Dirty {
            surfaces.set(i, ProxiedLayerSurface { state: SurfaceState::Waiting, ..p });
            drawn.push(p.c_surface);
        }
        i = i + 1;
    }
    proof {
        assert(before.subrange(0, i as int) =~= before);
        assert(surfaces@ =~= before.map_values(|p: ProxiedLayerSurface| after_layer_draw(p)));
    }
    drawn
}

/// The proxied layer surfaces that remain after an embedded surface was
/// destroyed: those whose embedded surface is still alive.
pub open spec fn alive_proxied(s: Seq<ProxiedLayerSurface>) -> Seq<ProxiedLayerSurface> {
    s.filter(|p: ProxiedLayerSurface| p.alive)
}

/// Drops the proxied layer surfaces whose embedded surface is gone.
pub fn retain_alive(surfaces: &mut Vec<ProxiedLayerSurface>)
    ensures
        final(surfaces)@ == alive_proxied(old(surfaces)@),
{
    let ghost before = surfaces@;
    let mut kept: Vec<ProxiedLayerSurface> = Vec::new();
    let mut i: usize = 0;
    while i < surfaces.len()
        invariant
            i <= surfaces@.len(),
            surfaces@ == before,
            kept@ == before.subrange(0, i as int).filter(|p: ProxiedLayerSurface| p.alive),
        decreases before.len() - i,
    {
        let p = surfaces[i];
        proof {
            assert(before.subrange(0, i + 1).drop_last() =~= before.subrange(0, i as int));
            assert(before.subrange(0, i + 1).last() == before[i as int]);
            reveal(Seq::filter);
        }
        if p.alive {
            kept.push(p);
        }
        i = i + 1;
    }
    proof {
        assert(before.subrange(0, i as int) =~= before);
    }
    *surfaces = kept;
}

/// How an embedded layer surface asks to keep other surfaces away.
#[derive(Clone, Copy, Debug, PartialEq, Eq, Structural)]
pub enum ExclusiveZone {
    /// keep this many pixels free
    Exclusive(u32),
    /// do not move for other exclusive zones
    Neutral,
    /// may be moved or overlapped
    DontCare,
}

/// The layer-shell exclusive zone value of an exclusive zone.
pub open spec fn exclusive_zone_value(z: ExclusiveZone) -> i32 {
    match z {
        ExclusiveZone::Exclusive(area) => area as i32,
        ExclusiveZone::Neutral => 0,
        ExclusiveZone::DontCare => -1i32,
    }
}

/// The anchor is to both the left and the right edge.
pub open spec fn anchored_horizontally(bits: u32) -> bool {
    bits & ANCHOR_LEFT != 0 && bits & ANCHOR_RIGHT != 0
}

/// The anchor is to both the top and the bottom edge.
pub open spec fn anchored_vertically(bits: u32) -> bool {
    bits & ANCHOR_TOP != 0 && bits & ANCHOR_BOTTOM != 0
}

/// How the desktop layer surface of a new embedded layer surface is made.
#[derive(Clone, Copy, Debug, PartialEq, Eq, Structural)]
pub struct ProxiedLayerSetup {
    /// width asked for
    pub width: u32,
    /// height asked for
    pub height: u32,
    /// size of the EGL surface and damage tracker
    pub egl_width: i32,
    /// size of the EGL surface and damage tracker
    pub egl_height: i32,
    /// exclusive zone
    pub exclusive_zone: i32,
    /// anchor, when the bits are a valid anchor
    pub anchor: Option<u32>,
}

/// The setup of the desktop layer surface for an embedded layer surface
/// with pending size `size`, anchor bits `anchor` and exclusive zone `zone`:
/// a side not stretched between two edges is at least 1 pixel long; the
/// EGL surface is at least 1x1.
pub open spec fn proxied_setup_spec(size: (i32, i32), anchor: u32, zone: ExclusiveZone) -> ProxiedLayerSetup {
    let w = if !anchored_horizontally(anchor) && size.0 < 1 {
        1i32
    } else {
        size.0
    };
    let h = if !anchored_vertically(anchor) && size.1 < 1 {
        1i32
    } else {
        size.1
    };
    ProxiedLayerSetup {
        width: w as u32,
        height: h as u32,
        egl_width: if w < 1 {
            1
        } else {
            w
        },
        egl_height: if h < 1 {
            1
        } else {
            h
        },
        exclusive_zone: exclusive_zone_value(zone),
        anchor: if anchor <= 15 {
            Some(anchor)
        } else {
            None
        },
    }
}

/// The setup of the desktop layer surface for a new embedded layer surface
/// (see `proxied_setup_spec`); the new proxied surface waits for a commit.
/// Without a renderer (`has_renderer` false) nothing is set up and nothing
/// changes.
pub fn new_layer_surface(
    surfaces: &mut Vec<ProxiedLayerSurface>,
    has_renderer: bool,
    s_surface: u64,
    c_surface: u64,
    size: (i32, i32),
    anchor: u32,
    zone: ExclusiveZone,
) -> (setup: Option<ProxiedLayerSetup>)
    ensures
        !has_renderer ==> setup is None && final(surfaces)@ == old(surfaces)@,
        has_renderer ==> setup == Some(proxied_setup_spec(size, anchor, zone)) && final(surfaces)@
            == old(surfaces)@.push(
            ProxiedLayerSurface { s_surface, c_surface, alive: true, state: SurfaceState::Waiting },
        ),
{
    if !has_renderer {
        return None;
    }
    let horizontal = anchor & ANCHOR_LEFT != 0 && anchor & ANCHOR_RIGHT != 0;
    let vertical = anchor & ANCHOR_TOP != 0 && anchor & ANCHOR_BOTTOM != 0;
    let w: i32 = if !horizontal && size.0 < 1 {
        1
    } else {
        size.0
    };
    let h: i32 = if !vertical && size.1 < 1 {
        1
    } else {
        size.1
    };
    let exclusive_zone: i32 = match zone {
        ExclusiveZone::Exclusive(area) => area as i32,
        ExclusiveZone::Neutral => 0,
        ExclusiveZone::DontCare => -1i32,
    };
    surfaces.push(ProxiedLayerSurface { s_surface, c_surface, alive: true, state: SurfaceState::Waiting });
    Some(ProxiedLayerSetup {
        width: w as u32,
        height: h as u32,
        egl_width: if w < 1 {
            1
        } else {
            w
        },
        egl_height: if h < 1 {
            1
        } else {
            h
        },
        exclusive_zone,
        anchor: if anchor <= 15 {
            Some(anchor)
        } else {
            None
        },
    })
}

/// The new buffer state of a committed cursor image.
#[derive(Clone, Copy, Debug, PartialEq, Eq, Structural)]
pub enum CursorBuffer {
    /// a new shared-memory buffer
    NewShm,
    /// a new buffer of another kind
    NewOther,
    /// no new buffer
    NoNew,
}

/// What a desktop pointer is asked after a cursor image commit.
#[derive(Clone, Copy, Debug, PartialEq, Eq, Structural)]
pub enum CursorRequest {
    /// copy the buffer to the desktop cursor surface and, with a hotspot, show it there
    Attach { hotspot: Option<Point> },
    /// hide the cursor
    Hide,
}

/// The request to each desktop pointer, in seat order, after a cursor image
/// commit: pointers of seats without one get none.
pub open spec fn cursor_requests_spec(vs: Seq<SeatPairView>, buffer: CursorBuffer, hotspot: Option<Point>) -> Seq<
    (u64, CursorRequest),
>
    decreases vs.len(),
{
    if vs.len() == 0 {
        Seq::empty()
    } else {
        let rest = cursor_requests_spec(vs.drop_last(), buffer, hotspot);
        match (vs.last().ptr, buffer) {
            (Some(p), CursorBuffer::NewShm) => rest.push((p, CursorRequest::Attach { hotspot })),
            (Some(p), CursorBuffer::NoNew) => rest.push((p, CursorRequest::Hide)),
            _ => rest,
        }
    }
}

/// The requests to the desktop pointers after a cursor image commit.
pub fn cursor_requests(seats: &Vec<SeatPair>, buffer: CursorBuffer, hotspot: Option<Point>) -> (res:
    Vec<(u64, CursorRequest)>)
    ensures
        res@ == cursor_requests_spec(seat_views(seats@), buffer, hotspot),
{
    let ghost vs = seat_views(seats@);
    let mut res: Vec<(u64, CursorRequest)> = Vec::new();
    let mut i: usize = 0;
    while i < seats.len()
        invariant
            i <= seats@.len(),
            vs == seat_views(seats@),
            res@ == cursor_requests_spec(vs.subrange(0, i as int), buffer, hotspot),
        decreases seats@.len() - i,
    {
        proof {
            assert(vs.subrange(0, i + 1).drop_last() =~= vs.subrange(0, i as int));
            assert(vs.subrange(0, i + 1).last() == vs[i as int]);
        }
        match (seats[i].ptr, buffer) {
            (Some(p), CursorBuffer::NewShm) => {
                res.push((p, CursorRequest::Attach { hotspot }));
            },
            (Some(p), CursorBuffer::NoNew) => {
                res.push((p, CursorRequest::Hide));
            },
            _ => {},
        }
        i = i + 1;
    }
    proof {
        assert(vs.subrange(0, i as int) =~= vs);
    }
    res
}

/// The size of a drag-and-drop icon's EGL surface and damage tracker for a
/// committed icon whose surface tree has size `size`: at least 1x1.
pub fn dnd_icon_size(size: (i32, i32)) -> (res: (i32, i32))
    ensures
        res.0 == if size.0 < 1 {
            1
        } else {
            size.0
        },
        res.1 == if size.1 < 1 {
            1
        } else {
            size.1
        },
{
    (if size.0 < 1 {
        1
    } else {
        size.0
    }, if size.1 < 1 {
        1
    } else {
        size.1
    })
}

/// The drag-and-drop icon state of a seat.
#[derive(Clone, Copy, Debug, PartialEq, Eq, Structural)]
pub struct DndIconSlot {
    /// the desktop icon surface of the seat's drag, if any
    pub client_icon: Option<u64>,
    /// the seat's embedded drag has an icon
    pub has_server_icon: bool,
    /// the icon changed since it was last drawn
    pub dirty: bool,
    /// time of a frame callback that came and was not yet used
    pub frame: Option<u32>,
}

/// The slot whose icon `draw_dnd_icon` draws: the first with both icons.
pub open spec fn dnd_slot(s: Seq<DndIconSlot>) -> Option<int> {
    first_where(s, |d: DndIconSlot| d.client_icon is Some && d.has_server_icon)
}

/// Draws the drag-and-drop icon of the first seat that has one on both
/// sides, when it changed and a frame callback came: the icon is then clean
/// and the frame used. Returns the seat's position and the frame time.
pub fn draw_dnd_icon(slots: &mut Vec<DndIconSlot>) -> (res: Option<(usize, u32)>)
    ensures
        match dnd_slot(old(slots)@) {
            Some(i) => {
                let d = old(slots)@[i];
                if d.dirty && d.frame is Some {
                    &&& res == Some((i as usize, d.frame->0))
                    &&& final(slots)@ == old(slots)@.update(
                        i,
                        DndIconSlot { dirty: false, frame: None, ..d },
                    )
                } else {
                    res is None && final(slots)@ == old(slots)@
                }
            },
            None => res is None && final(slots)@ == old(slots)@,
        },
{
    let ghost p = |d: DndIconSlot| d.client_icon is Some && d.has_server_icon;
    let mut i: usize = 0;
    while i < slots.len()
        invariant
            i <= slots@.len(),
            slots@ == old(slots)@,
            p == (|d: DndIconSlot| d.client_icon is Some && d.has_server_icon),
            forall|j: int| 0 <= j < i ==> !p(#[trigger] slots@[j]),
        decreases slots@.len() - i,
    {
        let d = slots[i];
        if d.client_icon.is_some() && d.has_server_icon {
            proof {
                assert(crate::seat::is_first_where(slots@, p, i as int));
                let k = choose|k: int| crate::seat::is_first_where(slots@, p, k);
                assert(crate::seat::is_first_where(slots@, p, k));
                if k < i {
                    assert(!p(slots@[k]));
                } else if (i as int) < k {
                    assert(!p(slots@[i as int]));
                }
            }
            match d.frame {
                Some(t) => {
                    if d.dirty {
                        slots.set(i, DndIconSlot { dirty: false, frame: None, ..d });
                        return Some((i, t));
                    }
                    return None;
                },
                None => {
                    return None;
                },
            }
        }
        i = i + 1;
    }
    proof {
        if exists|k: int| crate::seat::is_first_where(slots@, p, k) {
            let k = choose|k: int| crate::seat::is_first_where(slots@, p, k);
            assert(p(slots@[k]));
        }
    }
    None
}

/// The first slot whose desktop icon surface is `surface`.
pub open spec fn icon_slot(s: Seq<DndIconSlot>, surface: u64) -> Option<int> {
    first_where(s, |d: DndIconSlot| d.client_icon == Some(surface))
}

/// A frame callback of the desktop surface `surface` came at `time`: when it
/// is a drag icon's surface, that icon may be drawn again at that time
/// (`draw_dnd_icon` follows). Returns the slot, if any; otherwise the frame
/// belongs to the space.
pub fn icon_frame_done(slots: &mut Vec<DndIconSlot>, surface: u64, time: u32) -> (res: Option<usize>)
    ensures
        res == match icon_slot(old(slots)@, surface) {
            Some(i) => Some(i as usize),
            None => None::<usize>,
        },
        final(slots)@ == match icon_slot(old(slots)@, surface) {
            Some(i) => old(slots)@.update(i, DndIconSlot { frame: Some(time), ..old(slots)@[i] }),
            None => old(slots)@,
        },
{
    let ghost p = |d: DndIconSlot| d.client_icon == Some(surface);
    let mut i: usize = 0;
    while i < slots.len()
        invariant
            i <= slots@.len(),
            slots@ == old(slots)@,
            p == (|d: DndIconSlot| d.client_icon == Some(surface)),
            forall|j: int| 0 <= j < i ==> !p(#[trigger] slots@[j]),
        decreases slots@.len() - i,
    {
        let d = slots[i];
        if d.client_icon == Some(surface) {
            proof {
                assert(crate::seat::is_first_where(slots@, p, i as int));
                let k = choose|k: int| crate::seat::is_first_where(slots@, p, k);
                assert(crate::seat::is_first_where(slots@, p, k));
                if k < i {
                    assert(!p(slots@[k]));
                } else if (i as int) < k {
                    assert(!p(slots@[i as int]));
                }
            }
            slots.set(i, DndIconSlot { frame: Some(time), ..d });
            return Some(i);
        }
        i = i + 1;
    }
    proof {
        if exists|k: int| crate::seat::is_first_where(slots@, p, k) {
            let k = choose|k: int| crate::seat::is_first_where(slots@, p, k);
            assert(p(slots@[k]));
        }
    }
    None
}

} // verus!
