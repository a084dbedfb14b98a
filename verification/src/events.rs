//! Pending render events of layer surfaces and popups, and how the events that
//! the desktop compositor sends change them.

use vstd::prelude::*;

use crate::geometry::Rectangle;

verus! {

/// Next thing a layer surface has to do before it renders.
#[derive(Clone, Copy, Debug, PartialEq, Eq, Structural)]
pub enum RenderEvent {
    /// waiting for the first configure event
    WaitConfigure,
    /// the desktop compositor configured this size
    Configure { width: u32, height: u32 },
    /// the desktop compositor closed the surface
    Closed,
}

/// Next thing a popup has to do before it renders.
#[derive(Clone, Copy, Debug, PartialEq, Eq, Structural)]
pub enum PopupRenderEvent {
    /// waiting for the first configure event
    WaitConfigure,
    /// the desktop compositor configured this geometry
    Configure { x: i32, y: i32, width: i32, height: i32 },
    /// the desktop compositor dismissed the popup
    Closed,
}

/// Space events
#[derive(Clone, Copy, Debug, PartialEq, Eq, Structural)]
pub enum SpaceEvent {
    /// waiting for the next configure event
    WaitConfigure {
        /// whether it is waiting for the first configure event
        first: bool,
        /// width
        width: i32,
        /// height
        height: i32,
    },
    /// the space has been scheduled to cleanup and exit
    Quit,
}

/// Next thing the layer surface of a simple wrapper space has to do.
#[derive(Clone, Copy, Debug, PartialEq, Eq, Structural)]
pub enum SimpleSpaceEvent {
    /// waiting for a configure event after asking for this size
    WaitConfigure { width: u32, height: u32 },
    /// the desktop compositor configured this size
    Configure { width: u32, height: u32, serial: u32 },
    /// the surface was closed: clean up and exit
    Quit,
}

/// Next thing a popup of a simple wrapper space has to do.
#[derive(Clone, Copy, Debug, PartialEq, Eq, Structural)]
pub enum SimplePopupEvent {
    /// waiting for the first configure event
    WaitConfigure,
    /// the desktop compositor configured this geometry
    Configure { x: i32, y: i32, width: i32, height: i32 },
    /// the desktop compositor dismissed the popup
    Closed,
    /// the desktop compositor moved the popup for this reposition request
    Repositioned(u32),
}

/// An event that the desktop compositor sends to a layer surface.
#[derive(Clone, Copy, Debug, PartialEq, Eq, Structural)]
pub enum LayerSurfaceEvent {
    /// the surface was closed
    Closed,
    /// the surface is to take this size; acknowledge `serial`
    Configure { serial: u32, width: u32, height: u32 },
}

/// An event that the desktop compositor sends to an xdg popup.
#[derive(Clone, Copy, Debug, PartialEq, Eq, Structural)]
pub enum XdgPopupEvent {
    /// the popup is placed at this geometry
    Configure { x: i32, y: i32, width: i32, height: i32 },
    /// the popup was dismissed
    PopupDone,
    /// the popup was moved in answer to the reposition request `token`
    Repositioned { token: u32 },
}

/// The pending render event of a layer surface after an event of the desktop
/// compositor, and the serial to acknowledge, if any: closing always wins, and
/// a configure event is taken unless the surface is already closed.
pub open spec fn layer_event_result(event: LayerSurfaceEvent, current: Option<RenderEvent>) -> (
    Option<RenderEvent>,
    Option<u32>,
) {
    match event {
        LayerSurfaceEvent::Closed => (Some(RenderEvent::Closed), None),
        LayerSurfaceEvent::Configure { serial, width, height } => {
            if current != Some(RenderEvent::Closed) {
                (Some(RenderEvent::Configure { width, height }), Some(serial))
            } else {
                (current, None)
            }
        },
    }
}

/// Applies an event of the desktop compositor to the pending render event of a
/// layer surface; returns the serial to acknowledge, if any.
pub fn apply_layer_event(event: LayerSurfaceEvent, next: &mut Option<RenderEvent>) -> (ack: Option<
    u32,
>)
    ensures
        (*final(next), ack) == layer_event_result(event, *old(next)),
{
    match event {
        LayerSurfaceEvent::Closed => {
            *next = Some(RenderEvent::Closed);
            None
        },
        LayerSurfaceEvent::Configure { serial, width, height } => {
            let closed = match *next {
                Some(RenderEvent::Closed) => true,
                _ => false,
            };
            if !closed {
                *next = Some(RenderEvent::Configure { width, height });
                Some(serial)
            } else {
                None
            }
        },
    }
}

/// The pending event of a simple wrapper space after an event of the desktop
/// compositor, and the serial to acknowledge, if any.
pub open spec fn simple_layer_event_result(
    event: LayerSurfaceEvent,
    current: Option<SimpleSpaceEvent>,
) -> (Option<SimpleSpaceEvent>, Option<u32>) {
    match event {
        LayerSurfaceEvent::Closed => (Some(SimpleSpaceEvent::Quit), None),
        LayerSurfaceEvent::Configure { serial, width, height } => {
            if current != Some(SimpleSpaceEvent::Quit) {
                (Some(SimpleSpaceEvent::Configure { width, height, serial }), Some(serial))
            } else {
                (current, None)
            }
        },
    }
}

/// Applies an event of the desktop compositor to the pending event of a simple
/// wrapper space; returns the serial to acknowledge, if any.
pub fn apply_simple_layer_event(event: LayerSurfaceEvent, next: &mut Option<SimpleSpaceEvent>) -> (ack:
    Option<u32>)
    ensures
        (*final(next), ack) == simple_layer_event_result(event, *old(next)),
{
    match event {
        LayerSurfaceEvent::Closed => {
            *next = Some(SimpleSpaceEvent::Quit);
            None
        },
        LayerSurfaceEvent::Configure { serial, width, height } => {
            let quit = match *next {
                Some(SimpleSpaceEvent::Quit) => true,
                _ => false,
            };
            if !quit {
                *next = Some(SimpleSpaceEvent::Configure { width, height, serial });
                Some(serial)
            } else {
                None
            }
        },
    }
}

/// The pending render event of a popup after an event of the desktop
/// compositor, and the geometry to give the embedded popup, if any. A closed
/// popup ignores every further event.
pub open spec fn popup_event_result(event: XdgPopupEvent, current: Option<PopupRenderEvent>) -> (
    Option<PopupRenderEvent>,
    Option<Rectangle>,
) {
    if current == Some(PopupRenderEvent::Closed) {
        (current, None)
    } else {
        match event {
            XdgPopupEvent::Configure { x, y, width, height } => (
                Some(PopupRenderEvent::Configure { x, y, width, height }),
                Some(Rectangle { x, y, w: width, h: height }),
            ),
            XdgPopupEvent::PopupDone => (Some(PopupRenderEvent::Closed), None),
            XdgPopupEvent::Repositioned { .. } => (current, None),
        }
    }
}

/// Applies an event of the desktop compositor to the pending render event of a
/// popup; returns the geometry to give the embedded popup (and then send it a
/// configure), if any.
pub fn apply_popup_event(event: XdgPopupEvent, next: &mut Option<PopupRenderEvent>) -> (geometry:
    Option<Rectangle>)
    ensures
        (*final(next), geometry) == popup_event_result(event, *old(next)),
{
    let closed = match *next {
        Some(PopupRenderEvent::Closed) => true,
        _ => false,
    };
    if closed {
        return None;
    }
    match event {
        XdgPopupEvent::Configure { x, y, width, height } => {
            *next = Some(PopupRenderEvent::Configure { x, y, width, height });
            Some(Rectangle { x, y, w: width, h: height })
        },
        XdgPopupEvent::PopupDone => {
            *next = Some(PopupRenderEvent::Closed);
            None
        },
        XdgPopupEvent::Repositioned { .. } => None,
    }
}

/// The pending event of a popup of a simple wrapper space after an event of
/// the desktop compositor, and whether the embedded popup is to be sent a
/// configure and tracked. A closed popup ignores every further event.
pub open spec fn simple_popup_event_result(event: XdgPopupEvent, current: Option<SimplePopupEvent>) -> (
    Option<SimplePopupEvent>,
    bool,
) {
    if current == Some(SimplePopupEvent::Closed) {
        (current, false)
    } else {
        match event {
            XdgPopupEvent::Configure { x, y, width, height } => (
                Some(SimplePopupEvent::Configure { x, y, width, height }),
                true,
            ),
            XdgPopupEvent::PopupDone => (Some(SimplePopupEvent::Closed), false),
            XdgPopupEvent::Repositioned { token } => (Some(SimplePopupEvent::Repositioned(token)), false),
        }
    }
}

/// Applies an event of the desktop compositor to the pending event of a popup
/// of a simple wrapper space; returns whether the embedded popup is to be sent
/// a configure and tracked.
pub fn apply_simple_popup_event(event: XdgPopupEvent, next: &mut Option<SimplePopupEvent>) -> (configure:
    bool)
    ensures
        (*final(next), configure) == simple_popup_event_result(event, *old(next)),
{
    let closed = match *next {
        Some(SimplePopupEvent::Closed) => true,
        _ => false,
    };
    if closed {
        return false;
    }
    match event {
        XdgPopupEvent::Configure { x, y, width, height } => {
            *next = Some(SimplePopupEvent::Configure { x, y, width, height });
            true
        },
        XdgPopupEvent::PopupDone => {
            *next = Some(SimplePopupEvent::Closed);
            false
        },
        XdgPopupEvent::Repositioned { token } => {
            *next = Some(SimplePopupEvent::Repositioned(token));
            false
        },
    }
}

/// Once a layer surface, a space or a popup is closed, no event of the desktop
/// compositor opens it again.
pub proof fn lemma_closed_is_final(
    layer_event: LayerSurfaceEvent,
    popup_event: XdgPopupEvent,
)
    ensures
        layer_event_result(layer_event, Some(RenderEvent::Closed)).0 == Some(RenderEvent::Closed),
        simple_layer_event_result(layer_event, Some(SimpleSpaceEvent::Quit)).0 == Some(
            SimpleSpaceEvent::Quit,
        ),
        popup_event_result(popup_event, Some(PopupRenderEvent::Closed)).0 == Some(
            PopupRenderEvent::Closed,
        ),
        simple_popup_event_result(popup_event, Some(SimplePopupEvent::Closed)).0 == Some(
            SimplePopupEvent::Closed,
        ),
{
}

} // verus!
