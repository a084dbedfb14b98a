//! Input of the event-callback generation of the wrapper: keyboard and
//! pointer events of a desktop seat, forwarded one by one to the embedded
//! seat of the same name; scroll events are gathered into one axis frame
//! until the pointer frame ends.

use vstd::prelude::*;

use crate::pointer::{AxisSourceKind, axis_source, axis_source_spec};

verus! {

/// A scroll axis.
#[derive(Clone, Copy, Debug, PartialEq, Eq, Structural)]
pub enum ScrollAxis {
    /// vertical scrolling
    Vertical,
    /// horizontal scrolling
    Horizontal,
}

/// An axis frame being gathered. The continuous values themselves are kept
/// by the program; the frame records which axes have one.
#[derive(Clone, Copy, Debug, PartialEq, Eq, Structural)]
pub struct AxisFrameModel {
    /// time of the frame
    pub time: u32,
    /// source of the scroll
    pub source: Option<AxisSourceKind>,
    /// horizontal discrete steps
    pub h_discrete: Option<i32>,
    /// vertical discrete steps
    pub v_discrete: Option<i32>,
    /// the horizontal axis has a value
    pub h_value: bool,
    /// the vertical axis has a value
    pub v_value: bool,
    /// the horizontal scroll stopped
    pub h_stop: bool,
    /// the vertical scroll stopped
    pub v_stop: bool,
}

/// Scroll state between pointer frames.
#[derive(Clone, Copy, Debug, PartialEq, Eq, Structural)]
pub struct AxisFrameData {
    /// the frame being gathered
    pub frame: Option<AxisFrameModel>,
    /// a source that came before any frame, for the next one
    pub source: Option<AxisSourceKind>,
    /// horizontal discrete steps of this pointer frame
    pub h_discrete: Option<i32>,
    /// vertical discrete steps of this pointer frame
    pub v_discrete: Option<i32>,
}

/// A pointer event of the desktop compositor.
#[derive(Clone, Copy, Debug, PartialEq, Eq, Structural)]
pub enum PointerWireEvent {
    /// the pointer moved
    Motion { time: u32 },
    /// a button changed to the raw `wl_pointer` button state `state`
    Button { time: u32, button: u32, state: u32 },
    /// a scroll value on an axis
    Axis { time: u32, axis: ScrollAxis },
    /// end of a pointer frame
    Frame,
    /// the raw `wl_pointer` axis source of the scroll
    AxisSource { raw: u32 },
    /// the scroll on an axis stopped
    AxisStop { time: u32, axis: ScrollAxis },
    /// discrete steps on an axis
    AxisDiscrete { axis: ScrollAxis, discrete: i32 },
    /// the pointer entered a desktop surface
    Enter,
    /// the pointer left a desktop surface
    Leave,
}

/// What is forwarded to the embedded pointer.
#[derive(Clone, Copy, Debug, PartialEq, Eq, Structural)]
pub enum PointerWireAction {
    /// a motion to the pointer's location on the wrapped surface
    Motion { time: u32 },
    /// a button event
    Button { time: u32, button: u32, pressed: bool },
    /// keep the event's value for this axis of the frame being gathered
    SetValue(ScrollAxis),
    /// send the gathered axis frame
    SendFrame(AxisFrameModel),
    /// nothing is forwarded
    Nothing,
}

/// A new, empty axis frame.
pub open spec fn new_frame(time: u32) -> AxisFrameModel {
    AxisFrameModel {
        time,
        source: None,
        h_discrete: None,
        v_discrete: None,
        h_value: false,
        v_value: false,
        h_stop: false,
        v_stop: false,
    }
}

/// One pointer event: the scroll state after it and what is forwarded.
///
/// A scroll value goes into the current frame (a new one if none), with a
/// source held from before and the discrete steps of its axis; the end of a
/// pointer frame sends the frame and forgets the steps; a source goes into
/// the current frame, or is held (replacing any held one) when there is none;
/// a stop goes into the current frame (a new one if none).
pub open spec fn pointer_wire_step(state: AxisFrameData, event: PointerWireEvent) -> (
    AxisFrameData,
    PointerWireAction,
) {
    match event {
        PointerWireEvent::Motion { time } => (state, PointerWireAction::Motion { time }),
        PointerWireEvent::Button { time, button, state: raw } => if raw == 0 {
            (state, PointerWireAction::Button { time, button, pressed: false })
        } else if raw == 1 {
            (state, PointerWireAction::Button { time, button, pressed: true })
        } else {
            (state, PointerWireAction::Nothing)
        },
        PointerWireEvent::Axis { time, axis } => {
            let f0 = match state.frame {
                Some(f) => f,
                None => new_frame(time),
            };
            let f1 = match state.source {
                Some(s) => AxisFrameModel { source: Some(s), ..f0 },
                None => f0,
            };
            let f2 = match axis {
                ScrollAxis::Horizontal => AxisFrameModel {
                    h_discrete: match state.h_discrete {
                        Some(d) => Some(d),
                        None => f1.h_discrete,
                    },
                    h_value: true,
                    ..f1
                },
                ScrollAxis::Vertical => AxisFrameModel {
                    v_discrete: match state.v_discrete {
                        Some(d) => Some(d),
                        None => f1.v_discrete,
                    },
                    v_value: true,
                    ..f1
                },
            };
            (
                AxisFrameData { frame: Some(f2), source: None, ..state },
                PointerWireAction::SetValue(axis),
            )
        },
        PointerWireEvent::Frame => {
            let s = AxisFrameData { frame: None, h_discrete: None, v_discrete: None, ..state };
            match state.frame {
                Some(f) => (s, PointerWireAction::SendFrame(f)),
                None => (s, PointerWireAction::Nothing),
            }
        },
        PointerWireEvent::AxisSource { raw } => {
            let source = axis_source_spec(raw);
            match state.frame {
                Some(f) => match source {
                    Some(src) => (
                        AxisFrameData { frame: Some(AxisFrameModel { source: Some(src), ..f }), ..state },
                        PointerWireAction::Nothing,
                    ),
                    None => (state, PointerWireAction::Nothing),
                },
                None => (AxisFrameData { source, ..state }, PointerWireAction::Nothing),
            }
        },
        PointerWireEvent::AxisStop { time, axis } => {
            let f0 = match state.frame {
                Some(f) => f,
                None => new_frame(time),
            };
            let f1 = match axis {
                ScrollAxis::Horizontal => AxisFrameModel { h_stop: true, ..f0 },
                ScrollAxis::Vertical => AxisFrameModel { v_stop: true, ..f0 },
            };
            (AxisFrameData { frame: Some(f1), ..state }, PointerWireAction::Nothing)
        },
        PointerWireEvent::AxisDiscrete { axis, discrete } => match axis {
            ScrollAxis::Horizontal => (
                AxisFrameData { h_discrete: Some(discrete), ..state },
                PointerWireAction::Nothing,
            ),
            ScrollAxis::Vertical => (
                AxisFrameData { v_discrete: Some(discrete), ..state },
                PointerWireAction::Nothing,
            ),
        },
        PointerWireEvent::Enter => (state, PointerWireAction::Nothing),
        PointerWireEvent::Leave => (state, PointerWireAction::Nothing),
    }
}

/// Handles one pointer event of a seat whose embedded seat has a pointer
/// (see `pointer_wire_step`).
pub fn pointer_wire_event(state: &mut AxisFrameData, event: PointerWireEvent) -> (action: PointerWireAction)
    ensures
        (*final(state), action) == pointer_wire_step(*old(state), event),
{
    match event {
        PointerWireEvent::Motion { time } => PointerWireAction::Motion { time },
        PointerWireEvent::Button { time, button, state: raw } => if raw == 0 {
            PointerWireAction::Button { time, button, pressed: false }
        } else if raw == 1 {
            PointerWireAction::Button { time, button, pressed: true }
        } else {
            PointerWireAction::Nothing
        },
        PointerWireEvent::Axis { time, axis } => {
            let mut f = match state.frame {
                Some(f) => f,
                None => AxisFrameModel {
                    time,
                    source: None,
                    h_discrete: None,
                    v_discrete: None,
                    h_value: false,
                    v_value: false,
                    h_stop: false,
                    v_stop: false,
                },
            };
            if let Some(s) = state.source {
                f.source = Some(s);
            }
            state.source = None;
            match axis {
                ScrollAxis::Horizontal => {
                    if let Some(d) = state.h_discrete {
                        f.h_discrete = Some(d);
                    }
                    f.h_value = true;
                },
                ScrollAxis::Vertical => {
                    if let Some(d) = state.v_discrete {
                        f.v_discrete = Some(d);
                    }
                    f.v_value = true;
                },
            }
            state.frame = Some(f);
            PointerWireAction::SetValue(axis)
        },
        PointerWireEvent::Frame => {
            let frame = state.frame;
            state.frame = None;
            state.h_discrete = None;
            state.v_discrete = None;
            match frame {
                Some(f) => PointerWireAction::SendFrame(f),
                None => PointerWireAction::Nothing,
            }
        },
        PointerWireEvent::AxisSource { raw } => {
            let source = axis_source(raw);
            match state.frame {
                Some(f) => {
                    if let Some(src) = source {
                        state.frame = Some(AxisFrameModel { source: Some(src), ..f });
                    }
                },
                None => {
                    state.source = source;
                },
            }
            PointerWireAction::Nothing
        },
        PointerWireEvent::AxisStop { time, axis } => {
            let mut f = match state.frame {
                Some(f) => f,
                None => AxisFrameModel {
                    time,
                    source: None,
                    h_discrete: None,
                    v_discrete: None,
                    h_value: false,
                    v_value: false,
                    h_stop: false,
                    v_stop: false,
                },
            };
            match axis {
                ScrollAxis::Horizontal => {
                    f.h_stop = true;
                },
                ScrollAxis::Vertical => {
                    f.v_stop = true;
                },
            }
            state.frame = Some(f);
            PointerWireAction::Nothing
        },
        PointerWireEvent::AxisDiscrete { axis, discrete } => {
            match axis {
                ScrollAxis::Horizontal => {
                    state.h_discrete = Some(discrete);
                },
                ScrollAxis::Vertical => {
                    state.v_discrete = Some(discrete);
                },
            }
            PointerWireAction::Nothing
        },
        PointerWireEvent::Enter => PointerWireAction::Nothing,
        PointerWireEvent::Leave => PointerWireAction::Nothing,
    }
}

/// The end of a pointer frame leaves no frame and no discrete steps behind,
/// and sends exactly the frame gathered so far.
pub proof fn lemma_frame_end_resets(state: AxisFrameData)
    ensures
        pointer_wire_step(state, PointerWireEvent::Frame).0.frame is None,
        pointer_wire_step(state, PointerWireEvent::Frame).0.h_discrete is None,
        pointer_wire_step(state, PointerWireEvent::Frame).0.v_discrete is None,
        pointer_wire_step(state, PointerWireEvent::Frame).1 == match state.frame {
            Some(f) => PointerWireAction::SendFrame(f),
            None => PointerWireAction::Nothing,
        },
{
}

/// A keyboard event of the desktop compositor.
#[derive(Clone, Copy, Debug, PartialEq, Eq, Structural)]
pub enum KeyboardWireEvent {
    /// a key changed to the raw `wl_keyboard` key state `state`
    Key { time: u32, key: u32, state: u32 },
    /// key repeat settings
    RepeatInfo { rate: i32, delay: i32 },
    /// the keyboard entered a desktop surface
    Enter,
    /// the keyboard left a desktop surface
    Leave,
    /// keymap and modifiers
    Other,
}

/// What is forwarded to the embedded keyboard.
#[derive(Clone, Copy, Debug, PartialEq, Eq, Structural)]
pub enum KeyboardWireAction {
    /// a key event
    Key { time: u32, key: u32, pressed: bool },
    /// new repeat settings
    RepeatInfo { rate: i32, delay: i32 },
    /// the keyboard focus moves to this embedded surface, or to none
    Focus(Option<u64>),
    /// nothing is forwarded
    Nothing,
}

/// One keyboard event of a seat whose embedded seat has a keyboard, while
/// `focused` is the embedded surface under the pointer: the desktop keyboard
/// focus flag after it and what is forwarded. Entering focuses the surface
/// under the pointer; leaving focuses none.
pub open spec fn keyboard_wire_step(kbd_focus: bool, focused: Option<u64>, event: KeyboardWireEvent) -> (
    bool,
    KeyboardWireAction,
) {
    match event {
        KeyboardWireEvent::Key { time, key, state } => if state == 0 {
            (kbd_focus, KeyboardWireAction::Key { time, key, pressed: false })
        } else if state == 1 {
            (kbd_focus, KeyboardWireAction::Key { time, key, pressed: true })
        } else {
            (kbd_focus, KeyboardWireAction::Nothing)
        },
        KeyboardWireEvent::RepeatInfo { rate, delay } => (
            kbd_focus,
            KeyboardWireAction::RepeatInfo { rate, delay },
        ),
        KeyboardWireEvent::Enter => (true, KeyboardWireAction::Focus(focused)),
        KeyboardWireEvent::Leave => (false, KeyboardWireAction::Focus(None)),
        KeyboardWireEvent::Other => (kbd_focus, KeyboardWireAction::Nothing),
    }
}

/// Handles one keyboard event (see `keyboard_wire_step`).
pub fn keyboard_wire_event(kbd_focus: &mut bool, focused: Option<u64>, event: KeyboardWireEvent) -> (action:
    KeyboardWireAction)
    ensures
        (*final(kbd_focus), action) == keyboard_wire_step(*old(kbd_focus), focused, event),
{
    match event {
        KeyboardWireEvent::Key { time, key, state } => if state == 0 {
            KeyboardWireAction::Key { time, key, pressed: false }
        } else if state == 1 {
            KeyboardWireAction::Key { time, key, pressed: true }
        } else {
            KeyboardWireAction::Nothing
        },
        KeyboardWireEvent::RepeatInfo { rate, delay } => KeyboardWireAction::RepeatInfo { rate, delay },
        KeyboardWireEvent::Enter => {
            *kbd_focus = true;
            KeyboardWireAction::Focus(focused)
        },
        KeyboardWireEvent::Leave => {
            *kbd_focus = false;
            KeyboardWireAction::Focus(None)
        },
        KeyboardWireEvent::Other => KeyboardWireAction::Nothing,
    }
}

/// What the embedded compositor does for a new toplevel window of the
/// event-callback generation.
#[derive(Debug)]
pub struct ToplevelPlan {
    /// the size configured for the window: that of the wrapper's surface, if any
    pub size: Option<(i32, i32)>,
    /// the seats (by position) whose embedded keyboard focuses the window
    pub focus_seats: Vec<usize>,
}

/// A new toplevel window: it is configured to the size of the wrapper's
/// surface (`surface_dims`, if there is a surface) and becomes the focused
/// surface; while the desktop keyboard focuses the wrapper (`kbd_focus`),
/// every seat with a keyboard focuses it.
pub fn new_toplevel_plan(surface_dims: Option<(u32, u32)>, kbd_focus: bool, seats: &Vec<crate::seat::DesktopSeat>) -> (plan: ToplevelPlan)
    ensures
        plan.size == match surface_dims {
            Some(d) => Some((d.0 as i32, d.1 as i32)),
            None => None,
        },
        kbd_focus ==> plan.focus_seats@ == Seq::new(seats@.len(), |i: int| i).filter(
            |i: int| seats@[i].has_kbd,
        ).map_values(|i: int| i as usize),
        !kbd_focus ==> plan.focus_seats@.len() == 0,
{
    let size = match surface_dims {
        Some(d) => Some((d.0 as i32, d.1 as i32)),
        None => None,
    };
    let mut focus_seats: Vec<usize> = Vec::new();
    if kbd_focus {
        let ghost idx = Seq::new(seats@.len(), |i: int| i);
        let ghost p = |i: int| seats@[i].has_kbd;
        let mut i: usize = 0;
        while i < seats.len()
            invariant
                i <= seats@.len(),
                idx == Seq::new(seats@.len(), |i: int| i),
                p == (|i: int| seats@[i].has_kbd),
                focus_seats@ == idx.subrange(0, i as int).filter(p).map_values(|i: int| i as usize),
            decreases seats@.len() - i,
        {
            proof {
                assert(idx.subrange(0, i + 1).drop_last() =~= idx.subrange(0, i as int));
                assert(idx.subrange(0, i + 1).last() == i as int);
                reveal(Seq::filter);
            }
            if seats[i].has_kbd {
                let ghost before = focus_seats@;
                focus_seats.push(i);
                proof {
                    assert(idx.subrange(0, i as int).filter(p).push(i as int).map_values(|i: int| i as usize)
                        =~= before.push(i));
                }
            }
            i = i + 1;
        }
        proof {
            assert(idx.subrange(0, i as int) =~= idx);
        }
    }
    ToplevelPlan { size, focus_seats }
}

} // verus!
