//! A frame of pointer events of the desktop compositor, turned into what is
//! forwarded to the embedded compositor. Positions are whole surface-local
//! coordinates here; the program adds the fractional parts and builds the
//! axis values itself.

use vstd::prelude::*;

use crate::focus::{
    FocusEntry, FocusEntryView, FocusStatus, entered, focus_enter, focus_leave, focus_views,
    focused_surface_of, lemma_enter_keeps_seats_distinct, lemma_enter_then_focus,
    lemma_leave_keeps_entries, left, seat_focus, seats_distinct,
};
use crate::seat::{SeatPair, find_pointer_seat, pointer_seat, seat_views};

verus! {

/// One scroll axis of an axis event.
#[derive(Clone, Copy, Debug, PartialEq, Eq, Structural)]
pub struct AxisScroll {
    /// discrete steps
    pub discrete: i32,
    /// the continuous value is zero
    pub value_is_zero: bool,
    /// the magnitude of the continuous value is above zero
    pub value_is_positive: bool,
    /// the scroll stopped
    pub stop: bool,
}

/// An event of a pointer frame.
#[derive(Clone, Copy, Debug, PartialEq, Eq, Structural)]
pub enum PointerInput {
    /// the pointer left the desktop surface
    Leave { surface: u64 },
    /// the pointer entered the desktop surface at (x, y)
    Enter { surface: u64, x: i32, y: i32 },
    /// the pointer moved to (x, y) at `time`
    Motion { time: u32, x: i32, y: i32 },
    /// a button was pressed
    Press { time: u32, button: u32 },
    /// a button was released
    Release { time: u32, button: u32 },
    /// a scroll, with the raw axis source, if any
    Axis { time: u32, horizontal: AxisScroll, vertical: AxisScroll, source: Option<u32> },
}

/// Axis sources the embedded compositor knows.
#[derive(Clone, Copy, Debug, PartialEq, Eq, Structural)]
pub enum AxisSourceKind {
    /// a wheel
    Wheel,
    /// a finger on a touchpad
    Finger,
    /// continuous coordinate space
    Continuous,
    /// a tilted wheel
    WheelTilt,
}

/// What enters an axis frame for one axis.
#[derive(Clone, Copy, Debug, PartialEq, Eq, Structural)]
pub struct AxisPart {
    /// discrete steps, when there are any
    pub discrete: Option<i32>,
    /// the continuous value is set
    pub value: bool,
}

/// The axis frame to send to the embedded compositor.
#[derive(Clone, Copy, Debug, PartialEq, Eq, Structural)]
pub struct AxisPlan {
    /// time of the frame
    pub time: u32,
    /// source of the scroll
    pub source: AxisSourceKind,
    /// horizontal part, if the horizontal axis moved
    pub horizontal: Option<AxisPart>,
    /// vertical part, if the vertical axis moved
    pub vertical: Option<AxisPart>,
}

/// What is forwarded to the embedded compositor for one pointer event.
#[derive(Clone, Copy, Debug, PartialEq, Eq, Structural)]
pub enum PointerAction {
    /// the space is told the pointer left `surface`; the embedded pointer
    /// moves to no surface at the origin
    Leave { surface: u64 },
    /// the space is asked which embedded surface lies under (x, y) of the
    /// desktop surface `surface`, and the embedded pointer moves there;
    /// `event_time` is the event's time, or the time since start when `None`
    Hover { surface: u64, x: i32, y: i32, event_time: Option<u32> },
    /// the seat hovers no surface: the rest of the frame is dropped
    EndFrame,
    /// a button event, after the keyboard focus follows the press
    Button { time: u32, button: u32, pressed: bool },
    /// an axis frame
    Axis(AxisPlan),
    /// an axis event of an unknown source: nothing is sent
    Skip,
}

/// The axis source of a raw `wl_pointer` axis source value.
pub open spec fn axis_source_spec(raw: u32) -> Option<AxisSourceKind> {
    if raw == 0 {
        Some(AxisSourceKind::Wheel)
    } else if raw == 1 {
        Some(AxisSourceKind::Finger)
    } else if raw == 2 {
        Some(AxisSourceKind::Continuous)
    } else if raw == 3 {
        Some(AxisSourceKind::WheelTilt)
    } else {
        None
    }
}

/// The axis source of a raw `wl_pointer` axis source value.
pub fn axis_source(raw: u32) -> (res: Option<AxisSourceKind>)
    ensures
        res == axis_source_spec(raw),
{
    if raw == 0 {
        Some(AxisSourceKind::Wheel)
    } else if raw == 1 {
        Some(AxisSourceKind::Finger)
    } else if raw == 2 {
        Some(AxisSourceKind::Continuous)
    } else if raw == 3 {
        Some(AxisSourceKind::WheelTilt)
    } else {
        None
    }
}

/// An axis that did not move: no steps, no value and no stop.
pub open spec fn axis_is_none(a: AxisScroll) -> bool {
    a.discrete == 0 && a.value_is_zero && !a.stop
}

/// The horizontal part of an axis frame: steps when positive, the value when
/// its magnitude is above zero. A stop does not enter the frame.
pub open spec fn horizontal_part(a: AxisScroll) -> Option<AxisPart> {
    if axis_is_none(a) {
        None
    } else {
        Some(
            AxisPart {
                discrete: if a.discrete > 0 {
                    Some(a.discrete)
                } else {
                    None
                },
                value: a.value_is_positive,
            },
        )
    }
}

/// The vertical part of an axis frame: steps when positive, and always the
/// value. A stop does not enter the frame.
pub open spec fn vertical_part(a: AxisScroll) -> Option<AxisPart> {
    if axis_is_none(a) {
        None
    } else {
        Some(
            AxisPart {
                discrete: if a.discrete > 0 {
                    Some(a.discrete)
                } else {
                    None
                },
                value: true,
            },
        )
    }
}

fn horizontal_of(a: AxisScroll) -> (res: Option<AxisPart>)
    ensures
        res == horizontal_part(a),
{
    if a.discrete == 0 && a.value_is_zero && !a.stop {
        None
    } else {
        Some(
            AxisPart {
                discrete: if a.discrete > 0 {
                    Some(a.discrete)
                } else {
                    None
                },
                value: a.value_is_positive,
            },
        )
    }
}

fn vertical_of(a: AxisScroll) -> (res: Option<AxisPart>)
    ensures
        res == vertical_part(a),
{
    if a.discrete == 0 && a.value_is_zero && !a.stop {
        None
    } else {
        Some(
            AxisPart {
                discrete: if a.discrete > 0 {
                    Some(a.discrete)
                } else {
                    None
                },
                value: true,
            },
        )
    }
}

/// One pointer event of seat `seat` at time `now`: the hovered-surface list
/// after it, and what is forwarded.
pub open spec fn pointer_step_spec(
    hovered: Seq<FocusEntryView>,
    seat: Seq<char>,
    event: PointerInput,
    now: u64,
) -> (Seq<FocusEntryView>, PointerAction) {
    match event {
        PointerInput::Leave { surface } => (
            left(hovered, surface, now),
            PointerAction::Leave { surface },
        ),
        PointerInput::Enter { surface, x, y } => (
            entered(hovered, surface, seat),
            PointerAction::Hover { surface, x, y, event_time: None },
        ),
        PointerInput::Motion { time, x, y } => match seat_focus(hovered, seat) {
            Some(f) => (hovered, PointerAction::Hover { surface: f.0, x, y, event_time: Some(time) }),
            None => (hovered, PointerAction::EndFrame),
        },
        PointerInput::Press { time, button } => (
            hovered,
            PointerAction::Button { time, button, pressed: true },
        ),
        PointerInput::Release { time, button } => (
            hovered,
            PointerAction::Button { time, button, pressed: false },
        ),
        PointerInput::Axis { time, horizontal, vertical, source } => {
            let kind = match source {
                Some(raw) => axis_source_spec(raw),
                None => None,
            };
            match kind {
                Some(k) => (
                    hovered,
                    PointerAction::Axis(
                        AxisPlan {
                            time,
                            source: k,
                            horizontal: horizontal_part(horizontal),
                            vertical: vertical_part(vertical),
                        },
                    ),
                ),
                None => (hovered, PointerAction::Skip),
            }
        },
    }
}

/// A press is forwarded as a pressed button and a release as a released
/// one, with the event's time and button; neither changes the hovered list.
pub proof fn lemma_buttons_keep_direction(
    hovered: Seq<FocusEntryView>,
    seat: Seq<char>,
    time: u32,
    button: u32,
    now: u64,
)
    ensures
        pointer_step_spec(hovered, seat, PointerInput::Press { time, button }, now) == (
            hovered,
            PointerAction::Button { time, button, pressed: true },
        ),
        pointer_step_spec(hovered, seat, PointerInput::Release { time, button }, now) == (
            hovered,
            PointerAction::Button { time, button, pressed: false },
        ),
        button_after(None, PointerInput::Press { time, button }) == Some(button),
        button_after(None, PointerInput::Release { time, button }) == Some(button),
{
}

/// A frame of pointer events of seat `seat` at time `now`: the hovered list
/// after it and the actions forwarded, in order; a motion while the seat
/// hovers nothing ends the frame.
pub open spec fn pointer_frame_spec(
    hovered: Seq<FocusEntryView>,
    seat: Seq<char>,
    events: Seq<PointerInput>,
    now: u64,
) -> (Seq<FocusEntryView>, Seq<PointerAction>)
    decreases events.len(),
{
    if events.len() == 0 {
        (hovered, Seq::empty())
    } else {
        let step = pointer_step_spec(hovered, seat, events[0], now);
        if step.1 == PointerAction::EndFrame {
            (step.0, seq![step.1])
        } else {
            let rest = pointer_frame_spec(step.0, seat, events.drop_first(), now);
            (rest.0, seq![step.1] + rest.1)
        }
    }
}

/// The last button pressed or released after event `e`, when it was `last`
/// before: a press or a release records its button.
pub open spec fn button_after(last: Option<u32>, e: PointerInput) -> Option<u32> {
    match e {
        PointerInput::Press { button, .. } => Some(button),
        PointerInput::Release { button, .. } => Some(button),
        _ => last,
    }
}

/// The last button pressed or released after the events `events`, when it
/// was `last` before.
pub open spec fn last_button_after(last: Option<u32>, events: Seq<PointerInput>) -> Option<u32>
    decreases events.len(),
{
    if events.len() == 0 {
        last
    } else {
        button_after(last_button_after(last, events.drop_last()), events.last())
    }
}

/// Handles one pointer event of seat `seat` at time `now` (see
/// `pointer_step_spec`); a press or a release is recorded as the last
/// button.
pub fn pointer_step(
    hovered: &mut Vec<FocusEntry>,
    last_button: &mut Option<u32>,
    seat: &str,
    event: PointerInput,
    now: u64,
) -> (action: PointerAction)
    ensures
        (focus_views(final(hovered)@), action) == pointer_step_spec(
            focus_views(old(hovered)@),
            seat@,
            event,
            now,
        ),
        *final(last_button) == button_after(*old(last_button), event),
{
    match event {
        PointerInput::Press { button, .. } => {
            *last_button = Some(button);
        },
        PointerInput::Release { button, .. } => {
            *last_button = Some(button);
        },
        _ => {},
    }
    match event {
        PointerInput::Leave { surface } => {
            focus_leave(hovered, surface, now);
            PointerAction::Leave { surface }
        },
        PointerInput::Enter { surface, x, y } => {
            focus_enter(hovered, surface, seat);
            PointerAction::Hover { surface, x, y, event_time: None }
        },
        PointerInput::Motion { time, x, y } => match focused_surface_of(hovered, seat) {
            Some(s) => PointerAction::Hover { surface: s, x, y, event_time: Some(time) },
            None => PointerAction::EndFrame,
        },
        PointerInput::Press { time, button } => PointerAction::Button { time, button, pressed: true },
        PointerInput::Release { time, button } => PointerAction::Button {
            time,
            button,
            pressed: false,
        },
        PointerInput::Axis { time, horizontal, vertical, source } => {
            let kind = match source {
                Some(raw) => axis_source(raw),
                None => None,
            };
            match kind {
                Some(k) => PointerAction::Axis(
                    AxisPlan {
                        time,
                        source: k,
                        horizontal: horizontal_of(horizontal),
                        vertical: vertical_of(vertical),
                    },
                ),
                None => PointerAction::Skip,
            }
        },
    }
}

/// Handles a frame of pointer events of seat `seat` at time `now` (see
/// `pointer_frame_spec`); the last button pressed or released among the
/// events handled (one per action) is recorded.
pub fn pointer_frame(
    hovered: &mut Vec<FocusEntry>,
    last_button: &mut Option<u32>,
    seat: &str,
    events: &Vec<PointerInput>,
    now: u64,
) -> (actions: Vec<PointerAction>)
    ensures
        (focus_views(final(hovered)@), actions@) == pointer_frame_spec(
            focus_views(old(hovered)@),
            seat@,
            events@,
            now,
        ),
        actions@.len() <= events@.len(),
        *final(last_button) == last_button_after(
            *old(last_button),
            events@.subrange(0, actions@.len() as int),
        ),
{
    let ghost start = focus_views(hovered@);
    let ghost evs = events@;
    let mut actions: Vec<PointerAction> = Vec::new();
    let mut i: usize = 0;
    proof {
        assert(evs.subrange(0, evs.len() as int) =~= evs);
        assert(Seq::<PointerAction>::empty() + pointer_frame_spec(start, seat@, evs, now).1
            =~= pointer_frame_spec(start, seat@, evs, now).1);
    }
    while i < events.len()
        invariant
            i <= evs.len(),
            evs == events@,
            start == focus_views(old(hovered)@),
            actions@.len() == i,
            *last_button == last_button_after(*old(last_button), evs.subrange(0, i as int)),
            ({
                let rest = pointer_frame_spec(
                    focus_views(hovered@),
                    seat@,
                    evs.subrange(i as int, evs.len() as int),
                    now,
                );
                pointer_frame_spec(start, seat@, evs, now) == (rest.0, actions@ + rest.1)
            }),
        decreases evs.len() - i,
    {
        let ghost before = focus_views(hovered@);
        let ghost tail = evs.subrange(i as int, evs.len() as int);
        let ghost done = actions@;
        let a = pointer_step(hovered, last_button, seat, events[i], now);
        proof {
            assert(evs.subrange(0, i + 1).drop_last() =~= evs.subrange(0, i as int));
            assert(evs.subrange(0, i + 1).last() == evs[i as int]);
            assert(tail[0] == evs[i as int]);
            assert(tail.drop_first() =~= evs.subrange(i + 1, evs.len() as int));
        }
        actions.push(a);
        if a == PointerAction::EndFrame {
            proof {
                assert(pointer_frame_spec(before, seat@, tail, now) == (
                    focus_views(hovered@),
                    seq![a],
                ));
                assert(actions@ =~= done + seq![a]);
            }
            return actions;
        }
        proof {
            let rest = pointer_frame_spec(
                focus_views(hovered@),
                seat@,
                evs.subrange(i + 1, evs.len() as int),
                now,
            );
            assert(pointer_frame_spec(before, seat@, tail, now) == (rest.0, seq![a] + rest.1));
            assert(done + (seq![a] + rest.1) =~= actions@ + rest.1);
        }
        i = i + 1;
    }
    proof {
        assert(evs.subrange(i as int, evs.len() as int) =~= Seq::<PointerInput>::empty());
        assert(actions@ + Seq::<PointerAction>::empty() =~= actions@);
    }
    actions
}

/// Handles a frame of pointer events of the desktop pointer `pointer` at
/// time `now`: it goes to the seat that `find_pointer_seat` finds, and a
/// frame for which there is none (no seat has that pointer, or the embedded
/// seat lacks a pointer or a keyboard) changes nothing. Returns the seat's
/// position and the actions forwarded.
pub fn seat_pointer_frame(
    seats: &Vec<SeatPair>,
    hovered: &mut Vec<FocusEntry>,
    last_button: &mut Option<u32>,
    pointer: u64,
    events: &Vec<PointerInput>,
    now: u64,
) -> (res: Option<(usize, Vec<PointerAction>)>)
    ensures
        match pointer_seat(seat_views(seats@), pointer) {
            None => res is None && final(hovered)@ == old(hovered)@ && *final(last_button) == *old(
                last_button,
            ),
            Some(i) => res matches Some(r) && r.0 == i && (focus_views(final(hovered)@), r.1@)
                == pointer_frame_spec(
                focus_views(old(hovered)@),
                seat_views(seats@)[i].name,
                events@,
                now,
            ) && r.1@.len() <= events@.len() && *final(last_button) == last_button_after(
                *old(last_button),
                events@.subrange(0, r.1@.len() as int),
            ),
        },
{
    match find_pointer_seat(seats, pointer) {
        Some(i) => {
            assert(seat_views(seats@)[i as int].name == seats@[i as int].name@);
            let actions = pointer_frame(hovered, last_button, seats[i].name.as_str(), events, now);
            Some((i, actions))
        },
        None => None,
    }
}

/// The number of Enter events of a frame.
pub open spec fn enter_count(events: Seq<PointerInput>) -> nat
    decreases events.len(),
{
    if events.len() == 0 {
        0
    } else {
        (if events[0] is Enter {
            1nat
        } else {
            0nat
        }) + enter_count(events.drop_first())
    }
}

proof fn lemma_step_keeps_seats_distinct(vs: Seq<FocusEntryView>, seat: Seq<char>, e: PointerInput, now: u64)
    requires
        seats_distinct(vs),
    ensures
        seats_distinct(pointer_step_spec(vs, seat, e, now).0),
        pointer_step_spec(vs, seat, e, now).0.len() <= vs.len() + (if e is Enter {
            1int
        } else {
            0int
        }),
{
    match e {
        PointerInput::Leave { surface } => {
            lemma_leave_keeps_entries(vs, surface, now);
            let r = left(vs, surface, now);
            assert forall|i: int, j: int| 0 <= i < j < r.len() implies r[i].seat != r[j].seat by {
                assert(r[i].seat == vs[i].seat);
                assert(r[j].seat == vs[j].seat);
            }
        },
        PointerInput::Enter { surface, .. } => {
            lemma_enter_keeps_seats_distinct(vs, surface, seat);
        },
        _ => {},
    }
}

/// Across a whole frame the hovered list keeps one entry per seat, and it
/// grows by at most one entry per Enter event.
pub proof fn lemma_frame_keeps_seats_distinct(
    vs: Seq<FocusEntryView>,
    seat: Seq<char>,
    events: Seq<PointerInput>,
    now: u64,
)
    requires
        seats_distinct(vs),
    ensures
        seats_distinct(pointer_frame_spec(vs, seat, events, now).0),
        pointer_frame_spec(vs, seat, events, now).0.len() <= vs.len() + enter_count(events),
    decreases events.len(),
{
    if events.len() > 0 {
        let step = pointer_step_spec(vs, seat, events[0], now);
        lemma_step_keeps_seats_distinct(vs, seat, events[0], now);
        if step.1 != PointerAction::EndFrame {
            lemma_frame_keeps_seats_distinct(step.0, seat, events.drop_first(), now);
        }
    }
}

/// A frame that is not cut short and ends with the pointer entering surface
/// `s` leaves the seat hovering `s`.
pub proof fn lemma_frame_ending_in_enter(
    vs: Seq<FocusEntryView>,
    seat: Seq<char>,
    events: Seq<PointerInput>,
    now: u64,
)
    requires
        events.len() > 0,
        events.last() is Enter,
        pointer_frame_spec(vs, seat, events, now).1.len() == events.len(),
    ensures
        seat_focus(pointer_frame_spec(vs, seat, events, now).0, seat) == Some(
            (events.last()->Enter_surface, FocusStatus::Focused),
        ),
    decreases events.len(),
{
    let step = pointer_step_spec(vs, seat, events[0], now);
    if events.len() == 1 {
        assert(events[0] == events.last());
        assert(events.drop_first().len() == 0);
        assert(step.1 != PointerAction::EndFrame);
        assert(pointer_frame_spec(step.0, seat, events.drop_first(), now).0 == step.0);
        assert(step.0 == entered(vs, events.last()->Enter_surface, seat));
        lemma_enter_then_focus(vs, events.last()->Enter_surface, seat);
    } else {
        assert(step.1 != PointerAction::EndFrame);
        let rest = events.drop_first();
        assert(rest.last() == events.last());
        lemma_frame_ending_in_enter(step.0, seat, rest, now);
    }
}

/// A touch point of the desktop compositor and the desktop surface it went
/// down on.
#[derive(Clone, Copy, Debug, PartialEq, Eq, Structural)]
pub struct TouchPoint {
    /// id of the touch point
    pub id: i32,
    /// id of the desktop surface
    pub surface: u64,
}

/// `i` is the first entry of touch point `id`.
pub open spec fn is_first_touch(s: Seq<TouchPoint>, id: i32, i: int) -> bool {
    &&& 0 <= i < s.len()
    &&& s[i].id == id
    &&& forall|j: int| 0 <= j < i ==> s[j].id != id
}

/// The desktop surface that touch point `id` went down on, if any.
pub open spec fn touch_lookup(s: Seq<TouchPoint>, id: i32) -> Option<u64> {
    if exists|i: int| is_first_touch(s, id, i) {
        Some(s[choose|i: int| is_first_touch(s, id, i)].surface)
    } else {
        None
    }
}

proof fn lemma_first_touch(s: Seq<TouchPoint>, id: i32, i: int)
    requires
        is_first_touch(s, id, i),
    ensures
        touch_lookup(s, id) == Some(s[i].surface),
{
    let k = choose|k: int| is_first_touch(s, id, k);
    assert(is_first_touch(s, id, k));
    if k < i {
        assert(s[k].id != id);
    } else if i < k {
        assert(s[i].id != id);
    }
}

proof fn lemma_no_touch(s: Seq<TouchPoint>, id: i32)
    requires
        forall|j: int| 0 <= j < s.len() ==> s[j].id != id,
    ensures
        touch_lookup(s, id) is None,
{
    if exists|i: int| is_first_touch(s, id, i) {
        let i = choose|i: int| is_first_touch(s, id, i);
        assert(s[i].id == id);
    }
}

proof fn lemma_least_touch(s: Seq<TouchPoint>, id: i32, j: int)
    requires
        0 <= j < s.len(),
        s[j].id == id,
    ensures
        exists|i: int| is_first_touch(s, id, i),
    decreases j,
{
    if forall|m: int| 0 <= m < j ==> s[m].id != id {
        assert(is_first_touch(s, id, j));
    } else {
        let m = choose|m: int| 0 <= m < j && s[m].id == id;
        lemma_least_touch(s, id, m);
    }
}

/// The desktop surface that touch point `id` went down on.
pub fn touch_surface(touches: &Vec<TouchPoint>, id: i32) -> (res: Option<u64>)
    ensures
        res == touch_lookup(touches@, id),
{
    let mut i: usize = 0;
    while i < touches.len()
        invariant
            i <= touches@.len(),
            forall|j: int| 0 <= j < i ==> touches@[j].id != id,
        decreases touches@.len() - i,
    {
        if touches[i].id == id {
            proof {
                lemma_first_touch(touches@, id, i as int);
            }
            return Some(touches[i].surface);
        }
        i = i + 1;
    }
    proof {
        lemma_no_touch(touches@, id);
    }
    None
}

/// Touch point `id` went down on desktop surface `surface`: afterwards the
/// point maps to that surface and every other point to what it did before.
pub fn touch_down(touches: &mut Vec<TouchPoint>, id: i32, surface: u64)
    ensures
        forall|other: i32|
            #[trigger] touch_lookup(final(touches)@, other) == if other == id {
                Some(surface)
            } else {
                touch_lookup(old(touches)@, other)
            },
{
    let ghost before = touches@;
    let mut i: usize = 0;
    while i < touches.len()
        invariant
            i <= touches@.len(),
            touches@ == before,
            before == old(touches)@,
            forall|j: int| 0 <= j < i ==> touches@[j].id != id,
        decreases touches@.len() - i,
    {
        if touches[i].id == id {
            touches.set(i, TouchPoint { id, surface });
            proof {
                let after = touches@;
                assert forall|other: i32| #[trigger] touch_lookup(after, other) == if other == id {
                    Some(surface)
                } else {
                    touch_lookup(before, other)
                } by {
                    if other == id {
                        assert(is_first_touch(after, id, i as int));
                        lemma_first_touch(after, id, i as int);
                    } else {
                        if exists|k: int| is_first_touch(before, other, k) {
                            let k = choose|k: int| is_first_touch(before, other, k);
                            lemma_first_touch(before, other, k);
                            assert(is_first_touch(after, other, k));
                            lemma_first_touch(after, other, k);
                        } else {
                            assert forall|j: int| 0 <= j < after.len() implies after[j].id != other by {
                                if after[j].id == other {
                                    lemma_least_touch(before, other, j);
                                }
                            }
                            lemma_no_touch(after, other);
                        }
                    }
                }
            }
            return;
        }
        i = i + 1;
    }
    touches.push(TouchPoint { id, surface });
    proof {
        let after = touches@;
        assert forall|other: i32| #[trigger] touch_lookup(after, other) == if other == id {
            Some(surface)
        } else {
            touch_lookup(before, other)
        } by {
            if other == id {
                assert(is_first_touch(after, id, before.len() as int));
                lemma_first_touch(after, id, before.len() as int);
            } else {
                if exists|k: int| is_first_touch(before, other, k) {
                    let k = choose|k: int| is_first_touch(before, other, k);
                    lemma_first_touch(before, other, k);
                    assert(is_first_touch(after, other, k));
                    lemma_first_touch(after, other, k);
                } else {
                    assert forall|j: int| 0 <= j < after.len() implies after[j].id != other by {
                        if j < before.len() && after[j].id == other {
                            lemma_least_touch(before, other, j);
                        }
                    }
                    lemma_no_touch(after, other);
                }
            }
        }
    }
}

} // verus!
