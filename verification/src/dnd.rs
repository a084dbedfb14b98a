//! Drag and drop and the clipboard between the desktop compositor and the
//! embedded one: the drag-and-drop actions carried across, and what each
//! seat remembers of the offers and sources it forwards.

use vstd::prelude::*;

use crate::pointer::PointerInput;

verus! {

/// The drag-and-drop action "copy".
pub const DND_COPY: u32 = 1;

/// The drag-and-drop action "move".
pub const DND_MOVE: u32 = 2;

/// The drag-and-drop action "ask".
pub const DND_ASK: u32 = 4;

/// The actions of `a` that both protocols know, each carried over: copy,
/// move and ask.
pub open spec fn carried_actions(a: u32) -> u32 {
    (if a & DND_COPY != 0 {
        DND_COPY
    } else {
        0
    }) | (if a & DND_MOVE != 0 {
        DND_MOVE
    } else {
        0
    }) | (if a & DND_ASK != 0 {
        DND_ASK
    } else {
        0
    })
}

/// Carries the actions of `a` over to the other protocol (a drag started on
/// the embedded compositor, an action chosen on either side).
pub fn carry_actions(a: u32) -> (res: u32)
    ensures
        res == carried_actions(a),
{
    let copy: u32 = if a & DND_COPY != 0 {
        DND_COPY
    } else {
        0
    };
    let mv: u32 = if a & DND_MOVE != 0 {
        DND_MOVE
    } else {
        0
    };
    let ask: u32 = if a & DND_ASK != 0 {
        DND_ASK
    } else {
        0
    };
    copy | mv | ask
}

/// The one action a drag of the desktop compositor offers the embedded
/// compositor: copy if offered, else move if offered, else ask if offered,
/// else none.
pub open spec fn offered_action(a: u32) -> u32 {
    if a & DND_COPY != 0 {
        DND_COPY
    } else if a & DND_MOVE != 0 {
        DND_MOVE
    } else if a & DND_ASK != 0 {
        DND_ASK
    } else {
        0
    }
}

/// The action a drag of the desktop compositor offers the embedded one.
pub fn offer_action(a: u32) -> (res: u32)
    ensures
        res == offered_action(a),
{
    if a & DND_COPY != 0 {
        DND_COPY
    } else if a & DND_MOVE != 0 {
        DND_MOVE
    } else if a & DND_ASK != 0 {
        DND_ASK
    } else {
        0
    }
}

/// Carrying actions over is the identity on the three known actions, so
/// carrying them back gives what was carried: a round trip loses nothing;
/// and the offered action is one of the carried ones, if any.
pub proof fn lemma_actions_round_trip(a: u32)
    ensures
        carried_actions(carried_actions(a)) == carried_actions(a),
        carried_actions(a) == a & 7,
        offered_action(a) & carried_actions(a) == offered_action(a),
        (offered_action(a) == 0) == (carried_actions(a) == 0),
{
    assert(carried_actions(carried_actions(a)) == carried_actions(a)) by (bit_vector);
    assert(carried_actions(a) == a & 7) by (bit_vector);
    assert(offered_action(a) & carried_actions(a) == offered_action(a)) by (bit_vector);
    assert((offered_action(a) == 0) == (carried_actions(a) == 0)) by (bit_vector);
}

/// What a seat remembers of drags and selections it forwards.
#[derive(Clone, Copy, Debug, PartialEq, Eq, Structural)]
pub struct DndSeatState {
    /// the next drag offer of the desktop compositor is the seat's own drag
    pub next_dnd_offer_is_mine: bool,
    /// the next selection offer of the desktop compositor is the seat's own selection
    pub next_selection_offer_is_mine: bool,
    /// a drag offer of the desktop compositor is held
    pub dnd_offer: bool,
    /// a drag source was made on the desktop compositor
    pub client_dnd_source: bool,
    /// a copy-paste source was made on the desktop compositor
    pub copy_paste_source: bool,
    /// the embedded drag has a source
    pub server_dnd_source: bool,
    /// the embedded drag has an icon
    pub server_dnd_icon: bool,
    /// a desktop icon surface shows the drag's icon
    pub client_dnd_icon: bool,
}

/// What the program does when a drag starts on the embedded compositor.
#[derive(Clone, Copy, Debug, PartialEq, Eq, Structural)]
pub struct StartPlan {
    /// make a drag source on the desktop compositor, with the carried actions
    pub create_source: bool,
    /// start the drag from the seat's focused surface
    pub start_drag: bool,
    /// make a desktop icon surface for the drag's icon
    pub create_icon: bool,
}

impl DndSeatState {
    /// A selection offer of the desktop compositor: the seat's own is
    /// ignored once; any other is forwarded when there is an offer.
    pub fn selection_offered(&mut self, has_offer: bool) -> (forward: bool)
        ensures
            old(self).next_selection_offer_is_mine ==> !forward && *final(self) == (DndSeatState {
                next_selection_offer_is_mine: false,
                ..*old(self)
            }),
            !old(self).next_selection_offer_is_mine ==> forward == has_offer && *final(self)
                == *old(self),
    {
        if self.next_selection_offer_is_mine {
            self.next_selection_offer_is_mine = false;
            return false;
        }
        has_offer
    }

    /// A drag of the desktop compositor entered the seat's surface: with an
    /// offer, the offer is held and an embedded drag starts unless the drag
    /// is the seat's own.
    pub fn drag_entered(&mut self, has_offer: bool) -> (start_dnd: bool)
        ensures
            start_dnd == (has_offer && !old(self).next_dnd_offer_is_mine),
            *final(self) == (DndSeatState { dnd_offer: old(self).dnd_offer || has_offer, ..*old(self) }),
    {
        if !has_offer {
            return false;
        }
        self.dnd_offer = true;
        !self.next_dnd_offer_is_mine
    }

    /// The embedded selection changed: with a source, the seat's next
    /// selection offer is its own and a copy-paste source is made (returns
    /// true); without, the desktop selection is unset (returns false).
    pub fn new_selection(&mut self, has_source: bool) -> (create: bool)
        ensures
            create == has_source,
            has_source ==> *final(self) == (DndSeatState {
                next_selection_offer_is_mine: true,
                copy_paste_source: true,
                ..*old(self)
            }),
            !has_source ==> *final(self) == *old(self),
    {
        if has_source {
            self.next_selection_offer_is_mine = true;
            self.copy_paste_source = true;
        }
        has_source
    }

    /// A drag started on the embedded compositor, with a source and an icon
    /// if given, while the seat focuses a desktop surface (`has_focus`): with
    /// a source, the seat's next drag offer is its own and a drag source is
    /// made, the drag starts from the focused surface with an icon surface
    /// for the icon. The embedded drag's source and icon are recorded.
    pub fn started(&mut self, has_source: bool, has_icon: bool, has_focus: bool) -> (plan: StartPlan)
        ensures
            plan == (StartPlan {
                create_source: has_source,
                start_drag: has_source && has_focus,
                create_icon: has_source && has_focus && has_icon,
            }),
            *final(self) == (DndSeatState {
                next_dnd_offer_is_mine: old(self).next_dnd_offer_is_mine || has_source,
                client_dnd_source: old(self).client_dnd_source || has_source,
                client_dnd_icon: old(self).client_dnd_icon || (has_source && has_focus && has_icon),
                server_dnd_source: has_source,
                server_dnd_icon: has_icon,
                ..*old(self)
            }),
    {
        let create_icon = has_source && has_focus && has_icon;
        if has_source {
            self.next_dnd_offer_is_mine = true;
            self.client_dnd_source = true;
            if create_icon {
                self.client_dnd_icon = true;
            }
        }
        self.server_dnd_source = has_source;
        self.server_dnd_icon = has_icon;
        StartPlan { create_source: has_source, start_drag: has_source && has_focus, create_icon }
    }

    /// The desktop compositor cancelled or finished the seat's drag: the
    /// embedded drag source, if any, is told and dropped, with both icons.
    /// Returns whether there was one.
    pub fn source_ended(&mut self) -> (ended: bool)
        ensures
            ended == old(self).server_dnd_source,
            ended ==> *final(self) == (DndSeatState {
                server_dnd_source: false,
                server_dnd_icon: false,
                client_dnd_icon: false,
                ..*old(self)
            }),
            !ended ==> *final(self) == *old(self),
    {
        if self.server_dnd_source {
            self.server_dnd_source = false;
            self.server_dnd_icon = false;
            self.client_dnd_icon = false;
            true
        } else {
            false
        }
    }

    /// The embedded drag finished or was cancelled: the held desktop offer,
    /// if any, is finished and dropped. Returns whether there was one.
    pub fn offer_finished(&mut self) -> (finished: bool)
        ensures
            finished == old(self).dnd_offer,
            *final(self) == (DndSeatState { dnd_offer: false, ..*old(self) }),
    {
        let had = self.dnd_offer;
        self.dnd_offer = false;
        had
    }
}

/// The button a drop of a desktop drag releases on the embedded pointer
/// (the left button).
pub const DROP_BUTTON: u32 = 0x110;

/// What a drag of the desktop compositor over the seat's surface does.
#[derive(Clone, Copy, Debug, PartialEq, Eq, Structural)]
pub enum DragEvent {
    /// the drag left the desktop surface `surface`
    Leave { surface: u64 },
    /// the drag moved to (x, y), at the offer's time if it has one
    Motion { time: Option<u32>, x: i32, y: i32 },
    /// the drag was dropped, at the offer's time if it has one
    Drop { time: Option<u32> },
}

/// The pointer event a drag event is handled as: leaving as a pointer
/// leave, moving as a motion, dropping as a release of the left button; a
/// missing time is zero.
pub open spec fn drag_input_spec(e: DragEvent) -> PointerInput {
    match e {
        DragEvent::Leave { surface } => PointerInput::Leave { surface },
        DragEvent::Motion { time, x, y } => PointerInput::Motion {
            time: match time {
                Some(t) => t,
                None => 0,
            },
            x,
            y,
        },
        DragEvent::Drop { time } => PointerInput::Release {
            time: match time {
                Some(t) => t,
                None => 0,
            },
            button: DROP_BUTTON,
        },
    }
}

/// The pointer event a drag event is handled as (see `drag_input_spec`).
pub fn drag_pointer_input(e: DragEvent) -> (input: PointerInput)
    ensures
        input == drag_input_spec(e),
{
    match e {
        DragEvent::Leave { surface } => PointerInput::Leave { surface },
        DragEvent::Motion { time, x, y } => PointerInput::Motion {
            time: match time {
                Some(t) => t,
                None => 0,
            },
            x,
            y,
        },
        DragEvent::Drop { time } => PointerInput::Release {
            time: match time {
                Some(t) => t,
                None => 0,
            },
            button: DROP_BUTTON,
        },
    }
}

} // verus!
