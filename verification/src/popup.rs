//! Popups of the wrapper space that wait for, and then take, the geometry
//! that the desktop compositor configures.

use vstd::prelude::*;

use crate::geometry::{Point, Rectangle};

verus! {

/// Popup events
#[derive(Clone, Copy, Debug, PartialEq, Eq, Structural)]
pub enum WrapperPopupState {
    /// Wait for configure event to render
    WaitConfigure,
    /// Configure Event
    Rectangle {
        /// x position
        x: i32,
        /// y position
        y: i32,
        /// width
        width: i32,
        /// height
        height: i32,
    },
}

/// Popup
#[derive(Debug)]
pub struct WrapperPopup {
    /// the popup has an EGL surface
    pub has_egl_surface: bool,
    /// id of the popup's surface on the layer shell surface
    pub c_wl_surface: u64,
    /// id of the embedded popup's surface
    pub s_surface: u64,
    /// the embedded popup's surface still exists
    pub alive: bool,
    /// the state of the popup
    pub state: Option<WrapperPopupState>,
    /// whether or not the popup needs to be rendered
    pub dirty: bool,
    /// full rectangle of the inner popup, including dropshadow borders
    pub rectangle: Rectangle,
    /// accumulated damage with age values
    pub accumulated_damage: Vec<Vec<Rectangle>>,
    /// number of frames to clear whole
    pub full_clear: u8,
    /// location of the popup wrapper
    pub wrapper_rectangle: Rectangle,
}

/// What `WrapperPopup::handle_events` asks of the program.
#[derive(Clone, Copy, Debug)]
pub struct PopupUpdate {
    /// the embedded popup is alive
    pub alive: bool,
    /// resize the EGL surface to (width, height) and commit the embedded popup
    pub resize: Option<(i32, i32)>,
}

impl WrapperPopup {
    /// Handles a configured geometry: the popup takes its rectangle, is to
    /// be rendered and cleared whole for the next four frames, and the state
    /// is consumed. Returns whether the popup is alive.
    pub fn handle_events(&mut self) -> (update: PopupUpdate)
        requires
            old(self).state matches Some(WrapperPopupState::Rectangle { .. }) ==> old(
                self,
            ).has_egl_surface,
        ensures
            update.alive == old(self).alive,
            match old(self).state {
                Some(WrapperPopupState::Rectangle { x, y, width, height }) => {
                    &&& update.resize == Some((width, height))
                    &&& *final(self) == (WrapperPopup {
                        dirty: true,
                        full_clear: 4,
                        rectangle: Rectangle { x, y, w: width, h: height },
                        state: None,
                        ..*old(self)
                    })
                },
                _ => update.resize is None && *final(self) == *old(self),
            },
    {
        match self.state {
            Some(WrapperPopupState::Rectangle { x, y, width, height }) => {
                self.dirty = true;
                self.full_clear = 4;
                self.rectangle = Rectangle::from_loc_and_size(Point { x, y }, width, height);
                self.state = None;
                PopupUpdate { alive: self.alive, resize: Some((width, height)) }
            },
            _ => PopupUpdate { alive: self.alive, resize: None },
        }
    }
}

} // verus!
