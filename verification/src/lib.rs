//! Decision logic of an xdg-shell wrapper: a small embedded Wayland compositor that
//! hosts an application's xdg toplevel windows on a layer-shell surface of the
//! desktop compositor.
//!
//! Surfaces, seats and outputs are identified by plain integer ids here; the
//! protocol objects themselves stay with the program that drives this library.

pub mod buffer;
pub mod config;
pub mod dnd;
pub mod events;
pub mod focus;
pub mod geometry;
pub mod launch;
pub mod layer;
pub mod output;
pub mod pointer;
pub mod popup;
pub mod renderer;
pub mod seat;
pub mod simple;
pub mod space;
pub mod surface;
pub mod wire;
