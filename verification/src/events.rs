//! The boundary types of the event dispatcher: protocol events decoded into
//! plain values, and the commands the dispatcher sends back to the display
//! connection.

use vstd::prelude::*;
use crate::wm::{Geometry, Pointer, MAX_DIM};

verus! {

/// The mouse button that moves a floating window; the other grabbed button
/// resizes it.
pub const MOVE_BUTTON: u32 = 1;

/// Keysym of the digit 1; the four digit keys 1 to 4 switch to workspaces 0
/// to 3.
pub const WORKSPACE_KEY_BASE: u32 = 49;

/// A protocol event, decoded at the boundary into plain values.  Events
/// whose handling depends on which monitor owns the pointer carry the
/// pointer position.
#[derive(Debug, Clone, Copy, PartialEq, Eq, Structural)]
pub enum Event {
    /// A grabbed key went down and resolved to `keysym`; `subwindow` is the
    /// window under the pointer.
    KeyPress { keysym: u32, subwindow: u64, pointer: Pointer },
    /// A window was unmapped or destroyed.
    Unmapped { window: u64 },
    /// A window asks to be mapped; `floating` is the window-type
    /// classification (docks, dialogs, utilities and splash windows float).
    MapRequest { window: u64, floating: bool, pointer: Pointer },
    /// The pointer entered a window.
    Entered { window: u64 },
    /// A client message asked to toggle the fullscreen state of `window`.
    FullscreenRequest { window: u64, pointer: Pointer },
    /// A grabbed button went down over `subwindow`, whose geometry at that
    /// moment is `attr`.
    ButtonPress {
        button: u32,
        x_root: i32,
        y_root: i32,
        subwindow: u64,
        attr: Geometry,
        pointer: Pointer,
    },
    /// The grabbed button was released.
    ButtonRelease,
    /// The pointer moved during an active grab.
    Motion { x_root: i32, y_root: i32 },
}

impl Event {
    /// Coordinates an event may carry stay within the model's bounds, so
    /// that every drag computation fits in `i32`.
    pub open spec fn wf(self) -> bool {
        match self {
            Event::ButtonPress { x_root, y_root, attr, .. } => {
                &&& -MAX_DIM <= x_root <= MAX_DIM
                &&& -MAX_DIM <= y_root <= MAX_DIM
                &&& -MAX_DIM <= attr.x <= MAX_DIM
                &&& -MAX_DIM <= attr.y <= MAX_DIM
                &&& 0 <= attr.width <= MAX_DIM
                &&& 0 <= attr.height <= MAX_DIM
            },
            Event::Motion { x_root, y_root } => {
                &&& -MAX_DIM <= x_root <= MAX_DIM
                &&& -MAX_DIM <= y_root <= MAX_DIM
            },
            _ => true,
        }
    }

    /// Runtime check for `wf`, for the boundary that decodes raw events.
    pub fn is_valid(&self) -> (r: bool)
        ensures
            r == self.wf(),
    {
        match self {
            Event::ButtonPress { x_root, y_root, attr, .. } => {
                -MAX_DIM <= *x_root && *x_root <= MAX_DIM
                    && -MAX_DIM <= *y_root && *y_root <= MAX_DIM
                    && -MAX_DIM <= attr.x && attr.x <= MAX_DIM
                    && -MAX_DIM <= attr.y && attr.y <= MAX_DIM
                    && 0 <= attr.width && attr.width <= MAX_DIM
                    && 0 <= attr.height && attr.height <= MAX_DIM
            },
            Event::Motion { x_root, y_root } => {
                -MAX_DIM <= *x_root && *x_root <= MAX_DIM
                    && -MAX_DIM <= *y_root && *y_root <= MAX_DIM
            },
            _ => true,
        }
    }
}

/// A command for the display connection, the dispatcher's only output
/// channel.  The process around the dispatcher performs them in order.
#[derive(Debug, Clone, PartialEq)]
pub enum Command {
    /// Move and resize a window.
    Resize { window: u64, x: i32, y: i32, width: u32, height: u32 },
    /// Map (show) a window.
    Show { window: u64 },
    /// Unmap (hide) a window.
    Hide { window: u64 },
    /// Raise a window to the top of the stacking order.
    Raise { window: u64 },
    /// Set the input focus to a window and send it the take-focus message.
    Focus { window: u64 },
    /// Publish the active-window property.
    PublishActiveWindow { window: u64 },
    /// Publish the current-desktop property.
    PublishCurrentDesktop { index: u64 },
    /// Publish (`true`) or clear (`false`) the fullscreen window-state
    /// property.
    PublishFullscreen { on: bool },
    /// Subscribe the window to input events.
    Subscribe { window: u64 },
    /// Stamp the manager's name on the window.
    Stamp { window: u64 },
    /// Grab the pointer for a floating drag.
    GrabPointer { window: u64 },
    /// Release the pointer grab.
    UngrabPointer,
    /// Spawn an external program, fire-and-forget.
    Spawn { path: String },
    /// Close a window, gracefully where it cooperates.
    Close { window: u64 },
    /// Leave the event loop.
    Exit,
    /// Reload the configuration, re-enumerate the monitors, and re-run
    /// setup and the startup command.
    Restart,
}

} // verus!
