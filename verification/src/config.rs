//! Configuration data: screen padding, the bar flag, and the keybinding table
//! that maps a resolved keysym to an action.

use vstd::prelude::*;
use std::collections::HashMap;

verus! {

/// Upper bound on a single padding value, in pixels.  Keeps the layout
/// arithmetic far away from any integer limit.
pub const MAX_PAD: i32 = 10000;

/// Padding kept free around the tiling area, in pixels.
#[derive(Debug, Clone, Copy, PartialEq, Eq, Structural)]
pub struct Padding {
    pub top: i32,
    pub bottom: i32,
    pub left: i32,
    pub right: i32,
}

impl Padding {
    /// Values the layout arithmetic can digest: non-negative and bounded.
    pub open spec fn wf(self) -> bool {
        &&& 0 <= self.top <= MAX_PAD
        &&& 0 <= self.bottom <= MAX_PAD
        &&& 0 <= self.left <= MAX_PAD
        &&& 0 <= self.right <= MAX_PAD
    }

    /// Runtime check for `wf`, for callers that receive untrusted values.
    pub fn is_valid(&self) -> (r: bool)
        ensures
            r == self.wf(),
    {
        0 <= self.top && self.top <= MAX_PAD
            && 0 <= self.bottom && self.bottom <= MAX_PAD
            && 0 <= self.left && self.left <= MAX_PAD
            && 0 <= self.right && self.right <= MAX_PAD
    }
}

/// The closed set of built-in operations a key can be bound to.
#[derive(Debug, Clone, Copy, PartialEq, Eq, Structural)]
pub enum Internal {
    Fullscreen,
    Kill,
    Exit,
    Restart,
    FocusUp,
    FocusDown,
    FocusMaster,
    WindowUp,
    WindowDown,
    WindowMaster,
    ToggleFloat,
}

/// What a keybinding does: launch an external program or run a built-in
/// operation.
#[derive(Debug, Clone, PartialEq)]
pub enum Action {
    Exec(String),
    Internal(Internal),
}

/// The immutable configuration consulted by the event dispatcher.
pub struct Config {
    pub bar: bool,
    pub padding: Padding,
    pub keybindings: HashMap<u32, Action>,
}

impl Config {
    pub open spec fn wf(self) -> bool {
        self.padding.wf()
    }

    /// Runtime check for `wf`, for callers that receive untrusted values.
    pub fn is_valid(&self) -> (r: bool)
        ensures
            r == self.wf(),
    {
        self.padding.is_valid()
    }
}

impl Default for Config {
    /// The documented defaults: bar enabled, padding 50/10/10/10, and no
    /// keybindings (key lookups need the display connection, so the caller
    /// adds its own).
    fn default() -> (c: Config)
        ensures
            c.bar == true,
            c.padding == (Padding { top: 50, bottom: 10, left: 10, right: 10 }),
            c.keybindings@ == Map::<u32, Action>::empty(),
            c.wf(),
    {
        Config {
            bar: true,
            padding: Padding { top: 50, bottom: 10, left: 10, right: 10 },
            keybindings: HashMap::new(),
        }
    }
}

} // verus!
