//! The event dispatcher: the decisions of the control loop as functions from
//! state and event to a new state and a list of display commands.
//!
//! The process around the library blocks for the next protocol event,
//! decodes it into an [`Event`](crate::events::Event), hands it to
//! [`WindowManager::handle_event`], and performs the returned commands in
//! order.  Everything that is policy — who is admitted, what is resized
//! where, which window holds the focus — is decided here and verified.

use vstd::prelude::*;
use crate::config::{Action, Internal};
use crate::events::{Command, Event, MOVE_BUTTON, WORKSPACE_KEY_BASE};
use crate::layout::{layout_monitor, monitor_placements, Placement};
use crate::wm::{
    monitor_for, tiled_in, Client, DragStart, FloatClient, Geometry, MonitorV, Pointer,
    WindowManager, WmV,
};

verus! {

/// The resize commands for a list of placements, in order.
pub open spec fn resize_cmds(ps: Seq<Placement>) -> Seq<Command>
    decreases ps.len(),
{
    if ps.len() == 0 {
        Seq::empty()
    } else {
        resize_cmds(ps.drop_last()) + seq![
            Command::Resize {
                window: ps.last().window,
                x: ps.last().x,
                y: ps.last().y,
                width: ps.last().width,
                height: ps.last().height,
            },
        ]
    }
}

/// The tiling commands for the first `n` monitors.
pub open spec fn tile_upto(v: WmV, n: int) -> Seq<Command>
    decreases n,
{
    if n <= 0 {
        Seq::empty()
    } else {
        tile_upto(v, n - 1) + resize_cmds(monitor_placements(v.monitors[n - 1], v.padding))
    }
}

/// The tiling commands for the whole state: every monitor's placements, in
/// monitor order.
pub open spec fn tile_cmds(v: WmV) -> Seq<Command> {
    tile_upto(v, v.monitors.len() as int)
}

/// The commands that transfer focus to a window.
pub open spec fn focus_cmds(window: u64) -> Seq<Command> {
    seq![Command::Focus { window }, Command::PublishActiveWindow { window }]
}

/// The commands that reveal one client of a freshly activated workspace: map
/// it, and raise it when it floats.
pub open spec fn show_one(c: Client) -> Seq<Command> {
    if c.tiled {
        seq![Command::Show { window: c.window }]
    } else {
        seq![Command::Show { window: c.window }, Command::Raise { window: c.window }]
    }
}

/// The commands that reveal a whole client list, in order.
pub open spec fn show_cmds(s: Seq<Client>) -> Seq<Command>
    decreases s.len(),
{
    if s.len() == 0 {
        Seq::empty()
    } else {
        show_cmds(s.drop_last()) + show_one(s.last())
    }
}

/// The commands that hide a whole client list, in order.
pub open spec fn hide_cmds(s: Seq<Client>) -> Seq<Command>
    decreases s.len(),
{
    if s.len() == 0 {
        Seq::empty()
    } else {
        hide_cmds(s.drop_last()) + seq![Command::Hide { window: s.last().window }]
    }
}

/// The commands that hide the first `n` workspaces of `mon`, sparing `keep`.
pub open spec fn hide_upto(mon: MonitorV, keep: int, n: int) -> Seq<Command>
    decreases n,
{
    if n <= 0 {
        Seq::empty()
    } else {
        hide_upto(mon, keep, n - 1) + if n - 1 == keep {
            Seq::empty()
        } else {
            hide_cmds(mon.clients[n - 1])
        }
    }
}

/// Everything a workspace switch says: publish the new desktop index, reveal
/// its clients, hide every other workspace, and retile.  An index outside
/// the four workspaces is rejected and says nothing.
pub open spec fn goto_cmds(v: WmV, m: int, w: int) -> Seq<Command> {
    if 0 <= w < 4 {
        seq![Command::PublishCurrentDesktop { index: w as u64 }] + show_cmds(
            v.monitors[m].clients[w],
        ) + hide_upto(v.monitors[m], w, 4) + tile_cmds(v.goto_workspace(m, w))
    } else {
        Seq::empty()
    }
}

/// Everything a fullscreen toggle says: publish or clear the fullscreen
/// property where the slot changed, then retile.
pub open spec fn toggle_cmds(v: WmV, m: int, window: u64) -> Seq<Command> {
    let head = if v.monitors[m].fullscreen is Some {
        seq![Command::PublishFullscreen { on: false }]
    } else if v.monitors[m].found_index(window) is Some {
        seq![Command::PublishFullscreen { on: true }]
    } else {
        Seq::empty()
    };
    head + tile_cmds(v.toggle_fullscreen(m, window))
}

/// The geometry command of a drag motion: the move button translates the
/// window by the pointer delta since the grab; the other grabbed button
/// grows or shrinks it by the delta.  The new size is the plain cast of the
/// signed sum to the protocol's unsigned 32-bit field, so shrinking a window
/// past nothing wraps around, exactly as the signed-to-unsigned cast does.
pub open spec fn drag_resize_cmd(start: DragStart, attr: Geometry, x_root: i32, y_root: i32) -> Command {
    let xd = x_root - start.x_root;
    let yd = y_root - start.y_root;
    if start.button == MOVE_BUTTON {
        Command::Resize {
            window: start.window,
            x: (attr.x + xd) as i32,
            y: (attr.y + yd) as i32,
            width: attr.width as u32,
            height: attr.height as u32,
        }
    } else {
        Command::Resize {
            window: start.window,
            x: attr.x,
            y: attr.y,
            width: ((attr.width + xd) as i32) as u32,
            height: ((attr.height + yd) as i32) as u32,
        }
    }
}

/// The workspace-number check that follows every key binding: the digit
/// keys 1 to 4 switch the pointer's monitor to workspaces 0 to 3.
pub open spec fn ws_check(v: WmV, keysym: u32, pointer: Pointer, cmds: Seq<Command>) -> (WmV, Seq<
    Command,
>) {
    if WORKSPACE_KEY_BASE <= keysym < WORKSPACE_KEY_BASE + 4 {
        let m = monitor_for(v, pointer.x);
        let w = keysym - WORKSPACE_KEY_BASE;
        (v.goto_workspace(m, w as int), cmds + goto_cmds(v, m, w as int))
    } else {
        (v, cmds)
    }
}

/// One key press: run the bound action, if any, then the workspace-number
/// check.  Exit and restart return at once.  Focus and reorder commands act
/// on the focused window's position in the pointer monitor's active
/// workspace and do nothing when it has no position or no neighbour there.
pub open spec fn keypress_step(v: WmV, keysym: u32, subwindow: u64, pointer: Pointer) -> (WmV, Seq<
    Command,
>) {
    let m = monitor_for(v, pointer.x);
    if v.keybindings.contains_key(keysym) {
        match v.keybindings[keysym] {
            Action::Exec(path) => ws_check(v, keysym, pointer, seq![Command::Spawn { path }]),
            Action::Internal(op) => match op {
                Internal::Fullscreen => ws_check(
                    v.toggle_fullscreen(m, v.window),
                    keysym,
                    pointer,
                    toggle_cmds(v, m, v.window),
                ),
                Internal::Kill => ws_check(
                    v,
                    keysym,
                    pointer,
                    seq![Command::Close { window: subwindow }],
                ),
                Internal::Exit => (v, seq![Command::Exit]),
                Internal::Restart => (v, seq![Command::Restart]),
                Internal::FocusUp => match v.monitors[m].found_index(v.window) {
                    Some(i) => if i > 0 {
                        ws_check(
                            v.set_focus(v.monitors[m].active()[i - 1].window),
                            keysym,
                            pointer,
                            focus_cmds(v.monitors[m].active()[i - 1].window),
                        )
                    } else {
                        ws_check(v, keysym, pointer, Seq::empty())
                    },
                    None => ws_check(v, keysym, pointer, Seq::empty()),
                },
                Internal::FocusDown => match v.monitors[m].found_index(v.window) {
                    Some(i) => if i + 1 < v.monitors[m].active().len() {
                        ws_check(
                            v.set_focus(v.monitors[m].active()[i + 1].window),
                            keysym,
                            pointer,
                            focus_cmds(v.monitors[m].active()[i + 1].window),
                        )
                    } else {
                        ws_check(v, keysym, pointer, Seq::empty())
                    },
                    None => ws_check(v, keysym, pointer, Seq::empty()),
                },
                Internal::FocusMaster => if v.monitors[m].active().len() > 0 {
                    ws_check(
                        v.set_focus(v.monitors[m].active()[0].window),
                        keysym,
                        pointer,
                        focus_cmds(v.monitors[m].active()[0].window),
                    )
                } else {
                    ws_check(v, keysym, pointer, Seq::empty())
                },
                Internal::WindowUp => match v.monitors[m].found_index(v.window) {
                    Some(i) => if i > 0 {
                        let v1 = v.move_client(m, i, i - 1);
                        ws_check(v1, keysym, pointer, tile_cmds(v1))
                    } else {
                        ws_check(v, keysym, pointer, Seq::empty())
                    },
                    None => ws_check(v, keysym, pointer, Seq::empty()),
                },
                Internal::WindowDown => match v.monitors[m].found_index(v.window) {
                    Some(i) => if i + 1 < v.monitors[m].active().len() {
                        let v1 = v.move_client(m, i, i + 1);
                        ws_check(v1, keysym, pointer, tile_cmds(v1))
                    } else {
                        ws_check(v, keysym, pointer, Seq::empty())
                    },
                    None => ws_check(v, keysym, pointer, Seq::empty()),
                },
                Internal::WindowMaster => match v.monitors[m].found_index(v.window) {
                    Some(i) => {
                        let v1 = v.move_client(m, i, 0);
                        ws_check(v1, keysym, pointer, tile_cmds(v1))
                    },
                    None => ws_check(v, keysym, pointer, Seq::empty()),
                },
                Internal::ToggleFloat => {
                    let t = tiled_in(v.monitors[m], v.monitors[m].workspace, subwindow);
                    let v1 = v.set_tiled(m, subwindow, !t);
                    ws_check(v1, keysym, pointer, tile_cmds(v1))
                },
            },
        }
    } else {
        ws_check(v, keysym, pointer, Seq::empty())
    }
}

/// The whole dispatcher: what any one event does to the state, and the
/// commands it sends.
pub open spec fn step(v: WmV, event: Event) -> (WmV, Seq<Command>) {
    match event {
        Event::KeyPress { keysym, subwindow, pointer } => keypress_step(v, keysym, subwindow, pointer),
        Event::Unmapped { window } => (v.evict(window), tile_cmds(v.evict(window))),
        Event::MapRequest { window, floating, pointer } => {
            let m = monitor_for(v, pointer.x);
            let v1 = v.adopt(window, m, v.monitors[m].workspace, !floating).set_focus(window);
            (
                v1,
                seq![
                    Command::Show { window },
                    Command::Subscribe { window },
                    Command::Stamp { window },
                ] + tile_cmds(v1),
            )
        },
        Event::Entered { window } => (v.set_focus(window), focus_cmds(window)),
        Event::FullscreenRequest { window, pointer } => {
            let m = monitor_for(v, pointer.x);
            (v.toggle_fullscreen(m, window), toggle_cmds(v, m, window))
        },
        Event::ButtonPress { button, x_root, y_root, subwindow, attr, pointer } => {
            let m = monitor_for(v, pointer.x);
            if tiled_in(v.monitors[m], v.monitors[m].workspace, subwindow) {
                (v, Seq::empty())
            } else {
                (
                    WmV {
                        float_client: FloatClient {
                            start: Some(DragStart { button, x_root, y_root, window: subwindow }),
                            attr: Some(attr),
                        },
                        ..v
                    },
                    seq![Command::GrabPointer { window: subwindow }],
                )
            }
        },
        Event::ButtonRelease => {
            if v.float_client.start is Some {
                (
                    WmV { float_client: FloatClient { start: None, attr: None }, ..v },
                    seq![Command::UngrabPointer],
                )
            } else {
                (v, Seq::empty())
            }
        },
        Event::Motion { x_root, y_root } => match (v.float_client.start, v.float_client.attr) {
            (Some(s), Some(a)) => (v, seq![drag_resize_cmd(s, a, x_root, y_root)]),
            _ => (v, Seq::empty()),
        },
    }
}

/// Append the show commands for `list` to `cmds`.
fn push_show_cmds(cmds: &mut Vec<Command>, list: &Vec<Client>)
    ensures
        final(cmds)@ == old(cmds)@ + show_cmds(list@),
{
    let mut i: usize = 0;
    while i < list.len()
        invariant
            i <= list@.len(),
            cmds@ == old(cmds)@ + show_cmds(list@.take(i as int)),
        decreases list@.len() - i,
    {
        let c = list[i];
        cmds.push(Command::Show { window: c.window });
        if !c.tiled {
            cmds.push(Command::Raise { window: c.window });
        }
        proof {
            assert(list@.take(i + 1).drop_last() =~= list@.take(i as int));
            assert(list@.take(i + 1).last() == list@[i as int]);
            assert(cmds@ =~= old(cmds)@ + show_cmds(list@.take(i + 1)));
        }
        i = i + 1;
    }
    proof {
        assert(list@.take(list@.len() as int) =~= list@);
    }
}

/// Append the hide commands for `list` to `cmds`.
fn push_hide_cmds(cmds: &mut Vec<Command>, list: &Vec<Client>)
    ensures
        final(cmds)@ == old(cmds)@ + hide_cmds(list@),
{
    let mut i: usize = 0;
    while i < list.len()
        invariant
            i <= list@.len(),
            cmds@ == old(cmds)@ + hide_cmds(list@.take(i as int)),
        decreases list@.len() - i,
    {
        let c = list[i];
        cmds.push(Command::Hide { window: c.window });
        proof {
            assert(list@.take(i + 1).drop_last() =~= list@.take(i as int));
            assert(list@.take(i + 1).last() == list@[i as int]);
            assert(cmds@ =~= old(cmds)@ + hide_cmds(list@.take(i + 1)));
        }
        i = i + 1;
    }
    proof {
        assert(list@.take(list@.len() as int) =~= list@);
    }
}

impl WindowManager {
    /// The resize commands that lay out every monitor: each monitor's
    /// placements in order, fullscreen clients over the bare rectangle,
    /// tiled clients in the master-stack arrangement.
    pub fn tile_clients(&self) -> (cmds: Vec<Command>)
        requires
            self@.wf(),
        ensures
            cmds@ == tile_cmds(self@),
    {
        let mut cmds: Vec<Command> = Vec::new();
        let mut m: usize = 0;
        while m < self.monitors.len()
            invariant
                self@.wf(),
                m <= self@.monitors.len(),
                cmds@ == tile_upto(self@, m as int),
            decreases self.monitors.len() - m,
        {
            proof {
                assert(self@.monitors[m as int].wf(self@.padding));
            }
            let pl = layout_monitor(&self.monitors[m], &self.config.padding);
            let mut j: usize = 0;
            while j < pl.len()
                invariant
                    self@.wf(),
                    m < self@.monitors.len(),
                    pl@ == monitor_placements(self@.monitors[m as int], self@.padding),
                    j <= pl@.len(),
                    cmds@ == tile_upto(self@, m as int) + resize_cmds(pl@.take(j as int)),
                decreases pl@.len() - j,
            {
                let p0 = pl[j];
                cmds.push(
                    Command::Resize {
                        window: p0.window,
                        x: p0.x,
                        y: p0.y,
                        width: p0.width,
                        height: p0.height,
                    },
                );
                proof {
                    assert(pl@.take(j + 1).drop_last() =~= pl@.take(j as int));
                    assert(pl@.take(j + 1).last() == pl@[j as int]);
                    assert(cmds@ =~= tile_upto(self@, m as int) + resize_cmds(pl@.take(j + 1)));
                }
                j = j + 1;
            }
            proof {
                assert(pl@.take(pl@.len() as int) =~= pl@);
                assert(cmds@ =~= tile_upto(self@, m + 1));
            }
            m = m + 1;
        }
        cmds
    }

    /// Transfer the focus to `window`: retarget the focus handle and emit
    /// the focus and active-window commands.
    pub fn change_focus(&mut self, window: u64) -> (cmds: Vec<Command>)
        requires
            old(self)@.wf(),
        ensures
            final(self)@ == old(self)@.set_focus(window),
            final(self)@.wf(),
            cmds@ == focus_cmds(window),
    {
        self.set_focus(window);
        let mut cmds: Vec<Command> = Vec::new();
        cmds.push(Command::Focus { window });
        cmds.push(Command::PublishActiveWindow { window });
        proof {
            assert(cmds@ =~= focus_cmds(window));
        }
        cmds
    }

    /// Transfer the focus to the client at `index` of the active workspace
    /// of `monitor`.
    pub fn change_focus_index(&mut self, monitor: usize, index: usize) -> (cmds: Vec<Command>)
        requires
            old(self)@.wf(),
            monitor < old(self)@.monitors.len(),
            index < old(self)@.monitors[monitor as int].active().len(),
        ensures
            final(self)@ == old(self)@.set_focus(
                old(self)@.monitors[monitor as int].active()[index as int].window,
            ),
            final(self)@.wf(),
            cmds@ == focus_cmds(old(self)@.monitors[monitor as int].active()[index as int].window),
    {
        proof {
            assert(old(self)@.monitors[monitor as int].wf(old(self)@.padding));
        }
        let w = self.monitors[monitor].workspace;
        let window = self.monitors[monitor].clients[w][index].window;
        self.change_focus(window)
    }

    /// Switch `monitor` to `workspace`: publish the desktop index, reveal
    /// the workspace's clients (raising the floating ones), hide every other
    /// workspace, and retile.  An index outside the four workspaces is
    /// rejected: nothing changes and nothing is sent.
    pub fn goto_workspace(&mut self, monitor: usize, workspace: usize) -> (cmds: Vec<Command>)
        requires
            old(self)@.wf(),
            monitor < old(self)@.monitors.len(),
        ensures
            final(self)@ == old(self)@.goto_workspace(monitor as int, workspace as int),
            final(self)@.wf(),
            cmds@ == goto_cmds(old(self)@, monitor as int, workspace as int),
    {
        proof {
            assert(old(self)@.monitors[monitor as int].wf(old(self)@.padding));
        }
        if workspace >= 4 {
            let cmds: Vec<Command> = Vec::new();
            proof {
                assert(cmds@ =~= goto_cmds(old(self)@, monitor as int, workspace as int));
            }
            return cmds;
        }
        let mut cmds: Vec<Command> = Vec::new();
        cmds.push(Command::PublishCurrentDesktop { index: workspace as u64 });
        push_show_cmds(&mut cmds, &self.monitors[monitor].clients[workspace]);
        let ghost shown = cmds@;
        let mut w2: usize = 0;
        while w2 < 4
            invariant
                self@ == old(self)@,
                self@.wf(),
                monitor < self@.monitors.len(),
                workspace < 4,
                w2 <= 4,
                cmds@ == shown + hide_upto(self@.monitors[monitor as int], workspace as int, w2 as int),
            decreases 4 - w2,
        {
            if w2 != workspace {
                push_hide_cmds(&mut cmds, &self.monitors[monitor].clients[w2]);
            }
            proof {
                assert(cmds@ =~= shown + hide_upto(
                    self@.monitors[monitor as int],
                    workspace as int,
                    w2 + 1,
                ));
            }
            w2 = w2 + 1;
        }
        self.switch_workspace(monitor, workspace);
        let mut tc = self.tile_clients();
        cmds.append(&mut tc);
        proof {
            assert(cmds@ =~= goto_cmds(old(self)@, monitor as int, workspace as int));
        }
        cmds
    }

    /// Toggle fullscreen for `window` on `monitor`, publishing the state
    /// property where the slot changed, then retile.
    pub fn toggle_fullscreen(&mut self, monitor: usize, window: u64) -> (cmds: Vec<Command>)
        requires
            old(self)@.wf(),
            monitor < old(self)@.monitors.len(),
        ensures
            final(self)@ == old(self)@.toggle_fullscreen(monitor as int, window),
            final(self)@.wf(),
            cmds@ == toggle_cmds(old(self)@, monitor as int, window),
    {
        let mut cmds: Vec<Command> = Vec::new();
        let r = self.toggle_fullscreen_state(monitor, window);
        match r {
            Some(on) => {
                cmds.push(Command::PublishFullscreen { on });
            },
            None => {},
        }
        let mut tc = self.tile_clients();
        cmds.append(&mut tc);
        proof {
            assert(cmds@ =~= toggle_cmds(old(self)@, monitor as int, window));
        }
        cmds
    }

    /// Handle one decoded protocol event: mutate the state as [`step`] says
    /// and return the display commands, in order.
    pub fn handle_event(&mut self, event: Event) -> (cmds: Vec<Command>)
        requires
            old(self)@.wf(),
            event.wf(),
        ensures
            final(self)@ == step(old(self)@, event).0,
            cmds@ == step(old(self)@, event).1,
            final(self)@.wf(),
    {
        broadcast use vstd::std_specs::hash::group_hash_axioms;

        match event {
            Event::KeyPress { keysym, subwindow, pointer } => {
                let monitor = self.current_monitor(&pointer);
                let mut cmds: Vec<Command> = Vec::new();
                let mut spawn_path: Option<String> = None;
                let mut op: Option<Internal> = None;
                match self.config.keybindings.get(&keysym) {
                    Some(Action::Exec(path)) => {
                        spawn_path = Some(path.clone());
                    },
                    Some(Action::Internal(o)) => {
                        op = Some(*o);
                    },
                    None => {},
                }
                if let Some(p) = spawn_path {
                    cmds.push(Command::Spawn { path: p });
                } else if let Some(o) = op {
                    match o {
                        Internal::Fullscreen => {
                            let focus = self.window;
                            let mut c = self.toggle_fullscreen(monitor, focus);
                            cmds.append(&mut c);
                        },
                        Internal::Kill => {
                            cmds.push(Command::Close { window: subwindow });
                        },
                        Internal::Exit => {
                            cmds.push(Command::Exit);
                            proof {
                                assert(cmds@ =~= step(old(self)@, event).1);
                            }
                            return cmds;
                        },
                        Internal::Restart => {
                            cmds.push(Command::Restart);
                            proof {
                                assert(cmds@ =~= step(old(self)@, event).1);
                            }
                            return cmds;
                        },
                        Internal::FocusUp => {
                            let focus = self.window;
                            match self.window_to_client_index(monitor, focus) {
                                Some(i) => {
                                    if i > 0 {
                                        let mut c = self.change_focus_index(monitor, i - 1);
                                        cmds.append(&mut c);
                                    }
                                },
                                None => {},
                            }
                        },
                        Internal::FocusDown => {
                            let focus = self.window;
                            match self.window_to_client_index(monitor, focus) {
                                Some(i) => {
                                    let ws = self.monitors[monitor].workspace;
                                    let len = self.monitors[monitor].clients[ws].len();
                                    proof {
                                        assert(len == self@.monitors[monitor as int].active().len());
                                    }
                                    if i + 1 < len {
                                        let mut c = self.change_focus_index(monitor, i + 1);
                                        cmds.append(&mut c);
                                    }
                                },
                                None => {},
                            }
                        },
                        Internal::FocusMaster => {
                            let ws = self.monitors[monitor].workspace;
                            if self.monitors[monitor].clients[ws].len() > 0 {
                                let mut c = self.change_focus_index(monitor, 0);
                                cmds.append(&mut c);
                            }
                        },
                        Internal::WindowUp => {
                            let focus = self.window;
                            match self.window_to_client_index(monitor, focus) {
                                Some(i) => {
                                    if i > 0 {
                                        self.move_client(monitor, i, i - 1);
                                        let mut c = self.tile_clients();
                                        cmds.append(&mut c);
                                    }
                                },
                                None => {},
                            }
                        },
                        Internal::WindowDown => {
                            let focus = self.window;
                            match self.window_to_client_index(monitor, focus) {
                                Some(i) => {
                                    let ws = self.monitors[monitor].workspace;
                                    let len = self.monitors[monitor].clients[ws].len();
                                    proof {
                                        assert(len == self@.monitors[monitor as int].active().len());
                                    }
                                    if i + 1 < len {
                                        self.move_client(monitor, i, i + 1);
                                        let mut c = self.tile_clients();
                                        cmds.append(&mut c);
                                    }
                                },
                                None => {},
                            }
                        },
                        Internal::WindowMaster => {
                            let focus = self.window;
                            match self.window_to_client_index(monitor, focus) {
                                Some(i) => {
                                    self.move_client(monitor, i, 0);
                                    let mut c = self.tile_clients();
                                    cmds.append(&mut c);
                                },
                                None => {},
                            }
                        },
                        Internal::ToggleFloat => {
                            let ws = self.monitors[monitor].workspace;
                            let t = self.is_tiled(subwindow, monitor, ws);
                            self.set_tiled(monitor, subwindow, !t);
                            let mut c = self.tile_clients();
                            cmds.append(&mut c);
                        },
                    }
                }
                if keysym >= WORKSPACE_KEY_BASE && keysym < WORKSPACE_KEY_BASE + 4 {
                    let m2 = self.current_monitor(&pointer);
                    let mut g = self.goto_workspace(m2, (keysym - WORKSPACE_KEY_BASE) as usize);
                    cmds.append(&mut g);
                }
                proof {
                    assert(cmds@ =~= step(old(self)@, event).1);
                }
                cmds
            },
            Event::Unmapped { window } => {
                self.evict(window);
                let cmds = self.tile_clients();
                cmds
            },
            Event::MapRequest { window, floating, pointer } => {
                let monitor = self.current_monitor(&pointer);
                proof {
                    assert(self@.monitors[monitor as int].wf(self@.padding));
                }
                let ws = self.monitors[monitor].workspace;
                self.adopt(window, monitor, ws, !floating);
                self.set_focus(window);
                let mut cmds: Vec<Command> = Vec::new();
                cmds.push(Command::Show { window });
                cmds.push(Command::Subscribe { window });
                cmds.push(Command::Stamp { window });
                let mut tc = self.tile_clients();
                cmds.append(&mut tc);
                proof {
                    assert(cmds@ =~= step(old(self)@, event).1);
                }
                cmds
            },
            Event::Entered { window } => {
                let cmds = self.change_focus(window);
                cmds
            },
            Event::FullscreenRequest { window, pointer } => {
                let monitor = self.current_monitor(&pointer);
                let cmds = self.toggle_fullscreen(monitor, window);
                cmds
            },
            Event::ButtonPress { button, x_root, y_root, subwindow, attr, pointer } => {
                let monitor = self.current_monitor(&pointer);
                proof {
                    assert(self@.monitors[monitor as int].wf(self@.padding));
                }
                let ws = self.monitors[monitor].workspace;
                let mut cmds: Vec<Command> = Vec::new();
                if !self.is_tiled(subwindow, monitor, ws) {
                    cmds.push(Command::GrabPointer { window: subwindow });
                    self.begin_drag(DragStart { button, x_root, y_root, window: subwindow }, attr);
                }
                proof {
                    assert(cmds@ =~= step(old(self)@, event).1);
                }
                cmds
            },
            Event::ButtonRelease => {
                let mut cmds: Vec<Command> = Vec::new();
                if self.float_client.start.is_some() {
                    cmds.push(Command::UngrabPointer);
                    self.end_drag();
                }
                proof {
                    assert(cmds@ =~= step(old(self)@, event).1);
                }
                cmds
            },
            Event::Motion { x_root, y_root } => {
                let mut cmds: Vec<Command> = Vec::new();
                match (self.float_client.start, self.float_client.attr) {
                    (Some(s), Some(a)) => {
                        let xd = x_root - s.x_root;
                        let yd = y_root - s.y_root;
                        if s.button == MOVE_BUTTON {
                            cmds.push(
                                Command::Resize {
                                    window: s.window,
                                    x: a.x + xd,
                                    y: a.y + yd,
                                    width: a.width as u32,
                                    height: a.height as u32,
                                },
                            );
                        } else {
                            let w2: u32 = #[verifier::truncate] ((a.width + xd) as u32);
                            let h2: u32 = #[verifier::truncate] ((a.height + yd) as u32);
                            cmds.push(
                                Command::Resize {
                                    window: s.window,
                                    x: a.x,
                                    y: a.y,
                                    width: w2,
                                    height: h2,
                                },
                            );
                        }
                    },
                    _ => {},
                }
                proof {
                    assert(cmds@ =~= step(old(self)@, event).1);
                }
                cmds
            },
        }
    }
}

} // verus!
