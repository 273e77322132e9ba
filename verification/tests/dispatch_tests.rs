use std::collections::HashMap;
use zovawm::config::{Action, Config, Internal, Padding};
use zovawm::events::{Command, Event};
use zovawm::wm::{Client, Geometry, Monitor, Pointer, WindowManager};

fn config_with(keybindings: HashMap<u32, Action>) -> Config {
    Config {
        bar: true,
        padding: Padding { top: 50, bottom: 10, left: 10, right: 10 },
        keybindings,
    }
}

fn wm_with(keybindings: HashMap<u32, Action>) -> WindowManager {
    let monitors = vec![Monitor::new(0, 0, 1920, 1080, None)];
    WindowManager::new(config_with(keybindings), monitors, 0).expect("valid setup")
}

fn plain_wm() -> WindowManager {
    wm_with(HashMap::new())
}

fn origin() -> Pointer {
    Pointer { x: 0, y: 0 }
}

#[test]
fn map_request_admits_focuses_and_tiles() {
    let mut wm = plain_wm();
    let cmds = wm.handle_event(Event::MapRequest { window: 7, floating: false, pointer: origin() });
    assert_eq!(wm.monitors[0].clients[0], vec![Client::new(7, true)]);
    assert_eq!(wm.window, 7);
    assert_eq!(
        cmds,
        vec![
            Command::Show { window: 7 },
            Command::Subscribe { window: 7 },
            Command::Stamp { window: 7 },
            Command::Resize { window: 7, x: 10, y: 50, width: 1900, height: 1020 },
        ]
    );
}

#[test]
fn dock_window_floats_and_is_not_tiled() {
    // A tiled client first, then a dock-type window classified floating:
    // the dock appears in no layout computation and the tiled client keeps
    // the whole padded area.
    let mut wm = plain_wm();
    wm.handle_event(Event::MapRequest { window: 1, floating: false, pointer: origin() });
    let cmds = wm.handle_event(Event::MapRequest { window: 9, floating: true, pointer: origin() });
    assert_eq!(
        wm.monitors[0].clients[0],
        vec![Client::new(1, true), Client::new(9, false)]
    );
    assert_eq!(
        cmds,
        vec![
            Command::Show { window: 9 },
            Command::Subscribe { window: 9 },
            Command::Stamp { window: 9 },
            Command::Resize { window: 1, x: 10, y: 50, width: 1900, height: 1020 },
        ]
    );
}

#[test]
fn unmap_evicts_and_retiles() {
    let mut wm = plain_wm();
    wm.handle_event(Event::MapRequest { window: 1, floating: false, pointer: origin() });
    wm.handle_event(Event::MapRequest { window: 2, floating: false, pointer: origin() });
    let cmds = wm.handle_event(Event::Unmapped { window: 2 });
    assert_eq!(wm.monitors[0].clients[0], vec![Client::new(1, true)]);
    assert_eq!(
        cmds,
        vec![Command::Resize { window: 1, x: 10, y: 50, width: 1900, height: 1020 }]
    );
}

#[test]
fn unmap_of_unknown_window_only_retiles() {
    let mut wm = plain_wm();
    wm.handle_event(Event::MapRequest { window: 1, floating: false, pointer: origin() });
    let cmds = wm.handle_event(Event::Unmapped { window: 99 });
    assert_eq!(wm.monitors[0].clients[0], vec![Client::new(1, true)]);
    assert_eq!(
        cmds,
        vec![Command::Resize { window: 1, x: 10, y: 50, width: 1900, height: 1020 }]
    );
}

#[test]
fn unmap_of_fullscreen_client_clears_slot() {
    let mut wm = plain_wm();
    wm.handle_event(Event::MapRequest { window: 1, floating: false, pointer: origin() });
    wm.handle_event(Event::FullscreenRequest { window: 1, pointer: origin() });
    assert!(wm.monitors[0].fullscreen.is_some());
    wm.handle_event(Event::Unmapped { window: 1 });
    assert_eq!(wm.monitors[0].fullscreen, None);
    assert!(wm.monitors[0].clients[0].is_empty());
}

#[test]
fn enter_transfers_focus() {
    let mut wm = plain_wm();
    let cmds = wm.handle_event(Event::Entered { window: 5 });
    assert_eq!(wm.window, 5);
    assert_eq!(
        cmds,
        vec![Command::Focus { window: 5 }, Command::PublishActiveWindow { window: 5 }]
    );
}

#[test]
fn workspace_switch_unmaps_and_publishes() {
    // Workspace 0 holds A; switching to the empty workspace 1 hides A,
    // publishes desktop 1, and computes zero placements.
    let mut wm = plain_wm();
    wm.handle_event(Event::MapRequest { window: 1, floating: false, pointer: origin() });
    let cmds = wm.handle_event(Event::KeyPress { keysym: 50, subwindow: 0, pointer: origin() });
    assert_eq!(wm.monitors[0].workspace, 1);
    assert_eq!(
        cmds,
        vec![Command::PublishCurrentDesktop { index: 1 }, Command::Hide { window: 1 }]
    );
    assert!(!cmds.iter().any(|c| matches!(c, Command::Resize { .. })));
}

#[test]
fn workspace_switch_back_remaps() {
    let mut wm = plain_wm();
    wm.handle_event(Event::MapRequest { window: 1, floating: false, pointer: origin() });
    wm.handle_event(Event::KeyPress { keysym: 50, subwindow: 0, pointer: origin() });
    let cmds = wm.handle_event(Event::KeyPress { keysym: 49, subwindow: 0, pointer: origin() });
    assert_eq!(wm.monitors[0].workspace, 0);
    assert_eq!(
        cmds,
        vec![
            Command::PublishCurrentDesktop { index: 0 },
            Command::Show { window: 1 },
            Command::Resize { window: 1, x: 10, y: 50, width: 1900, height: 1020 },
        ]
    );
}

#[test]
fn floating_client_is_raised_on_switch_back() {
    let mut wm = plain_wm();
    wm.handle_event(Event::MapRequest { window: 9, floating: true, pointer: origin() });
    wm.handle_event(Event::KeyPress { keysym: 50, subwindow: 0, pointer: origin() });
    let cmds = wm.handle_event(Event::KeyPress { keysym: 49, subwindow: 0, pointer: origin() });
    assert_eq!(
        cmds,
        vec![
            Command::PublishCurrentDesktop { index: 0 },
            Command::Show { window: 9 },
            Command::Raise { window: 9 },
        ]
    );
}

#[test]
fn fullscreen_toggle_round_trip() {
    // Toggling fullscreen twice returns the monitor to its pre-toggle
    // layout bit for bit.
    let mut wm = plain_wm();
    wm.handle_event(Event::MapRequest { window: 1, floating: false, pointer: origin() });
    wm.handle_event(Event::MapRequest { window: 2, floating: false, pointer: origin() });
    let before = wm.tile_clients();

    let on = wm.handle_event(Event::FullscreenRequest { window: 1, pointer: origin() });
    assert_eq!(wm.monitors[0].fullscreen, Some(Client::new(1, true)));
    assert_eq!(
        on,
        vec![
            Command::PublishFullscreen { on: true },
            Command::Resize { window: 1, x: 0, y: 0, width: 1920, height: 1080 },
        ]
    );

    let off = wm.handle_event(Event::FullscreenRequest { window: 1, pointer: origin() });
    assert_eq!(wm.monitors[0].fullscreen, None);
    assert_eq!(off[0], Command::PublishFullscreen { on: false });
    assert_eq!(&off[1..], &before[..]);
    assert_eq!(wm.tile_clients(), before);
}

#[test]
fn fullscreen_request_for_unknown_window_is_noop() {
    let mut wm = plain_wm();
    wm.handle_event(Event::MapRequest { window: 1, floating: false, pointer: origin() });
    let cmds = wm.handle_event(Event::FullscreenRequest { window: 99, pointer: origin() });
    assert_eq!(wm.monitors[0].fullscreen, None);
    assert_eq!(
        cmds,
        vec![Command::Resize { window: 1, x: 10, y: 50, width: 1900, height: 1020 }]
    );
}

#[test]
fn exec_binding_spawns() {
    let mut kb = HashMap::new();
    kb.insert(65, Action::Exec(String::from("kitty")));
    let mut wm = wm_with(kb);
    let cmds = wm.handle_event(Event::KeyPress { keysym: 65, subwindow: 0, pointer: origin() });
    assert_eq!(cmds, vec![Command::Spawn { path: String::from("kitty") }]);
}

#[test]
fn unbound_key_is_ignored() {
    let mut wm = plain_wm();
    let cmds = wm.handle_event(Event::KeyPress { keysym: 65, subwindow: 0, pointer: origin() });
    assert!(cmds.is_empty());
}

#[test]
fn kill_binding_closes_subwindow() {
    let mut kb = HashMap::new();
    kb.insert(70, Action::Internal(Internal::Kill));
    let mut wm = wm_with(kb);
    let cmds = wm.handle_event(Event::KeyPress { keysym: 70, subwindow: 33, pointer: origin() });
    assert_eq!(cmds, vec![Command::Close { window: 33 }]);
}

#[test]
fn exit_binding_leaves_loop() {
    let mut kb = HashMap::new();
    kb.insert(71, Action::Internal(Internal::Exit));
    let mut wm = wm_with(kb);
    let cmds = wm.handle_event(Event::KeyPress { keysym: 71, subwindow: 0, pointer: origin() });
    assert_eq!(cmds, vec![Command::Exit]);
}

#[test]
fn restart_binding_requests_restart() {
    let mut kb = HashMap::new();
    kb.insert(72, Action::Internal(Internal::Restart));
    let mut wm = wm_with(kb);
    let cmds = wm.handle_event(Event::KeyPress { keysym: 72, subwindow: 0, pointer: origin() });
    assert_eq!(cmds, vec![Command::Restart]);
}

#[test]
fn fullscreen_binding_uses_focused_window() {
    let mut kb = HashMap::new();
    kb.insert(73, Action::Internal(Internal::Fullscreen));
    let mut wm = wm_with(kb);
    wm.handle_event(Event::MapRequest { window: 1, floating: false, pointer: origin() });
    let cmds = wm.handle_event(Event::KeyPress { keysym: 73, subwindow: 0, pointer: origin() });
    assert_eq!(wm.monitors[0].fullscreen, Some(Client::new(1, true)));
    assert_eq!(
        cmds,
        vec![
            Command::PublishFullscreen { on: true },
            Command::Resize { window: 1, x: 0, y: 0, width: 1920, height: 1080 },
        ]
    );
}

#[test]
fn focus_down_moves_to_next_client() {
    let mut kb = HashMap::new();
    kb.insert(74, Action::Internal(Internal::FocusDown));
    let mut wm = wm_with(kb);
    wm.handle_event(Event::MapRequest { window: 1, floating: false, pointer: origin() });
    wm.handle_event(Event::MapRequest { window: 2, floating: false, pointer: origin() });
    wm.handle_event(Event::Entered { window: 1 });
    let cmds = wm.handle_event(Event::KeyPress { keysym: 74, subwindow: 0, pointer: origin() });
    assert_eq!(wm.window, 2);
    assert_eq!(
        cmds,
        vec![Command::Focus { window: 2 }, Command::PublishActiveWindow { window: 2 }]
    );
}

#[test]
fn focus_down_at_end_is_noop() {
    let mut kb = HashMap::new();
    kb.insert(74, Action::Internal(Internal::FocusDown));
    let mut wm = wm_with(kb);
    wm.handle_event(Event::MapRequest { window: 1, floating: false, pointer: origin() });
    let cmds = wm.handle_event(Event::KeyPress { keysym: 74, subwindow: 0, pointer: origin() });
    assert_eq!(wm.window, 1);
    assert!(cmds.is_empty());
}

#[test]
fn focus_up_moves_to_previous_client() {
    let mut kb = HashMap::new();
    kb.insert(75, Action::Internal(Internal::FocusUp));
    let mut wm = wm_with(kb);
    wm.handle_event(Event::MapRequest { window: 1, floating: false, pointer: origin() });
    wm.handle_event(Event::MapRequest { window: 2, floating: false, pointer: origin() });
    let cmds = wm.handle_event(Event::KeyPress { keysym: 75, subwindow: 0, pointer: origin() });
    assert_eq!(wm.window, 1);
    assert_eq!(
        cmds,
        vec![Command::Focus { window: 1 }, Command::PublishActiveWindow { window: 1 }]
    );
}

#[test]
fn focus_master_targets_first_client() {
    let mut kb = HashMap::new();
    kb.insert(76, Action::Internal(Internal::FocusMaster));
    let mut wm = wm_with(kb);
    wm.handle_event(Event::MapRequest { window: 1, floating: false, pointer: origin() });
    wm.handle_event(Event::MapRequest { window: 2, floating: false, pointer: origin() });
    let cmds = wm.handle_event(Event::KeyPress { keysym: 76, subwindow: 0, pointer: origin() });
    assert_eq!(wm.window, 1);
    assert_eq!(
        cmds,
        vec![Command::Focus { window: 1 }, Command::PublishActiveWindow { window: 1 }]
    );
}

#[test]
fn window_master_promotes_focused_client() {
    let mut kb = HashMap::new();
    kb.insert(77, Action::Internal(Internal::WindowMaster));
    let mut wm = wm_with(kb);
    wm.handle_event(Event::MapRequest { window: 1, floating: false, pointer: origin() });
    wm.handle_event(Event::MapRequest { window: 2, floating: false, pointer: origin() });
    let cmds = wm.handle_event(Event::KeyPress { keysym: 77, subwindow: 0, pointer: origin() });
    assert_eq!(
        wm.monitors[0].clients[0],
        vec![Client::new(2, true), Client::new(1, true)]
    );
    assert_eq!(
        cmds,
        vec![
            Command::Resize { window: 2, x: 10, y: 50, width: 945, height: 1020 },
            Command::Resize { window: 1, x: 965, y: 50, width: 945, height: 1020 },
        ]
    );
}

#[test]
fn window_up_swaps_with_previous() {
    let mut kb = HashMap::new();
    kb.insert(78, Action::Internal(Internal::WindowUp));
    let mut wm = wm_with(kb);
    wm.handle_event(Event::MapRequest { window: 1, floating: false, pointer: origin() });
    wm.handle_event(Event::MapRequest { window: 2, floating: false, pointer: origin() });
    let cmds = wm.handle_event(Event::KeyPress { keysym: 78, subwindow: 0, pointer: origin() });
    assert_eq!(
        wm.monitors[0].clients[0],
        vec![Client::new(2, true), Client::new(1, true)]
    );
    assert_eq!(cmds.len(), 2);
}

#[test]
fn toggle_float_binding_floats_a_tiled_client() {
    let mut kb = HashMap::new();
    kb.insert(79, Action::Internal(Internal::ToggleFloat));
    let mut wm = wm_with(kb);
    wm.handle_event(Event::MapRequest { window: 1, floating: false, pointer: origin() });
    wm.handle_event(Event::MapRequest { window: 2, floating: false, pointer: origin() });
    let cmds = wm.handle_event(Event::KeyPress { keysym: 79, subwindow: 2, pointer: origin() });
    assert_eq!(
        wm.monitors[0].clients[0],
        vec![Client::new(1, true), Client::new(2, false)]
    );
    assert_eq!(
        cmds,
        vec![Command::Resize { window: 1, x: 10, y: 50, width: 1900, height: 1020 }]
    );
}

#[test]
fn drag_move_translates_window() {
    let mut wm = plain_wm();
    wm.handle_event(Event::MapRequest { window: 9, floating: true, pointer: origin() });
    let grab = wm.handle_event(Event::ButtonPress {
        button: 1,
        x_root: 500,
        y_root: 400,
        subwindow: 9,
        attr: Geometry { x: 100, y: 80, width: 300, height: 200 },
        pointer: origin(),
    });
    assert_eq!(grab, vec![Command::GrabPointer { window: 9 }]);
    let motion = wm.handle_event(Event::Motion { x_root: 520, y_root: 430 });
    assert_eq!(
        motion,
        vec![Command::Resize { window: 9, x: 120, y: 110, width: 300, height: 200 }]
    );
    let release = wm.handle_event(Event::ButtonRelease);
    assert_eq!(release, vec![Command::UngrabPointer]);
    assert!(wm.float_client.start.is_none());
    assert!(wm.float_client.attr.is_none());
}

#[test]
fn drag_resize_grows_window() {
    let mut wm = plain_wm();
    wm.handle_event(Event::MapRequest { window: 9, floating: true, pointer: origin() });
    wm.handle_event(Event::ButtonPress {
        button: 3,
        x_root: 500,
        y_root: 400,
        subwindow: 9,
        attr: Geometry { x: 100, y: 80, width: 300, height: 200 },
        pointer: origin(),
    });
    let motion = wm.handle_event(Event::Motion { x_root: 520, y_root: 370 });
    assert_eq!(
        motion,
        vec![Command::Resize { window: 9, x: 100, y: 80, width: 320, height: 170 }]
    );
}

#[test]
fn drag_resize_wraps_below_zero() {
    // Shrinking a window past nothing takes the signed-to-unsigned cast
    // as it comes: a delta of -400 against a width of 300 wraps around.
    let mut wm = plain_wm();
    wm.handle_event(Event::MapRequest { window: 9, floating: true, pointer: origin() });
    wm.handle_event(Event::ButtonPress {
        button: 3,
        x_root: 500,
        y_root: 400,
        subwindow: 9,
        attr: Geometry { x: 100, y: 80, width: 300, height: 200 },
        pointer: origin(),
    });
    let motion = wm.handle_event(Event::Motion { x_root: 100, y_root: 450 });
    assert_eq!(
        motion,
        vec![Command::Resize {
            window: 9,
            x: 100,
            y: 80,
            width: (-100i32) as u32,
            height: 250,
        }]
    );
    assert_eq!((-100i32) as u32, 4294967196);
}

#[test]
fn goto_workspace_out_of_range_is_noop() {
    let mut wm = plain_wm();
    wm.handle_event(Event::MapRequest { window: 1, floating: false, pointer: origin() });
    let cmds = wm.goto_workspace(0, 9);
    assert!(cmds.is_empty());
    assert_eq!(wm.monitors[0].workspace, 0);
    assert_eq!(wm.monitors[0].clients[0], vec![Client::new(1, true)]);
}

#[test]
fn button_press_on_tiled_client_starts_no_drag() {
    let mut wm = plain_wm();
    wm.handle_event(Event::MapRequest { window: 1, floating: false, pointer: origin() });
    let cmds = wm.handle_event(Event::ButtonPress {
        button: 1,
        x_root: 500,
        y_root: 400,
        subwindow: 1,
        attr: Geometry { x: 0, y: 0, width: 10, height: 10 },
        pointer: origin(),
    });
    assert!(cmds.is_empty());
    assert!(wm.float_client.start.is_none());
}

#[test]
fn motion_without_drag_is_ignored() {
    let mut wm = plain_wm();
    let cmds = wm.handle_event(Event::Motion { x_root: 10, y_root: 10 });
    assert!(cmds.is_empty());
}

#[test]
fn release_without_drag_is_ignored() {
    let mut wm = plain_wm();
    let cmds = wm.handle_event(Event::ButtonRelease);
    assert!(cmds.is_empty());
}

#[test]
fn second_monitor_tiles_independently() {
    let monitors = vec![
        Monitor::new(0, 0, 1000, 800, None),
        Monitor::new(1000, 0, 1000, 800, None),
    ];
    let mut wm =
        WindowManager::new(config_with(HashMap::new()), monitors, 0).expect("valid setup");
    let pointer = Pointer { x: 1500, y: 0 };
    let cmds = wm.handle_event(Event::MapRequest { window: 3, floating: false, pointer });
    assert!(wm.monitors[0].clients[0].is_empty());
    assert_eq!(wm.monitors[1].clients[0], vec![Client::new(3, true)]);
    // The single client on the second monitor: x starts from that monitor's
    // origin plus the right padding.
    assert_eq!(
        cmds[3],
        Command::Resize { window: 3, x: 1010, y: 50, width: 980, height: 740 }
    );
}
