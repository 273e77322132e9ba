use std::collections::HashMap;
use zovawm::config::{Config, Padding};
use zovawm::wm::{Client, Monitor, Pointer, WindowManager, WORKSPACES};

fn default_config() -> Config {
    Config {
        bar: true,
        padding: Padding { top: 50, bottom: 10, left: 10, right: 10 },
        keybindings: HashMap::new(),
    }
}

fn one_monitor_wm() -> WindowManager {
    let monitors = vec![Monitor::new(0, 0, 1920, 1080, None)];
    WindowManager::new(default_config(), monitors, 0).expect("valid setup")
}

fn two_monitor_wm() -> WindowManager {
    let monitors = vec![
        Monitor::new(0, 0, 1000, 800, None),
        Monitor::new(1000, 0, 1000, 800, None),
    ];
    WindowManager::new(default_config(), monitors, 0).expect("valid setup")
}

#[test]
fn workspace_count_is_four() {
    assert_eq!(WORKSPACES, 4);
    let wm = one_monitor_wm();
    assert_eq!(wm.monitors[0].clients.len(), 4);
}

#[test]
fn new_rejects_empty_monitor_list() {
    assert!(WindowManager::new(default_config(), Vec::new(), 0).is_none());
}

#[test]
fn new_rejects_bad_padding() {
    let config = Config {
        bar: true,
        padding: Padding { top: -1, bottom: 10, left: 10, right: 10 },
        keybindings: HashMap::new(),
    };
    let monitors = vec![Monitor::new(0, 0, 1920, 1080, None)];
    assert!(WindowManager::new(config, monitors, 0).is_none());
}

#[test]
fn new_rejects_too_narrow_monitor() {
    // Narrower than twice the horizontal padding plus the gutters.
    let monitors = vec![Monitor::new(0, 0, 50, 800, None)];
    assert!(WindowManager::new(default_config(), monitors, 0).is_none());
}

#[test]
fn adopt_appends_client() {
    let mut wm = one_monitor_wm();
    wm.adopt(7, 0, 0, true);
    assert_eq!(wm.monitors[0].clients[0], vec![Client::new(7, true)]);
}

#[test]
fn adopt_twice_keeps_one_entry() {
    // Admitting the same handle twice into the same workspace is idempotent.
    let mut wm = one_monitor_wm();
    wm.adopt(7, 0, 0, true);
    wm.adopt(7, 0, 0, true);
    assert_eq!(wm.monitors[0].clients[0], vec![Client::new(7, true)]);
}

#[test]
fn adopt_elsewhere_is_ignored_for_managed_handle() {
    // A handle already managed on another workspace stays where it is.
    let mut wm = one_monitor_wm();
    wm.adopt(7, 0, 0, true);
    wm.adopt(7, 0, 2, false);
    assert_eq!(wm.monitors[0].clients[0], vec![Client::new(7, true)]);
    assert!(wm.monitors[0].clients[2].is_empty());
}

#[test]
fn evict_removes_client() {
    let mut wm = one_monitor_wm();
    wm.adopt(7, 0, 0, true);
    wm.adopt(8, 0, 0, true);
    wm.evict(7);
    assert_eq!(wm.monitors[0].clients[0], vec![Client::new(8, true)]);
}

#[test]
fn evict_searches_every_workspace() {
    let mut wm = two_monitor_wm();
    wm.adopt(7, 1, 3, false);
    wm.evict(7);
    assert!(wm.monitors[1].clients[3].is_empty());
}

#[test]
fn evict_untracked_is_noop() {
    // Evicting a handle that was never admitted changes nothing.
    let mut wm = one_monitor_wm();
    wm.adopt(7, 0, 0, true);
    wm.adopt(8, 0, 1, false);
    wm.evict(99);
    assert_eq!(wm.monitors[0].clients[0], vec![Client::new(7, true)]);
    assert_eq!(wm.monitors[0].clients[1], vec![Client::new(8, false)]);
    assert!(wm.monitors[0].clients[2].is_empty());
    assert!(wm.monitors[0].clients[3].is_empty());
    assert_eq!(wm.monitors[0].fullscreen, None);
    assert_eq!(wm.monitors[0].workspace, 0);
    assert_eq!(wm.window, 0);
}

#[test]
fn evict_clears_matching_fullscreen() {
    let mut wm = one_monitor_wm();
    wm.adopt(7, 0, 0, true);
    wm.toggle_fullscreen_state(0, 7);
    assert_eq!(wm.monitors[0].fullscreen, Some(Client::new(7, true)));
    wm.evict(7);
    assert_eq!(wm.monitors[0].fullscreen, None);
    assert!(wm.monitors[0].clients[0].is_empty());
}

#[test]
fn current_monitor_picks_containing_span() {
    let wm = two_monitor_wm();
    assert_eq!(wm.current_monitor(&Pointer { x: 500, y: 0 }), 0);
    assert_eq!(wm.current_monitor(&Pointer { x: 999, y: 0 }), 0);
    assert_eq!(wm.current_monitor(&Pointer { x: 1000, y: 0 }), 1);
    assert_eq!(wm.current_monitor(&Pointer { x: 1500, y: 0 }), 1);
}

#[test]
fn current_monitor_defaults_to_zero_outside_spans() {
    let wm = two_monitor_wm();
    assert_eq!(wm.current_monitor(&Pointer { x: -5, y: 0 }), 0);
    assert_eq!(wm.current_monitor(&Pointer { x: 2500, y: 0 }), 0);
}

#[test]
fn current_monitor_overlapping_spans_first_match_wins() {
    // Pathological overlapping spans: [0,2000) and [1000,3000).  A pointer
    // in the overlap resolves to the first monitor, by enumeration order.
    let monitors = vec![
        Monitor::new(0, 0, 2000, 800, None),
        Monitor::new(1000, 0, 2000, 800, None),
    ];
    let wm = WindowManager::new(default_config(), monitors, 0).expect("valid setup");
    assert_eq!(wm.current_monitor(&Pointer { x: 1500, y: 0 }), 0);
    assert_eq!(wm.current_monitor(&Pointer { x: 2500, y: 0 }), 1);
}

#[test]
fn move_client_reorders() {
    let mut wm = one_monitor_wm();
    wm.adopt(1, 0, 0, true);
    wm.adopt(2, 0, 0, true);
    wm.adopt(3, 0, 0, true);
    wm.move_client(0, 2, 0);
    assert_eq!(
        wm.monitors[0].clients[0],
        vec![Client::new(3, true), Client::new(1, true), Client::new(2, true)]
    );
}

#[test]
fn set_tiled_retags_only_the_target() {
    let mut wm = one_monitor_wm();
    wm.adopt(1, 0, 0, true);
    wm.adopt(2, 0, 0, true);
    wm.set_tiled(0, 2, false);
    assert_eq!(
        wm.monitors[0].clients[0],
        vec![Client::new(1, true), Client::new(2, false)]
    );
}

#[test]
fn manages_window_sees_all_workspaces() {
    let mut wm = two_monitor_wm();
    wm.adopt(7, 1, 2, true);
    assert!(wm.manages_window(7));
    assert!(!wm.manages_window(8));
}

#[test]
fn window_to_client_index_finds_first() {
    let mut wm = one_monitor_wm();
    wm.adopt(5, 0, 0, true);
    wm.adopt(6, 0, 0, true);
    assert_eq!(wm.window_to_client_index(0, 6), Some(1));
    assert_eq!(wm.window_to_client_index(0, 9), None);
}

#[test]
fn switch_workspace_clears_fullscreen_on_leave() {
    let mut wm = one_monitor_wm();
    wm.adopt(7, 0, 0, true);
    wm.toggle_fullscreen_state(0, 7);
    wm.switch_workspace(0, 1);
    assert_eq!(wm.monitors[0].workspace, 1);
    assert_eq!(wm.monitors[0].fullscreen, None);
}

#[test]
fn reconfigure_replaces_monitors_and_keeps_focus() {
    let mut wm = one_monitor_wm();
    wm.set_focus(42);
    let ok = wm.reconfigure(default_config(), vec![Monitor::new(0, 0, 1280, 720, Some(11))]);
    assert!(ok);
    assert_eq!(wm.monitors.len(), 1);
    assert_eq!(wm.monitors[0].width, 1280);
    assert_eq!(wm.monitors[0].bar, Some(11));
    assert_eq!(wm.window, 42);
}

#[test]
fn reconfigure_rejects_bad_setup_and_keeps_state() {
    let mut wm = one_monitor_wm();
    wm.adopt(7, 0, 0, true);
    let ok = wm.reconfigure(default_config(), Vec::new());
    assert!(!ok);
    assert_eq!(wm.monitors[0].clients[0], vec![Client::new(7, true)]);
}
