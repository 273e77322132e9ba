use zovawm::config::Padding;
use zovawm::layout::{layout_monitor, Placement};
use zovawm::wm::{Client, Monitor};

fn pad(top: i32, bottom: i32, left: i32, right: i32) -> Padding {
    Padding { top, bottom, left, right }
}

fn monitor_with(clients: Vec<Client>) -> Monitor {
    Monitor {
        x: 0,
        y: 0,
        width: 1920,
        height: 1080,
        clients: vec![clients, Vec::new(), Vec::new(), Vec::new()],
        fullscreen: None,
        workspace: 0,
        bar: None,
    }
}

#[test]
fn no_clients_no_placements() {
    let mon = monitor_with(Vec::new());
    let out = layout_monitor(&mon, &pad(50, 10, 10, 10));
    assert!(out.is_empty());
}

#[test]
fn single_client_gets_padded_area() {
    let mon = monitor_with(vec![Client::new(1, true)]);
    let out = layout_monitor(&mon, &pad(50, 10, 10, 10));
    assert_eq!(
        out,
        vec![Placement { window: 1, x: 10, y: 50, width: 1900, height: 1020 }]
    );
}

#[test]
fn two_clients_master_and_stack() {
    // One monitor (0,0,1920,1080), padding (50,10,10,10), tiled clients A=1
    // and B=2 admitted in that order.  The formulas give A the left half
    // minus gutters and B the whole right column.
    let mon = monitor_with(vec![Client::new(1, true), Client::new(2, true)]);
    let out = layout_monitor(&mon, &pad(50, 10, 10, 10));
    assert_eq!(out.len(), 2);
    assert_eq!(out[0], Placement { window: 1, x: 10, y: 50, width: 945, height: 1020 });
    assert_eq!(out[1], Placement { window: 2, x: 965, y: 50, width: 945, height: 1020 });
}

#[test]
fn floating_clients_are_skipped() {
    // A tiled client next to a floating one: the floating client appears in
    // no placement and the tiled one is laid out as if alone.
    let mon = monitor_with(vec![Client::new(1, true), Client::new(9, false)]);
    let out = layout_monitor(&mon, &pad(50, 10, 10, 10));
    assert_eq!(
        out,
        vec![Placement { window: 1, x: 10, y: 50, width: 1900, height: 1020 }]
    );
}

#[test]
fn fullscreen_overrides_tiling() {
    let mut mon = monitor_with(vec![Client::new(1, true), Client::new(2, true)]);
    mon.fullscreen = Some(Client::new(2, true));
    let out = layout_monitor(&mon, &pad(50, 10, 10, 10));
    assert_eq!(out, vec![Placement { window: 2, x: 0, y: 0, width: 1920, height: 1080 }]);
}

fn stack_heights(out: &[Placement]) -> Vec<u32> {
    out[1..].iter().map(|p| p.height).collect()
}

#[test]
fn stack_fills_height_two_clients() {
    // Padded height 1080 - 50 - 10 = 1020; one stack slot fills it exactly.
    let mon = monitor_with(vec![Client::new(1, true), Client::new(2, true)]);
    let out = layout_monitor(&mon, &pad(50, 10, 10, 10));
    let hs = stack_heights(&out);
    assert_eq!(hs, vec![1020]);
    assert_eq!(out[1].y, 50);
    assert_eq!(out[1].y as u32 + hs[0], 50 + 1020);
}

#[test]
fn stack_fills_height_three_clients() {
    // Two stack slots: step (1020+10)/2 = 515, slot height 505; the slots
    // and the single 10-unit gutter sum to 1020, ending on the bottom
    // padding line.
    let mon = monitor_with(vec![
        Client::new(1, true),
        Client::new(2, true),
        Client::new(3, true),
    ]);
    let out = layout_monitor(&mon, &pad(50, 10, 10, 10));
    let hs = stack_heights(&out);
    assert_eq!(hs, vec![505, 505]);
    assert_eq!(out[1].y, 50);
    assert_eq!(out[2].y, 565);
    assert_eq!(out[1].y + 505 + 10, out[2].y);
    assert_eq!(hs.iter().sum::<u32>() + 10, 1020);
    assert_eq!(out[2].y as u32 + hs[1], 50 + 1020);
}

#[test]
fn stack_fills_height_five_clients() {
    // Padding chosen so that four stack slots divide evenly: padded height
    // 1080 - 40 - 10 = 1030, step (1030+10)/4 = 260, slot height 250; four
    // slots and three gutters sum to 1030 exactly.
    let mon = monitor_with(vec![
        Client::new(1, true),
        Client::new(2, true),
        Client::new(3, true),
        Client::new(4, true),
        Client::new(5, true),
    ]);
    let out = layout_monitor(&mon, &pad(40, 10, 10, 10));
    let hs = stack_heights(&out);
    assert_eq!(hs, vec![250, 250, 250, 250]);
    assert_eq!(out[1].y, 40);
    assert_eq!(out[2].y, 300);
    assert_eq!(out[3].y, 560);
    assert_eq!(out[4].y, 820);
    assert_eq!(hs.iter().sum::<u32>() + 3 * 10, 1030);
    assert_eq!(out[4].y as u32 + hs[3], 40 + 1030);
}

#[test]
fn stack_rounding_leaves_gap_when_uneven() {
    // With padding (50,10) the padded height is 1020 and 1030 is not a
    // multiple of 4: the truncated step 257 gives slots of 247, and the
    // column falls 2 pixels short of the padded height.
    let mon = monitor_with(vec![
        Client::new(1, true),
        Client::new(2, true),
        Client::new(3, true),
        Client::new(4, true),
        Client::new(5, true),
    ]);
    let out = layout_monitor(&mon, &pad(50, 10, 10, 10));
    let hs = stack_heights(&out);
    assert_eq!(hs, vec![247, 247, 247, 247]);
    assert_eq!(hs.iter().sum::<u32>() + 3 * 10, 1018);
}

#[test]
fn stack_column_positions() {
    let mon = monitor_with(vec![Client::new(1, true), Client::new(2, true)]);
    let out = layout_monitor(&mon, &pad(50, 10, 10, 10));
    // Master x is monitor x plus the right padding; the stack column starts
    // past the monitor's midline plus the 5-unit gutter.
    assert_eq!(out[0].x, 10);
    assert_eq!(out[1].x, 965);
    assert_eq!(out[0].width, 945);
    assert_eq!(out[1].width, 945);
}
