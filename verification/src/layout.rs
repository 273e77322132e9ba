//! The layout engine: a pure function from one monitor's state and the
//! configured padding to a list of window placements.
//!
//! One tiled client gets the whole padded area.  With two or more, the first
//! ("master") takes the left half minus a 5-unit gutter and the rest (the
//! "stack") divide the right half evenly, a 10-unit gutter between slots.  A
//! fullscreen client overrides everything and gets the bare monitor
//! rectangle.

use vstd::prelude::*;
use vstd::seq_lib::*;
use vstd::arithmetic::div_mod::lemma_fundamental_div_mod;
use vstd::arithmetic::mul::lemma_mul_inequality;
use crate::config::Padding;
use crate::wm::{Client, Monitor, MonitorV};

verus! {

/// One geometry command of the layout engine: place `window` at the given
/// rectangle.
#[derive(Debug, Clone, Copy, PartialEq, Eq, Structural)]
pub struct Placement {
    pub window: u64,
    pub x: i32,
    pub y: i32,
    pub width: u32,
    pub height: u32,
}

/// Predicate: the client takes part in automatic layout.
pub open spec fn tiled_pred() -> spec_fn(Client) -> bool {
    |c: Client| c.tiled
}

/// The tiled clients of the active workspace, in order.
pub open spec fn tiled_clients(m: MonitorV) -> Seq<Client> {
    m.active().filter(tiled_pred())
}

/// Height of the padded tiling area.
pub open spec fn avail_h(m: MonitorV, p: Padding) -> int {
    m.height - p.top - p.bottom
}

/// Vertical step between stack slots: the padded height plus one gutter,
/// divided evenly among `count` stack members.
pub open spec fn stack_step(m: MonitorV, p: Padding, count: int) -> int {
    (avail_h(m, p) + 10) / count
}

/// Height of one stack slot: the step minus the 10-unit gutter.  A monitor
/// too crowded for even the gutter yields zero-height slots rather than
/// wrapping around.
pub open spec fn stack_h(m: MonitorV, p: Padding, count: int) -> int {
    if stack_step(m, p, count) >= 10 {
        stack_step(m, p, count) - 10
    } else {
        0
    }
}

/// Top edge of stack slot `i`.
pub open spec fn stack_y(m: MonitorV, p: Padding, count: int, i: int) -> int {
    stack_step(m, p, count) * i + p.top
}

/// The placement of a fullscreen client: the bare monitor rectangle.
pub open spec fn fullscreen_placement(m: MonitorV, c: Client) -> Placement {
    Placement { window: c.window, x: m.x, y: m.y, width: m.width, height: m.height }
}

/// The placement of a lone tiled client: the whole padded area.
pub open spec fn single_placement(m: MonitorV, p: Padding, c: Client) -> Placement {
    Placement {
        window: c.window,
        x: (m.x + p.right) as i32,
        y: p.top,
        width: (m.width - p.right - p.left) as u32,
        height: (m.height - p.bottom - p.top) as u32,
    }
}

/// The master placement when two or more clients are tiled: the left half
/// minus a 5-unit gutter.
pub open spec fn master_placement(m: MonitorV, p: Padding, c: Client) -> Placement {
    Placement {
        window: c.window,
        x: (m.x + p.right) as i32,
        y: p.top,
        width: (m.width / 2 - p.right - 5) as u32,
        height: (m.height - p.bottom - p.top) as u32,
    }
}

/// Stack slot `i` of `count`: the right half minus a 5-unit gutter, slots
/// evenly spaced with 10-unit gutters.
pub open spec fn stack_placement(m: MonitorV, p: Padding, count: int, i: int, c: Client) -> Placement {
    Placement {
        window: c.window,
        x: (m.x + m.width / 2 + 5) as i32,
        y: stack_y(m, p, count, i) as i32,
        width: (m.width / 2 - p.left - 5) as u32,
        height: stack_h(m, p, count) as u32,
    }
}

/// Everything the layout engine says about one monitor: the placements, in
/// master-then-stack order.  A fullscreen client suppresses tiling and is
/// placed alone at the full monitor rectangle.
pub open spec fn monitor_placements(m: MonitorV, p: Padding) -> Seq<Placement> {
    match m.fullscreen {
        Some(c) => seq![fullscreen_placement(m, c)],
        None => {
            let t = tiled_clients(m);
            if t.len() == 0 {
                Seq::empty()
            } else if t.len() == 1 {
                seq![single_placement(m, p, t[0])]
            } else {
                seq![master_placement(m, p, t[0])] + Seq::new(
                    (t.len() - 1) as nat,
                    |i: int| stack_placement(m, p, t.len() - 1, i, t[i + 1]),
                )
            }
        },
    }
}

/// The tiled clients of the active workspace of `mon`, in order.
fn tiled_of_active(mon: &Monitor) -> (out: Vec<Client>)
    requires
        mon@.clients.len() == 4,
        0 <= mon@.workspace < 4,
    ensures
        out@ == tiled_clients(mon@),
{
    broadcast use Seq::lemma_take_succ_push, Seq::lemma_take_len, Seq::lemma_filter_push;

    let w = mon.workspace;
    let list = &mon.clients[w];
    proof {
        assert(list@ == mon@.active());
    }
    let mut out: Vec<Client> = Vec::new();
    let mut i: usize = 0;
    while i < list.len()
        invariant
            i <= list@.len(),
            list@ == mon@.active(),
            out@ == mon@.active().take(i as int).filter(tiled_pred()),
        decreases list@.len() - i,
    {
        let c = list[i];
        proof {
            assert(mon@.active().take(i + 1) == mon@.active().take(i as int).push(mon@.active()[i as int]));
            mon@.active().take(i as int).lemma_filter_push(mon@.active()[i as int], tiled_pred());
            assert(tiled_pred()(mon@.active()[i as int]) == c.tiled);
        }
        if c.tiled {
            out.push(c);
        }
        i = i + 1;
    }
    out
}

/// The step times any slot index stays within the padded height, so every
/// stack coordinate fits comfortably in `i32`.
proof fn lemma_step_times_index_bounded(a: int, k: int, i: int)
    requires
        0 <= a,
        1 <= k,
        0 <= i < k,
    ensures
        0 <= (a / k) * i <= a,
{
    lemma_fundamental_div_mod(a, k);
    vstd::arithmetic::div_mod::lemma_mod_bound(a, k);
    vstd::arithmetic::mul::lemma_mul_is_commutative(k, a / k);
    lemma_mul_inequality(i, k, a / k);
    vstd::arithmetic::mul::lemma_mul_nonnegative(a / k, i);
}

/// Compute the placements for one monitor.
pub fn layout_monitor(mon: &Monitor, p: &Padding) -> (out: Vec<Placement>)
    requires
        p.wf(),
        mon@.wf(*p),
    ensures
        out@ == monitor_placements(mon@, *p),
{
    let mut out: Vec<Placement> = Vec::new();
    match mon.fullscreen {
        Some(c) => {
            out.push(
                Placement {
                    window: c.window,
                    x: mon.x,
                    y: mon.y,
                    width: mon.width,
                    height: mon.height,
                },
            );
            proof {
                assert(out@ =~= monitor_placements(mon@, *p));
            }
        },
        None => {
            let tiled = tiled_of_active(mon);
            if tiled.len() == 1 {
                out.push(
                    Placement {
                        window: tiled[0].window,
                        x: mon.x + p.right,
                        y: p.top,
                        width: mon.width - p.right as u32 - p.left as u32,
                        height: mon.height - p.bottom as u32 - p.top as u32,
                    },
                );
                proof {
                    assert(out@ =~= monitor_placements(mon@, *p));
                }
            } else if tiled.len() > 1 {
                out.push(
                    Placement {
                        window: tiled[0].window,
                        x: mon.x + p.right,
                        y: p.top,
                        width: mon.width / 2 - p.right as u32 - 5,
                        height: mon.height - p.bottom as u32 - p.top as u32,
                    },
                );
                let count = tiled.len() - 1;
                let avail: usize = mon.height as usize - p.top as usize - p.bottom as usize;
                let step: usize = (avail + 10) / count;
                let h: u32 = if step >= 10 { (step - 10) as u32 } else { 0 };
                proof {
                    assert(avail == avail_h(mon@, *p));
                    assert(step == stack_step(mon@, *p, count as int));
                    assert(h == stack_h(mon@, *p, count as int));
                }
                let mut i: usize = 0;
                while i < count
                    invariant
                        p.wf(),
                        mon@.wf(*p),
                        tiled@ == tiled_clients(mon@),
                        1 <= count == tiled@.len() - 1,
                        i <= count,
                        avail == avail_h(mon@, *p),
                        step == stack_step(mon@, *p, count as int),
                        h == stack_h(mon@, *p, count as int),
                        out@.len() == 1 + i,
                        out@[0] == master_placement(mon@, *p, tiled@[0]),
                        forall|j: int| 0 <= j < i
                            ==> #[trigger] out@[j + 1] == stack_placement(
                                mon@,
                                *p,
                                count as int,
                                j,
                                tiled@[j + 1],
                            ),
                    decreases count - i,
                {
                    let c = tiled[i + 1];
                    proof {
                        lemma_step_times_index_bounded(
                            avail_h(mon@, *p) + 10,
                            count as int,
                            i as int,
                        );
                    }
                    let y: i32 = (step * i) as i32 + p.top;
                    out.push(
                        Placement {
                            window: c.window,
                            x: mon.x + (mon.width / 2) as i32 + 5,
                            y,
                            width: mon.width / 2 - p.left as u32 - 5,
                            height: h,
                        },
                    );
                    i = i + 1;
                }
                proof {
                    assert(out@ =~= monitor_placements(mon@, *p));
                }
            } else {
                proof {
                    assert(out@ =~= monitor_placements(mon@, *p));
                }
            }
        },
    }
    out
}

/// Whether some tiled client of the active workspace owns this placement's
/// window.
pub open spec fn placement_is_tiled(m: MonitorV, q: Placement) -> bool {
    exists|j: int|
        0 <= j < m.active().len() && (#[trigger] m.active()[j]).window == q.window
            && m.active()[j].tiled
}

/// Without a fullscreen client, every placement the layout engine emits
/// belongs to a tiled client of the active workspace: floating clients never
/// appear in any layout computation.
pub proof fn lemma_placements_tiled(m: MonitorV, p: Padding)
    requires
        m.fullscreen is None,
    ensures
        forall|i: int| 0 <= i < monitor_placements(m, p).len()
            ==> placement_is_tiled(m, #[trigger] monitor_placements(m, p)[i]),
{
    let t = tiled_clients(m);
    let ps = monitor_placements(m, p);
    assert forall|i: int| 0 <= i < monitor_placements(m, p).len() implies placement_is_tiled(
        m,
        #[trigger] monitor_placements(m, p)[i],
    ) by {
        let k: int = if t.len() == 1 || i == 0 { 0 } else { i };
        assert(ps[i].window == t[k].window);
        m.active().lemma_filter_pred(tiled_pred(), k);
        crate::wm::lemma_filter_member(m.active(), tiled_pred(), k);
        let j = choose|j: int| 0 <= j < m.active().len() && #[trigger] m.active()[j] == t[k];
        assert(m.active()[j].window == ps[i].window && m.active()[j].tiled);
    }
}

/// With `count` stack slots dividing the padded height evenly (step at
/// least one gutter, count dividing the padded height plus one gutter), the
/// slots tile the column exactly: each slot ends one 10-unit gutter above
/// the next, the slot heights plus the gutters between them sum to the
/// padded height, and the last slot ends on the bottom padding line.
pub proof fn lemma_stack_fills_height(m: MonitorV, p: Padding, count: int)
    requires
        count >= 1,
        avail_h(m, p) >= 0,
        (avail_h(m, p) + 10) % count == 0,
        stack_step(m, p, count) >= 10,
    ensures
        forall|i: int| 0 <= i < count - 1
            ==> #[trigger] stack_y(m, p, count, i) + stack_h(m, p, count) + 10 == stack_y(
                m,
                p,
                count,
                i + 1,
            ),
        count * stack_h(m, p, count) + (count - 1) * 10 == avail_h(m, p),
        stack_y(m, p, count, count - 1) + stack_h(m, p, count) == p.top + avail_h(m, p),
{
    let a = avail_h(m, p) + 10;
    let step = stack_step(m, p, count);
    lemma_fundamental_div_mod(a, count);
    assert(count * step == a);
    assert forall|i: int| 0 <= i < count - 1 implies #[trigger] stack_y(m, p, count, i) + stack_h(
        m,
        p,
        count,
    ) + 10 == stack_y(m, p, count, i + 1) by {
        assert(step * (i + 1) == step * i + step) by (nonlinear_arith);
    }
    assert(count * stack_h(m, p, count) == count * (step - 10));
    assert(count * (step - 10) == count * step - count * 10) by (nonlinear_arith);
    assert(step * (count - 1) == step * count - step) by (nonlinear_arith);
    vstd::arithmetic::mul::lemma_mul_is_commutative(count, step);
}

} // verus!
