//! The window-manager entity model: clients, workspaces, monitors, and the
//! process-wide manager state, together with the operations that adopt,
//! evict, reorder and look up clients.
//!
//! Every operation is specified against a mathematical view (`WmV`,
//! `MonitorV`) of the state; the invariant `WmV::wf` ties the pieces
//! together: four workspaces per monitor, bounded geometry, a fullscreen
//! client that is always a member of its monitor's active workspace, and
//! window handles that appear at most once across the whole model.

use vstd::prelude::*;
use vstd::seq_lib::*;
use crate::config::{Action, Config, Padding};

verus! {

/// Number of workspaces owned by every monitor.
pub const WORKSPACES: usize = 4;

/// Bound on monitor coordinates and dimensions, in pixels.  Far beyond any
/// physical display, and small enough that all layout arithmetic stays well
/// inside `i32`.
pub const MAX_DIM: i32 = 16000000;

/// Root-pointer position, as reported by the display server.
#[derive(Debug, Clone, Copy, PartialEq, Eq, Structural)]
pub struct Pointer {
    pub x: i32,
    pub y: i32,
}

/// A managed top-level application window.  Identity is the server-assigned
/// handle; `tiled` says whether the client participates in automatic layout.
#[derive(Debug, Clone, Copy, PartialEq, Eq, Structural)]
pub struct Client {
    pub window: u64,
    pub tiled: bool,
}

impl Client {
    pub fn new(window: u64, tiled: bool) -> (c: Client)
        ensures
            c == (Client { window, tiled }),
    {
        Client { window, tiled }
    }
}

/// The initiating button event of a floating-window drag.
#[derive(Debug, Clone, Copy, PartialEq, Eq, Structural)]
pub struct DragStart {
    pub button: u32,
    pub x_root: i32,
    pub y_root: i32,
    pub window: u64,
}

/// A window's geometry at drag-grab time, as fetched from the server.
#[derive(Debug, Clone, Copy, PartialEq, Eq, Structural)]
pub struct Geometry {
    pub x: i32,
    pub y: i32,
    pub width: i32,
    pub height: i32,
}

/// Transient drag state, present only between a button press on a floating
/// client and the matching release.
#[derive(Debug, Clone, Copy, PartialEq, Eq, Structural)]
pub struct FloatClient {
    pub start: Option<DragStart>,
    pub attr: Option<Geometry>,
}

/// One physical display region with its four workspaces, the index of the
/// active one, an optional fullscreen client, and an optional status-bar
/// window handle.
pub struct Monitor {
    pub x: i32,
    pub y: i32,
    pub width: u32,
    pub height: u32,
    pub clients: Vec<Vec<Client>>,
    pub fullscreen: Option<Client>,
    pub workspace: usize,
    pub bar: Option<u64>,
}

/// Mathematical view of a `Monitor`.
#[verifier::ext_equal]
pub ghost struct MonitorV {
    pub x: i32,
    pub y: i32,
    pub width: u32,
    pub height: u32,
    pub clients: Seq<Seq<Client>>,
    pub fullscreen: Option<Client>,
    pub workspace: int,
    pub bar: Option<u64>,
}

impl View for Monitor {
    type V = MonitorV;

    open spec fn view(&self) -> MonitorV {
        MonitorV {
            x: self.x,
            y: self.y,
            width: self.width,
            height: self.height,
            clients: self.clients@.map_values(|ws: Vec<Client>| ws@),
            fullscreen: self.fullscreen,
            workspace: self.workspace as int,
            bar: self.bar,
        }
    }
}

impl MonitorV {
    /// The client list of the active workspace.
    pub open spec fn active(self) -> Seq<Client> {
        self.clients[self.workspace]
    }

    /// The index of the active workspace's entry for `window`, if any.
    /// Under the manager invariant a handle has at most one entry, so this
    /// names it.
    pub open spec fn found_index(self, window: u64) -> Option<int> {
        if exists|i: int| 0 <= i < self.active().len() && (#[trigger] self.active()[i]).window
            == window {
            Some(
                choose|i: int|
                    0 <= i < self.active().len() && (#[trigger] self.active()[i]).window == window,
            )
        } else {
            None
        }
    }

    /// Geometry small enough for all layout arithmetic, and wide and tall
    /// enough for the configured padding.
    pub open spec fn geometry_ok(self, p: Padding) -> bool {
        &&& -MAX_DIM <= self.x <= MAX_DIM
        &&& -MAX_DIM <= self.y <= MAX_DIM
        &&& self.width <= MAX_DIM
        &&& self.height <= MAX_DIM
        &&& self.width >= 2 * (p.left + p.right) + 20
        &&& self.height >= p.top + p.bottom
    }

    /// Structural invariant: four workspaces, an active index in range, and a
    /// fullscreen client (if any) drawn from the active workspace.  Client
    /// identity is by handle, so membership is by handle too.
    pub open spec fn wf(self, p: Padding) -> bool {
        &&& self.clients.len() == 4
        &&& 0 <= self.workspace < 4
        &&& self.geometry_ok(p)
        &&& match self.fullscreen {
            Some(c) => exists|i: int|
                0 <= i < self.active().len() && (#[trigger] self.active()[i]).window == c.window,
            None => true,
        }
    }

    /// A monitor as it comes from enumeration: all workspaces empty, the
    /// first one active, no fullscreen client.
    pub open spec fn fresh(self) -> bool {
        &&& self.clients.len() == 4
        &&& self.workspace == 0
        &&& self.fullscreen is None
        &&& forall|w: int| 0 <= w < 4 ==> (#[trigger] self.clients[w]).len() == 0
    }

    /// Whether `x` lies in this monitor's horizontal span `[x, x + width)`.
    pub open spec fn span_contains(self, px: i32) -> bool {
        self.x <= px < self.x + self.width
    }
}

impl Monitor {
    /// A freshly enumerated monitor: empty workspaces, workspace 0 active.
    pub fn new(x: i32, y: i32, width: u32, height: u32, bar: Option<u64>) -> (m: Monitor)
        ensures
            m@ == (MonitorV {
                x,
                y,
                width,
                height,
                clients: seq![Seq::empty(), Seq::empty(), Seq::empty(), Seq::empty()],
                fullscreen: None,
                workspace: 0,
                bar,
            }),
            m@.fresh(),
    {
        let mut clients: Vec<Vec<Client>> = Vec::new();
        clients.push(Vec::new());
        clients.push(Vec::new());
        clients.push(Vec::new());
        clients.push(Vec::new());
        let m = Monitor { x, y, width, height, clients, fullscreen: None, workspace: 0, bar };
        proof {
            assert(m@.clients =~= seq![
                Seq::<Client>::empty(),
                Seq::<Client>::empty(),
                Seq::<Client>::empty(),
                Seq::<Client>::empty(),
            ]);
            assert(m@ =~= (MonitorV {
                x,
                y,
                width,
                height,
                clients: seq![Seq::empty(), Seq::empty(), Seq::empty(), Seq::empty()],
                fullscreen: None,
                workspace: 0,
                bar,
            }));
        }
        m
    }

    /// Runtime check that the geometry satisfies `MonitorV::geometry_ok`.
    pub fn geometry_fits(&self, p: &Padding) -> (r: bool)
        requires
            p.wf(),
        ensures
            r == self@.geometry_ok(*p),
    {
        -MAX_DIM <= self.x && self.x <= MAX_DIM
            && -MAX_DIM <= self.y && self.y <= MAX_DIM
            && self.width <= MAX_DIM as u32
            && self.height <= MAX_DIM as u32
            && self.width >= 2 * (p.left + p.right) as u32 + 20
            && self.height >= (p.top + p.bottom) as u32
    }

    /// Runtime check for `MonitorV::fresh`.
    pub fn is_fresh(&self) -> (r: bool)
        ensures
            r == self@.fresh(),
    {
        if self.clients.len() != 4 || self.workspace != 0 || self.fullscreen.is_some() {
            proof {
                assert(self@.clients.len() == self.clients@.len());
            }
            return false;
        }
        let mut w: usize = 0;
        while w < 4
            invariant
                w <= 4,
                self.clients.len() == 4,
                forall|j: int| 0 <= j < w ==> (#[trigger] self@.clients[j]).len() == 0,
            decreases 4 - w,
        {
            if self.clients[w].len() != 0 {
                proof {
                    assert(self@.clients[w as int].len() != 0);
                }
                return false;
            }
            w = w + 1;
        }
        true
    }
}

/// Index of the first monitor at or after `i` whose horizontal span contains
/// `px`; 0 when none does.
pub open spec fn first_span_from(mons: Seq<MonitorV>, px: i32, i: int) -> int
    decreases mons.len() - i when 0 <= i <= mons.len()
{
    if i >= mons.len() {
        0
    } else if mons[i].span_contains(px) {
        i
    } else {
        first_span_from(mons, px, i + 1)
    }
}

/// The monitor that owns a pointer at `px`: the first whose span contains
/// it, monitor 0 as the fallback.
pub open spec fn monitor_for(v: WmV, px: i32) -> int {
    first_span_from(v.monitors, px, 0)
}

/// Whether workspace `w` of `mon` holds a tiled entry for `window`.
pub open spec fn tiled_in(mon: MonitorV, w: int, window: u64) -> bool {
    exists|i: int|
        0 <= i < mon.clients[w].len() && (#[trigger] mon.clients[w][i]).window == window
            && mon.clients[w][i].tiled
}

/// The views of a list of monitors, in order.
pub open spec fn views_of(monitors: Seq<Monitor>) -> Seq<MonitorV> {
    monitors.map_values(|m: Monitor| m@)
}

/// The whole manager state: configuration, monitors, the transient drag
/// state, and the process-wide focus handle.
pub struct WindowManager {
    pub config: Config,
    pub monitors: Vec<Monitor>,
    pub float_client: FloatClient,
    pub window: u64,
}

/// Mathematical view of the manager state.
#[verifier::ext_equal]
pub ghost struct WmV {
    pub padding: Padding,
    pub keybindings: Map<u32, Action>,
    pub bar: bool,
    pub monitors: Seq<MonitorV>,
    pub float_client: FloatClient,
    pub window: u64,
}

impl View for WindowManager {
    type V = WmV;

    open spec fn view(&self) -> WmV {
        WmV {
            padding: self.config.padding,
            keybindings: self.config.keybindings@,
            bar: self.config.bar,
            monitors: views_of(self.monitors@),
            float_client: self.float_client,
            window: self.window,
        }
    }
}

impl WmV {
    /// Position `(m, w, i)` denotes a client slot that actually exists.
    pub open spec fn pos_ok(self, m: int, w: int, i: int) -> bool {
        &&& 0 <= m < self.monitors.len()
        &&& 0 <= w < self.monitors[m].clients.len()
        &&& 0 <= i < self.monitors[m].clients[w].len()
    }

    /// The window handle stored at position `(m, w, i)`.
    pub open spec fn win_at(self, m: int, w: int, i: int) -> u64 {
        self.monitors[m].clients[w][i].window
    }

    /// A window handle appears in at most one client slot across all
    /// monitors and workspaces.
    pub open spec fn handles_unique(self) -> bool {
        forall|m1: int, w1: int, i1: int, m2: int, w2: int, i2: int|
            self.pos_ok(m1, w1, i1) && self.pos_ok(m2, w2, i2) && (m1, w1, i1) != (m2, w2, i2)
                ==> #[trigger] self.win_at(m1, w1, i1) != #[trigger] self.win_at(m2, w2, i2)
    }

    /// Whether some client slot holds this window handle.
    pub open spec fn manages(self, window: u64) -> bool {
        exists|m: int, w: int, i: int| self.pos_ok(m, w, i) && #[trigger] self.win_at(m, w, i) == window
    }

    /// Bounds on the remembered drag coordinates, so that the drag-motion
    /// arithmetic stays inside `i32`.
    pub open spec fn drag_wf(self) -> bool {
        &&& match self.float_client.start {
            Some(s) => -MAX_DIM <= s.x_root <= MAX_DIM && -MAX_DIM <= s.y_root <= MAX_DIM,
            None => true,
        }
        &&& match self.float_client.attr {
            Some(a) => {
                &&& -MAX_DIM <= a.x <= MAX_DIM
                &&& -MAX_DIM <= a.y <= MAX_DIM
                &&& 0 <= a.width <= MAX_DIM
                &&& 0 <= a.height <= MAX_DIM
            },
            None => true,
        }
    }

    /// The manager invariant.
    pub open spec fn wf(self) -> bool {
        &&& self.padding.wf()
        &&& self.monitors.len() >= 1
        &&& forall|m: int| 0 <= m < self.monitors.len() ==> (#[trigger] self.monitors[m]).wf(self.padding)
        &&& self.handles_unique()
        &&& self.drag_wf()
    }
}

/// Whether a configuration and a list of freshly enumerated monitors can
/// form a well-formed manager state.
pub open spec fn setup_ok(config: Config, monitors: Seq<MonitorV>) -> bool {
    &&& config.wf()
    &&& monitors.len() >= 1
    &&& forall|m: int| 0 <= m < monitors.len()
        ==> (#[trigger] monitors[m]).fresh() && monitors[m].geometry_ok(config.padding)
}

/// Runtime check for `setup_ok`.
pub fn check_setup(config: &Config, monitors: &Vec<Monitor>) -> (r: bool)
    ensures
        r == setup_ok(*config, views_of(monitors@)),
{
    if !config.is_valid() || monitors.len() == 0 {
        return false;
    }
    let mut i: usize = 0;
    while i < monitors.len()
        invariant
            i <= monitors.len(),
            config.wf(),
            forall|m: int| 0 <= m < i
                ==> (#[trigger] monitors@[m])@.fresh() && monitors@[m]@.geometry_ok(config.padding),
        decreases monitors.len() - i,
    {
        if !monitors[i].is_fresh() || !monitors[i].geometry_fits(&config.padding) {
            proof {
                if setup_ok(*config, views_of(monitors@)) {
                    assert(views_of(monitors@)[i as int].fresh() && views_of(monitors@)[
                        i as int
                    ].geometry_ok(config.padding));
                }
            }
            return false;
        }
        i = i + 1;
    }
    proof {
        let mv = views_of(monitors@);
        assert forall|m: int| 0 <= m < mv.len() implies (#[trigger] mv[m]).fresh() && mv[m].geometry_ok(
            config.padding,
        ) by {
            assert(monitors@[m]@.fresh());
        }
    }
    true
}

impl WindowManager {
    /// Build the manager state from a validated configuration and a list of
    /// freshly enumerated monitors; `root` is the initial focus target.
    /// Returns `None` when the configuration or a monitor is unusable.
    pub fn new(config: Config, monitors: Vec<Monitor>, root: u64) -> (r: Option<WindowManager>)
        ensures
            r is Some <==> setup_ok(config, views_of(monitors@)),
            match r {
                Some(wm) => {
                    &&& wm@ == (WmV {
                        padding: config.padding,
                        keybindings: config.keybindings@,
                        bar: config.bar,
                        monitors: views_of(monitors@),
                        float_client: FloatClient { start: None, attr: None },
                        window: root,
                    })
                    &&& wm@.wf()
                },
                None => true,
            },
    {
        if !check_setup(&config, &monitors) {
            return None;
        }
        let wm = WindowManager {
            config,
            monitors,
            float_client: FloatClient { start: None, attr: None },
            window: root,
        };
        proof {
            assert forall|m: int| 0 <= m < wm@.monitors.len() implies (#[trigger] wm@.monitors[m]).wf(
                wm@.padding,
            ) by {
                assert(views_of(wm.monitors@)[m] == wm.monitors@[m]@);
                assert(wm.monitors@[m]@.fresh());
            }
            assert forall|m1: int, w1: int, i1: int, m2: int, w2: int, i2: int|
                wm@.pos_ok(m1, w1, i1) && wm@.pos_ok(m2, w2, i2) && (m1, w1, i1) != (m2, w2, i2)
                implies wm@.win_at(m1, w1, i1) != wm@.win_at(m2, w2, i2) by {
                assert(views_of(wm.monitors@)[m1] == wm.monitors@[m1]@);
                assert(wm.monitors@[m1]@.fresh());
            }
        }
        Some(wm)
    }

    /// Replace the configuration and the monitor list in place, as the
    /// restart action does; focus and drag state carry over.  Returns false
    /// and leaves the state untouched when the new configuration or a new
    /// monitor is unusable.
    pub fn reconfigure(&mut self, config: Config, monitors: Vec<Monitor>) -> (ok: bool)
        requires
            old(self)@.wf(),
        ensures
            ok == setup_ok(config, views_of(monitors@)),
            ok ==> final(self)@ == (WmV {
                padding: config.padding,
                keybindings: config.keybindings@,
                bar: config.bar,
                monitors: views_of(monitors@),
                float_client: old(self)@.float_client,
                window: old(self)@.window,
            }) && final(self)@.wf(),
            !ok ==> final(self)@ == old(self)@,
    {
        if !check_setup(&config, &monitors) {
            return false;
        }
        self.config = config;
        self.monitors = monitors;
        proof {
            assert forall|m: int| 0 <= m < self@.monitors.len() implies (#[trigger] self@.monitors[m]).wf(
                self@.padding,
            ) by {
                assert(views_of(self.monitors@)[m] == self.monitors@[m]@);
                assert(self.monitors@[m]@.fresh());
            }
            assert forall|m1: int, w1: int, i1: int, m2: int, w2: int, i2: int|
                self@.pos_ok(m1, w1, i1) && self@.pos_ok(m2, w2, i2) && (m1, w1, i1) != (m2, w2, i2)
                implies self@.win_at(m1, w1, i1) != self@.win_at(m2, w2, i2) by {
                assert(views_of(self.monitors@)[m1] == self.monitors@[m1]@);
                assert(self.monitors@[m1]@.fresh());
            }
        }
        true
    }

    /// Index of the first monitor whose horizontal span contains the pointer,
    /// or 0 when the pointer is outside every span.
    pub fn current_monitor(&self, pointer: &Pointer) -> (idx: usize)
        requires
            self@.wf(),
        ensures
            idx < self@.monitors.len(),
            idx as int == monitor_for(self@, pointer.x),
            forall|j: int| 0 <= j < idx ==> !(#[trigger] self@.monitors[j]).span_contains(pointer.x),
            self@.monitors[idx as int].span_contains(pointer.x)
                || (idx == 0 && forall|j: int| 0 <= j < self@.monitors.len()
                    ==> !(#[trigger] self@.monitors[j]).span_contains(pointer.x)),
    {
        let mut i: usize = 0;
        while i < self.monitors.len()
            invariant
                self@.wf(),
                i <= self@.monitors.len(),
                monitor_for(self@, pointer.x) == first_span_from(self@.monitors, pointer.x, i as int),
                forall|j: int| 0 <= j < i ==> !(#[trigger] self@.monitors[j]).span_contains(pointer.x),
            decreases self.monitors.len() - i,
        {
            let m = &self.monitors[i];
            proof {
                assert(m@ == self@.monitors[i as int]);
                assert(self@.monitors[i as int].wf(self@.padding));
            }
            if m.x <= pointer.x && pointer.x < m.x + m.width as i32 {
                return i;
            }
            i = i + 1;
        }
        0
    }

    /// Whether any workspace of any monitor holds this window handle.
    pub fn manages_window(&self, window: u64) -> (r: bool)
        requires
            self@.wf(),
        ensures
            r == self@.manages(window),
    {
        let mut m: usize = 0;
        while m < self.monitors.len()
            invariant
                self@.wf(),
                m <= self@.monitors.len(),
                forall|mj: int, wj: int, ij: int|
                    self@.pos_ok(mj, wj, ij) && mj < m ==> #[trigger] self@.win_at(mj, wj, ij) != window,
            decreases self.monitors.len() - m,
        {
            let mut w: usize = 0;
            while w < self.monitors[m].clients.len()
                invariant
                    self@.wf(),
                    m < self@.monitors.len(),
                    w <= self@.monitors[m as int].clients.len(),
                    forall|mj: int, wj: int, ij: int|
                        self@.pos_ok(mj, wj, ij) && mj < m ==> #[trigger] self@.win_at(mj, wj, ij) != window,
                    forall|wj: int, ij: int|
                        self@.pos_ok(m as int, wj, ij) && wj < w
                            ==> #[trigger] self@.win_at(m as int, wj, ij) != window,
                decreases self.monitors[m as int].clients.len() - w,
            {
                let ws = &self.monitors[m].clients[w];
                let mut i: usize = 0;
                while i < ws.len()
                    invariant
                        self@.wf(),
                        m < self@.monitors.len(),
                        w < self@.monitors[m as int].clients.len(),
                        ws@ == self@.monitors[m as int].clients[w as int],
                        i <= ws@.len(),
                        forall|ij: int| 0 <= ij < i ==> ws@[ij].window != window,
                    decreases ws@.len() - i,
                {
                    if ws[i].window == window {
                        assert(self@.pos_ok(m as int, w as int, i as int));
                        assert(self@.win_at(m as int, w as int, i as int) == window);
                        return true;
                    }
                    i = i + 1;
                }
                assert forall|ij: int| self@.pos_ok(m as int, w as int, ij)
                    implies #[trigger] self@.win_at(m as int, w as int, ij) != window by {
                    assert(ws@[ij].window != window);
                }
                w = w + 1;
            }
            m = m + 1;
        }
        false
    }
}

/// True when no two entries of `s` carry the same window handle.
pub open spec fn windows_distinct(s: Seq<Client>) -> bool {
    forall|a: int, b: int| 0 <= a < b < s.len() ==> s[a].window != s[b].window
}

/// Predicate: the client does not carry this window handle.
pub open spec fn keeps(window: u64) -> spec_fn(Client) -> bool {
    |c: Client| c.window != window
}

/// Predicate: the client carries this window handle.
pub open spec fn is_win(window: u64) -> spec_fn(Client) -> bool {
    |c: Client| c.window == window
}

/// Map: give the entry for `window` the stated tiled flag, keep the rest.
pub open spec fn retag(window: u64, tiled: bool) -> spec_fn(Client) -> Client {
    |c: Client| if c.window == window { Client { window: c.window, tiled } } else { c }
}

/// `s` with every entry for `window` removed.
pub open spec fn without_window(s: Seq<Client>, window: u64) -> Seq<Client> {
    s.filter(keeps(window))
}

/// How many entries of `s` carry this window handle.
pub open spec fn occurrences(s: Seq<Client>, window: u64) -> nat {
    s.filter(is_win(window)).len()
}

/// Every element of a filtered sequence occurs in the original.
pub proof fn lemma_filter_member<A>(s: Seq<A>, pred: spec_fn(A) -> bool, i: int)
    requires
        0 <= i < s.filter(pred).len(),
    ensures
        exists|j: int| 0 <= j < s.len() && #[trigger] s[j] == s.filter(pred)[i],
    decreases s.len(),
{
    reveal(Seq::filter);
    if s.len() == 0 {
    } else {
        let f = s.filter(pred);
        let fd = s.drop_last().filter(pred);
        if pred(s.last()) && i == fd.len() {
            assert(s[s.len() - 1] == f[i]);
        } else {
            lemma_filter_member(s.drop_last(), pred, i);
            let j = choose|j: int| 0 <= j < s.drop_last().len() && #[trigger] s.drop_last()[j] == fd[i];
            assert(s[j] == f[i]);
        }
    }
}

/// Filtering keeps window handles pairwise distinct.
pub proof fn lemma_filter_windows_distinct(s: Seq<Client>, pred: spec_fn(Client) -> bool)
    requires
        windows_distinct(s),
    ensures
        windows_distinct(s.filter(pred)),
    decreases s.len(),
{
    reveal(Seq::filter);
    if s.len() == 0 {
    } else {
        assert(windows_distinct(s.drop_last()));
        lemma_filter_windows_distinct(s.drop_last(), pred);
        let f = s.filter(pred);
        let fd = s.drop_last().filter(pred);
        if pred(s.last()) {
            assert forall|a: int, b: int| 0 <= a < b < f.len() implies f[a].window != f[b].window by {
                if b < f.len() - 1 {
                    assert(fd[a].window != fd[b].window);
                } else {
                    lemma_filter_member(s.drop_last(), pred, a);
                    let j = choose|j: int|
                        0 <= j < s.drop_last().len() && #[trigger] s.drop_last()[j] == fd[a];
                    assert(s[j].window != s[s.len() - 1].window);
                }
            }
        }
    }
}

/// A filter whose predicate holds everywhere is the identity.
pub proof fn lemma_filter_all_true<A>(s: Seq<A>, pred: spec_fn(A) -> bool)
    requires
        forall|i: int| 0 <= i < s.len() ==> pred(#[trigger] s[i]),
    ensures
        s.filter(pred) == s,
    decreases s.len(),
{
    reveal(Seq::filter);
    if s.len() == 0 {
        assert(s.filter(pred) =~= s);
    } else {
        assert(forall|i: int| 0 <= i < s.drop_last().len() ==> pred(#[trigger] s.drop_last()[i]));
        lemma_filter_all_true(s.drop_last(), pred);
        assert(s.filter(pred) =~= s);
    }
}

/// Source index of the element that a remove-then-insert move places at `k`.
pub open spec fn move_src(old_i: int, new_i: int, k: int) -> int {
    if k == new_i {
        old_i
    } else {
        let t = if k < new_i { k } else { k - 1 };
        if t < old_i { t } else { t + 1 }
    }
}

/// Destination index of the element at `j` under a remove-then-insert move.
pub open spec fn move_dst(old_i: int, new_i: int, j: int) -> int {
    if j == old_i {
        new_i
    } else {
        let t = if j < old_i { j } else { j - 1 };
        if t < new_i { t } else { t + 1 }
    }
}

/// A remove-then-insert move permutes the sequence: every position of the
/// result holds the source element given by `move_src`, and every source
/// element lands at `move_dst`.
pub proof fn lemma_move_maps(s: Seq<Client>, old_i: int, new_i: int)
    requires
        0 <= old_i < s.len(),
        0 <= new_i < s.len(),
    ensures
        s.remove(old_i).insert(new_i, s[old_i]).len() == s.len(),
        forall|k: int| 0 <= k < s.len() ==> {
            &&& 0 <= move_src(old_i, new_i, k) < s.len()
            &&& #[trigger] s.remove(old_i).insert(new_i, s[old_i])[k] == s[move_src(old_i, new_i, k)]
        },
        forall|j: int| 0 <= j < s.len() ==> {
            &&& 0 <= #[trigger] move_dst(old_i, new_i, j) < s.len()
            &&& move_src(old_i, new_i, move_dst(old_i, new_i, j)) == j
        },
        forall|k1: int, k2: int|
            0 <= k1 < s.len() && 0 <= k2 < s.len() && k1 != k2
                ==> #[trigger] move_src(old_i, new_i, k1) != #[trigger] move_src(old_i, new_i, k2),
{
    let t = s.remove(old_i);
    let s2 = t.insert(new_i, s[old_i]);
    s.remove_ensures(old_i);
    t.insert_ensures(new_i, s[old_i]);
    assert forall|k: int| 0 <= k < s.len() implies {
        &&& 0 <= move_src(old_i, new_i, k) < s.len()
        &&& s2[k] == s[move_src(old_i, new_i, k)]
    } by {
        if k == new_i {
        } else if k < new_i {
            assert(s2[k] == t[k]);
        } else {
            assert(s2[k] == t[k - 1]);
        }
    }
}

impl WmV {
    /// Transition: adopt `window` into workspace `w` of monitor `m`, unless
    /// the handle is already managed somewhere.
    pub open spec fn adopt(self, window: u64, m: int, w: int, tiled: bool) -> WmV {
        if self.manages(window) {
            self
        } else {
            let mon = self.monitors[m];
            WmV {
                monitors: self.monitors.update(
                    m,
                    MonitorV {
                        clients: mon.clients.update(w, mon.clients[w].push(Client { window, tiled })),
                        ..mon
                    },
                ),
                ..self
            }
        }
    }

    /// Transition: remove `window` from whichever workspace holds it, and
    /// clear any fullscreen slot that pointed at it.
    pub open spec fn evict(self, window: u64) -> WmV {
        WmV {
            monitors: Seq::new(self.monitors.len(), |m: int| self.monitors[m].evict(window)),
            ..self
        }
    }

    /// Transition: move the client at `old_i` of the current workspace of
    /// monitor `m` to position `new_i`.
    pub open spec fn move_client(self, m: int, old_i: int, new_i: int) -> WmV {
        let mon = self.monitors[m];
        let s = mon.active();
        WmV {
            monitors: self.monitors.update(
                m,
                MonitorV {
                    clients: mon.clients.update(
                        mon.workspace,
                        s.remove(old_i).insert(new_i, s[old_i]),
                    ),
                    ..mon
                },
            ),
            ..self
        }
    }

    /// Transition: set the tiled flag of `window` within the active
    /// workspace of monitor `m`.
    pub open spec fn set_tiled(self, m: int, window: u64, tiled: bool) -> WmV {
        let mon = self.monitors[m];
        let s2 = mon.active().map_values(retag(window, tiled));
        WmV {
            monitors: self.monitors.update(
                m,
                MonitorV { clients: mon.clients.update(mon.workspace, s2), ..mon },
            ),
            ..self
        }
    }

    /// Transition: switch monitor `m` to workspace `w`.  Leaving the
    /// workspace of a fullscreen client clears the fullscreen slot, keeping
    /// it a member of the active workspace.  An index outside the four
    /// workspaces is rejected and changes nothing.
    pub open spec fn goto_workspace(self, m: int, w: int) -> WmV {
        if 0 <= w < 4 {
            let mon = self.monitors[m];
            WmV {
                monitors: self.monitors.update(
                    m,
                    MonitorV {
                        workspace: w,
                        fullscreen: if w == mon.workspace { mon.fullscreen } else { None },
                        ..mon
                    },
                ),
                ..self
            }
        } else {
            self
        }
    }

    /// Transition: toggle the fullscreen slot of monitor `m`.  With no
    /// client fullscreen, the slot is filled from the active workspace's
    /// entry for `window` (a no-op when the window is not there); otherwise
    /// the slot is cleared, whatever window was named.
    pub open spec fn toggle_fullscreen(self, m: int, window: u64) -> WmV {
        let mon = self.monitors[m];
        if mon.fullscreen is None {
            match mon.found_index(window) {
                Some(i) => WmV {
                    monitors: self.monitors.update(
                        m,
                        MonitorV { fullscreen: Some(mon.active()[i]), ..mon },
                    ),
                    ..self
                },
                None => self,
            }
        } else {
            WmV {
                monitors: self.monitors.update(m, MonitorV { fullscreen: None, ..mon }),
                ..self
            }
        }
    }

    /// Transition: retarget the process-wide focus handle.
    pub open spec fn set_focus(self, window: u64) -> WmV {
        WmV { window, ..self }
    }
}

impl WmV {
    /// Adopting preserves the manager invariant.
    pub proof fn lemma_adopt_wf(self, window: u64, m: int, w: int, tiled: bool)
        requires
            self.wf(),
            0 <= m < self.monitors.len(),
            0 <= w < 4,
        ensures
            self.adopt(window, m, w, tiled).wf(),
    {
        if !self.manages(window) {
            let nv = self.adopt(window, m, w, tiled);
            let mon = self.monitors[m];
            let oldlen = mon.clients[w].len() as int;
            assert forall|j: int| 0 <= j < nv.monitors.len() implies (#[trigger] nv.monitors[j]).wf(
                nv.padding,
            ) by {
                assert(self.monitors[j].wf(self.padding));
                if j == m {
                    let nm = nv.monitors[m];
                    match mon.fullscreen {
                        Some(c) => {
                            let i = choose|i: int|
                                0 <= i < mon.active().len()
                                    && (#[trigger] mon.active()[i]).window == c.window;
                            assert(nm.active()[i].window == c.window);
                        },
                        None => {},
                    }
                }
            }
            assert forall|m1: int, w1: int, i1: int, m2: int, w2: int, i2: int|
                nv.pos_ok(m1, w1, i1) && nv.pos_ok(m2, w2, i2) && (m1, w1, i1) != (m2, w2, i2)
                implies nv.win_at(m1, w1, i1) != nv.win_at(m2, w2, i2) by {
                let new1 = m1 == m && w1 == w && i1 == oldlen;
                let new2 = m2 == m && w2 == w && i2 == oldlen;
                if new1 {
                    assert(nv.win_at(m1, w1, i1) == window);
                    assert(self.pos_ok(m2, w2, i2));
                    assert(nv.win_at(m2, w2, i2) == self.win_at(m2, w2, i2));
                    if self.win_at(m2, w2, i2) == window {
                        assert(self.manages(window));
                    }
                } else if new2 {
                    assert(nv.win_at(m2, w2, i2) == window);
                    assert(self.pos_ok(m1, w1, i1));
                    assert(nv.win_at(m1, w1, i1) == self.win_at(m1, w1, i1));
                    if self.win_at(m1, w1, i1) == window {
                        assert(self.manages(window));
                    }
                } else {
                    assert(self.pos_ok(m1, w1, i1));
                    assert(self.pos_ok(m2, w2, i2));
                    assert(nv.win_at(m1, w1, i1) == self.win_at(m1, w1, i1));
                    assert(nv.win_at(m2, w2, i2) == self.win_at(m2, w2, i2));
                }
            }
        }
    }
}

/// Under the manager invariant an entry for `window` at `i` is the only one,
/// so `found_index` names exactly it.
pub proof fn lemma_found_index_unique(v: WmV, m: int, window: u64, i: int)
    requires
        v.wf(),
        0 <= m < v.monitors.len(),
        0 <= i < v.monitors[m].active().len(),
        v.monitors[m].active()[i].window == window,
    ensures
        v.monitors[m].found_index(window) == Some(i),
{
    let mon = v.monitors[m];
    assert(mon.wf(v.padding));
    match mon.found_index(window) {
        Some(k) => {
            if k != i {
                assert(v.pos_ok(m, mon.workspace, k));
                assert(v.pos_ok(m, mon.workspace, i));
                assert(v.win_at(m, mon.workspace, k) == window);
                assert(v.win_at(m, mon.workspace, i) == window);
            }
        },
        None => {
            assert(false);
        },
    }
}

/// No entry of `s` carries `window`: then nothing counts.
pub proof fn lemma_occurrences_none(s: Seq<Client>, window: u64)
    requires
        forall|i: int| 0 <= i < s.len() ==> (#[trigger] s[i]).window != window,
    ensures
        occurrences(s, window) == 0,
    decreases s.len(),
{
    reveal(Seq::filter);
    if s.len() == 0 {
    } else {
        assert(forall|i: int|
            0 <= i < s.drop_last().len() ==> (#[trigger] s.drop_last()[i]).window != window);
        lemma_occurrences_none(s.drop_last(), window);
    }
}

/// Adopting the same window handle twice into the same workspace changes
/// nothing the second time, and where the handle was new, exactly one client
/// entry for it results.
pub proof fn lemma_adopt_idempotent(v: WmV, window: u64, m: int, w: int, tiled: bool)
    requires
        v.wf(),
        0 <= m < v.monitors.len(),
        0 <= w < 4,
    ensures
        v.adopt(window, m, w, tiled).adopt(window, m, w, tiled) == v.adopt(window, m, w, tiled),
        v.adopt(window, m, w, tiled).wf(),
        !v.manages(window) ==> v.adopt(window, m, w, tiled).manages(window),
        !v.manages(window) ==> occurrences(
            v.adopt(window, m, w, tiled).monitors[m].clients[w],
            window,
        ) == 1,
{
    broadcast use Seq::lemma_filter_len_push;

    v.lemma_adopt_wf(window, m, w, tiled);
    let v1 = v.adopt(window, m, w, tiled);
    if !v.manages(window) {
        let mon = v.monitors[m];
        let oldlen = mon.clients[w].len() as int;
        assert(v1.pos_ok(m, w, oldlen));
        assert(v1.win_at(m, w, oldlen) == window);
        assert(v1.manages(window));
        assert forall|i: int| 0 <= i < mon.clients[w].len() implies (#[trigger] mon.clients[w][i]).window
            != window by {
            if mon.clients[w][i].window == window {
                assert(v.pos_ok(m, w, i));
                assert(v.win_at(m, w, i) == window);
                assert(v.manages(window));
            }
        }
        lemma_occurrences_none(mon.clients[w], window);
        assert(is_win(window)(Client { window, tiled }));
        assert(v1.monitors[m].clients[w] == mon.clients[w].push(Client { window, tiled }));
        assert(occurrences(v1.monitors[m].clients[w], window) == 1);
    }
}

impl WindowManager {
    /// Adopt `window` into workspace `workspace` of monitor `monitor` with
    /// the given tiled flag.  A handle that is already managed anywhere is
    /// left exactly where it is.
    pub fn adopt(&mut self, window: u64, monitor: usize, workspace: usize, tiled: bool)
        requires
            old(self)@.wf(),
            monitor < old(self)@.monitors.len(),
            workspace < 4,
        ensures
            final(self)@ == old(self)@.adopt(window, monitor as int, workspace as int, tiled),
            final(self)@.wf(),
    {
        proof {
            old(self)@.lemma_adopt_wf(window, monitor as int, workspace as int, tiled);
        }
        if !self.manages_window(window) {
            let c = Client::new(window, tiled);
            let mon = &mut self.monitors[monitor];
            let ws = &mut mon.clients[workspace];
            ws.push(c);
            proof {
                assert(self@ =~~= old(self)@.adopt(window, monitor as int, workspace as int, tiled));
            }
        } else {
            proof {
                assert(self@ =~~= old(self)@.adopt(window, monitor as int, workspace as int, tiled));
            }
        }
    }

    /// Index of the first client of the active workspace of `monitor` that
    /// carries `window`, if any.
    pub fn window_to_client_index(&self, monitor: usize, window: u64) -> (r: Option<usize>)
        requires
            self@.wf(),
            monitor < self@.monitors.len(),
        ensures
            match r {
                Some(i) => {
                    &&& i < self@.monitors[monitor as int].active().len()
                    &&& self@.monitors[monitor as int].active()[i as int].window == window
                    &&& forall|j: int| 0 <= j < i
                        ==> (#[trigger] self@.monitors[monitor as int].active()[j]).window != window
                    &&& self@.monitors[monitor as int].found_index(window) == Some(i as int)
                },
                None => {
                    &&& forall|j: int| 0 <= j < self@.monitors[monitor as int].active().len()
                        ==> (#[trigger] self@.monitors[monitor as int].active()[j]).window != window
                    &&& self@.monitors[monitor as int].found_index(window) is None
                },
            },
    {
        proof {
            assert(self@.monitors[monitor as int].wf(self@.padding));
        }
        let ws = self.monitors[monitor].workspace;
        let list = &self.monitors[monitor].clients[ws];
        proof {
            assert(list@ == self@.monitors[monitor as int].active());
        }
        let mut i: usize = 0;
        while i < list.len()
            invariant
                self@.wf(),
                monitor < self@.monitors.len(),
                i <= list@.len(),
                list@ == self@.monitors[monitor as int].active(),
                forall|j: int| 0 <= j < i ==> (#[trigger] list@[j]).window != window,
            decreases list@.len() - i,
        {
            if list[i].window == window {
                proof {
                    lemma_found_index_unique(self@, monitor as int, window, i as int);
                }
                return Some(i);
            }
            i = i + 1;
        }
        None
    }

    /// Whether the stated workspace of `monitor` holds a tiled client for
    /// `window`.
    pub fn is_tiled(&self, window: u64, monitor: usize, workspace: usize) -> (r: bool)
        requires
            self@.wf(),
            monitor < self@.monitors.len(),
            workspace < 4,
        ensures
            r == tiled_in(self@.monitors[monitor as int], workspace as int, window),
    {
        proof {
            assert(self@.monitors[monitor as int].wf(self@.padding));
        }
        let list = &self.monitors[monitor].clients[workspace];
        proof {
            assert(list@ == self@.monitors[monitor as int].clients[workspace as int]);
        }
        let mut i: usize = 0;
        while i < list.len()
            invariant
                i <= list@.len(),
                list@ == self@.monitors[monitor as int].clients[workspace as int],
                forall|j: int| 0 <= j < i ==> !((#[trigger] list@[j]).window == window && list@[j].tiled),
            decreases list@.len() - i,
        {
            if list[i].window == window && list[i].tiled {
                return true;
            }
            i = i + 1;
        }
        false
    }
}

impl MonitorV {
    /// One monitor's part of `WmV::evict`.
    pub open spec fn evict(self, window: u64) -> MonitorV {
        MonitorV {
            clients: Seq::new(self.clients.len(), |w: int| without_window(self.clients[w], window)),
            fullscreen: match self.fullscreen {
                Some(c) => if c.window == window { None } else { Some(c) },
                None => None,
            },
            ..self
        }
    }
}

/// Dropping `window` from a sequence extended by one client keeps or skips
/// the new client according to its handle.
pub proof fn lemma_without_window_push(s: Seq<Client>, c: Client, window: u64)
    ensures
        without_window(s.push(c), window) == if c.window != window {
            without_window(s, window).push(c)
        } else {
            without_window(s, window)
        },
{
    s.lemma_filter_push(c, keeps(window));
}

/// A copy of `ws` with every entry for `window` dropped.
fn without_window_vec(ws: &Vec<Client>, window: u64) -> (out: Vec<Client>)
    ensures
        out@ == without_window(ws@, window),
{
    broadcast use Seq::lemma_take_succ_push, Seq::lemma_take_len;

    let mut out: Vec<Client> = Vec::new();
    let mut i: usize = 0;
    while i < ws.len()
        invariant
            i <= ws@.len(),
            out@ == without_window(ws@.take(i as int), window),
        decreases ws@.len() - i,
    {
        let c = ws[i];
        proof {
            assert(ws@.take(i + 1) == ws@.take(i as int).push(ws@[i as int]));
            lemma_without_window_push(ws@.take(i as int), ws@[i as int], window);
        }
        if c.window != window {
            out.push(c);
        }
        i = i + 1;
    }
    proof {
        assert(ws@.take(ws@.len() as int) == ws@);
    }
    out
}

impl Monitor {
    /// Drop `window` from every workspace of this monitor and clear a
    /// matching fullscreen slot.
    fn evict_here(&mut self, window: u64)
        requires
            old(self)@.clients.len() == 4,
        ensures
            final(self)@ == old(self)@.evict(window),
    {
        match self.fullscreen {
            Some(c) => {
                if c.window == window {
                    self.fullscreen = None;
                }
            },
            None => {},
        }
        let mut w: usize = 0;
        while w < 4
            invariant
                old(self)@.clients.len() == 4,
                self.clients@.len() == 4,
                w <= 4,
                self@ == (MonitorV {
                    clients: self@.clients,
                    fullscreen: old(self)@.evict(window).fullscreen,
                    ..old(self)@
                }),
                forall|j: int| 0 <= j < w
                    ==> self@.clients[j] == without_window(old(self)@.clients[j], window),
                forall|j: int| w <= j < 4 ==> self@.clients[j] == old(self)@.clients[j],
            decreases 4 - w,
        {
            let ghost pre = self@;
            let filtered = without_window_vec(&self.clients[w], window);
            let slot = &mut self.clients[w];
            *slot = filtered;
            proof {
                assert(self@.clients =~= pre.clients.update(
                    w as int,
                    without_window(old(self)@.clients[w as int], window),
                ));
            }
            w = w + 1;
        }
        proof {
            assert(self@ =~~= old(self)@.evict(window));
        }
    }
}

impl WmV {
    /// Evicting preserves the manager invariant.
    pub proof fn lemma_evict_wf(self, window: u64)
        requires
            self.wf(),
        ensures
            self.evict(window).wf(),
    {
        let nv = self.evict(window);
        assert forall|j: int| 0 <= j < nv.monitors.len() implies (#[trigger] nv.monitors[j]).wf(
            nv.padding,
        ) by {
            let mon = self.monitors[j];
            assert(mon.wf(self.padding));
            let nm = nv.monitors[j];
            match nm.fullscreen {
                Some(c) => {
                    let i = choose|i: int|
                        0 <= i < mon.active().len() && (#[trigger] mon.active()[i]).window == c.window;
                    assert(keeps(window)(mon.active()[i]));
                    mon.active().lemma_filter_contains(keeps(window), i);
                    let k = choose|k: int|
                        0 <= k < nm.active().len() && nm.active()[k] == mon.active()[i];
                    assert(nm.active()[k].window == c.window);
                },
                None => {},
            }
        }
        assert forall|m1: int, w1: int, i1: int, m2: int, w2: int, i2: int|
            nv.pos_ok(m1, w1, i1) && nv.pos_ok(m2, w2, i2) && (m1, w1, i1) != (m2, w2, i2)
            implies nv.win_at(m1, w1, i1) != nv.win_at(m2, w2, i2) by {
            let s1 = self.monitors[m1].clients[w1];
            let s2 = self.monitors[m2].clients[w2];
            if m1 == m2 && w1 == w2 {
                assert forall|a: int, b: int| 0 <= a < b < s1.len() implies s1[a].window != s1[b].window by {
                    assert(self.pos_ok(m1, w1, a));
                    assert(self.pos_ok(m1, w1, b));
                    assert(self.win_at(m1, w1, a) != self.win_at(m1, w1, b));
                }
                lemma_filter_windows_distinct(s1, keeps(window));
                if i1 < i2 {
                    assert(without_window(s1, window)[i1].window != without_window(s1, window)[i2].window);
                } else {
                    assert(without_window(s1, window)[i2].window != without_window(s1, window)[i1].window);
                }
            } else {
                lemma_filter_member(s1, keeps(window), i1);
                lemma_filter_member(s2, keeps(window), i2);
                let j1 = choose|j: int| 0 <= j < s1.len() && #[trigger] s1[j] == without_window(s1, window)[i1];
                let j2 = choose|j: int| 0 <= j < s2.len() && #[trigger] s2[j] == without_window(s2, window)[i2];
                assert(self.pos_ok(m1, w1, j1));
                assert(self.pos_ok(m2, w2, j2));
                assert(self.win_at(m1, w1, j1) != self.win_at(m2, w2, j2));
            }
        }
    }
}

/// Evicting a window handle that is not managed anywhere changes nothing at
/// all: the state is returned as it was.
pub proof fn lemma_evict_unmanaged_noop(v: WmV, window: u64)
    requires
        v.wf(),
        !v.manages(window),
    ensures
        v.evict(window) == v,
{
    assert forall|j: int| 0 <= j < v.monitors.len() implies #[trigger] v.evict(window).monitors[j]
        == v.monitors[j] by {
        let mon = v.monitors[j];
        assert(mon.wf(v.padding));
        assert forall|w: int| 0 <= w < mon.clients.len() implies #[trigger] without_window(
            mon.clients[w],
            window,
        ) == mon.clients[w] by {
            assert forall|i: int| 0 <= i < mon.clients[w].len() implies keeps(window)(
                #[trigger] mon.clients[w][i],
            ) by {
                if mon.clients[w][i].window == window {
                    assert(v.pos_ok(j, w, i));
                    assert(v.win_at(j, w, i) == window);
                    assert(v.manages(window));
                }
            }
            lemma_filter_all_true(mon.clients[w], keeps(window));
        }
        match mon.fullscreen {
            Some(c) => {
                if c.window == window {
                    let i = choose|i: int|
                        0 <= i < mon.active().len() && (#[trigger] mon.active()[i]).window == c.window;
                    assert(v.pos_ok(j, mon.workspace, i));
                    assert(v.win_at(j, mon.workspace, i) == window);
                    assert(v.manages(window));
                }
            },
            None => {},
        }
        assert(mon.evict(window) =~~= mon);
    }
    assert(v.evict(window) =~~= v);
}

impl WindowManager {
    /// Remove the client with this handle from whichever workspace of
    /// whichever monitor holds it; clear a fullscreen slot that pointed at
    /// it.  A handle that was never adopted leaves the state untouched.
    pub fn evict(&mut self, window: u64)
        requires
            old(self)@.wf(),
        ensures
            final(self)@ == old(self)@.evict(window),
            final(self)@.wf(),
    {
        let n = self.monitors.len();
        let mut m: usize = 0;
        while m < n
            invariant
                old(self)@.wf(),
                n == old(self)@.monitors.len(),
                self@.monitors.len() == n,
                m <= n,
                forall|j: int| 0 <= j < m
                    ==> self@.monitors[j] == old(self)@.monitors[j].evict(window),
                forall|j: int| m <= j < n ==> self@.monitors[j] == old(self)@.monitors[j],
                self@ == (WmV { monitors: self@.monitors, ..old(self)@ }),
            decreases n - m,
        {
            proof {
                assert(old(self)@.monitors[m as int].wf(old(self)@.padding));
            }
            let ghost pre = self@;
            let mon = &mut self.monitors[m];
            mon.evict_here(window);
            proof {
                assert(self@.monitors =~= pre.monitors.update(
                    m as int,
                    old(self)@.monitors[m as int].evict(window),
                ));
            }
            m = m + 1;
        }
        proof {
            assert(self@ =~~= old(self)@.evict(window));
            old(self)@.lemma_evict_wf(window);
        }
    }
}

impl WmV {
    /// Reordering preserves the manager invariant.
    pub proof fn lemma_move_wf(self, m: int, old_i: int, new_i: int)
        requires
            self.wf(),
            0 <= m < self.monitors.len(),
            0 <= old_i < self.monitors[m].active().len(),
            0 <= new_i < self.monitors[m].active().len(),
        ensures
            self.move_client(m, old_i, new_i).wf(),
    {
        let mon = self.monitors[m];
        let ws0 = mon.workspace;
        let s = mon.active();
        lemma_move_maps(s, old_i, new_i);
        let nv = self.move_client(m, old_i, new_i);
        let s2 = s.remove(old_i).insert(new_i, s[old_i]);
        assert forall|j: int| 0 <= j < nv.monitors.len() implies (#[trigger] nv.monitors[j]).wf(
            nv.padding,
        ) by {
            assert(self.monitors[j].wf(self.padding));
            if j == m {
                assert(nv.monitors[m].active() == s2);
                match mon.fullscreen {
                    Some(c) => {
                        let i = choose|i: int|
                            0 <= i < s.len() && (#[trigger] s[i]).window == c.window;
                        let k = move_dst(old_i, new_i, i);
                        assert(s2[k] == s[move_src(old_i, new_i, k)]);
                        assert(nv.monitors[m].active()[k].window == c.window);
                    },
                    None => {},
                }
            }
        }
        assert forall|m1: int, w1: int, i1: int, m2: int, w2: int, i2: int|
            nv.pos_ok(m1, w1, i1) && nv.pos_ok(m2, w2, i2) && (m1, w1, i1) != (m2, w2, i2)
            implies nv.win_at(m1, w1, i1) != nv.win_at(m2, w2, i2) by {
            let j1: int = if m1 == m && w1 == ws0 { move_src(old_i, new_i, i1) } else { i1 };
            let j2: int = if m2 == m && w2 == ws0 { move_src(old_i, new_i, i2) } else { i2 };
            assert(self.pos_ok(m1, w1, j1));
            assert(self.pos_ok(m2, w2, j2));
            assert(nv.win_at(m1, w1, i1) == self.win_at(m1, w1, j1));
            assert(nv.win_at(m2, w2, i2) == self.win_at(m2, w2, j2));
            assert((m1, w1, j1) != (m2, w2, j2));
        }
    }
}

impl WindowManager {
    /// Move the client at `old_index` of the current workspace of `monitor`
    /// to `new_index`, shifting the others.
    pub fn move_client(&mut self, monitor: usize, old_index: usize, new_index: usize)
        requires
            old(self)@.wf(),
            monitor < old(self)@.monitors.len(),
            old_index < old(self)@.monitors[monitor as int].active().len(),
            new_index < old(self)@.monitors[monitor as int].active().len(),
        ensures
            final(self)@ == old(self)@.move_client(monitor as int, old_index as int, new_index as int),
            final(self)@.wf(),
    {
        proof {
            old(self)@.lemma_move_wf(monitor as int, old_index as int, new_index as int);
            assert(old(self)@.monitors[monitor as int].wf(old(self)@.padding));
        }
        let mon = &mut self.monitors[monitor];
        let w = mon.workspace;
        let ws = &mut mon.clients[w];
        let c = ws.remove(old_index);
        ws.insert(new_index, c);
        proof {
            assert(self@ =~~= old(self)@.move_client(
                monitor as int,
                old_index as int,
                new_index as int,
            ));
        }
    }

    /// Give the client for `window` in the active workspace of `monitor` the
    /// stated tiled flag; other clients keep theirs.
    pub fn set_tiled(&mut self, monitor: usize, window: u64, tiled: bool)
        requires
            old(self)@.wf(),
            monitor < old(self)@.monitors.len(),
        ensures
            final(self)@ == old(self)@.set_tiled(monitor as int, window, tiled),
            final(self)@.wf(),
    {
        proof {
            assert(old(self)@.monitors[monitor as int].wf(old(self)@.padding));
        }
        let ghost s = old(self)@.monitors[monitor as int].active();
        let mon = &mut self.monitors[monitor];
        let w = mon.workspace;
        let ws = &mut mon.clients[w];
        let mut i: usize = 0;
        while i < ws.len()
            invariant
                ws@.len() == s.len(),
                i <= s.len(),
                forall|j: int| 0 <= j < i ==> ws@[j] == retag(window, tiled)(#[trigger] s[j]),
                forall|j: int| i <= j < s.len() ==> ws@[j] == s[j],
            decreases s.len() - i,
        {
            if ws[i].window == window {
                let c = Client::new(window, tiled);
                ws[i] = c;
            }
            i = i + 1;
        }
        proof {
            assert(ws@ =~= s.map_values(retag(window, tiled)));
            assert(self@ =~~= old(self)@.set_tiled(monitor as int, window, tiled));
            old(self)@.lemma_set_tiled_wf(monitor as int, window, tiled);
        }
    }

    /// Switch `monitor` to the stated workspace.  Switching away from the
    /// workspace of a fullscreen client clears that slot.
    pub fn switch_workspace(&mut self, monitor: usize, workspace: usize)
        requires
            old(self)@.wf(),
            monitor < old(self)@.monitors.len(),
            workspace < 4,
        ensures
            final(self)@ == old(self)@.goto_workspace(monitor as int, workspace as int),
            final(self)@.wf(),
    {
        let mon = &mut self.monitors[monitor];
        if workspace != mon.workspace {
            mon.fullscreen = None;
        }
        mon.workspace = workspace;
        proof {
            assert(self@ =~~= old(self)@.goto_workspace(monitor as int, workspace as int));
            old(self)@.lemma_goto_wf(monitor as int, workspace as int);
        }
    }

    /// Toggle the fullscreen slot of `monitor`: fill it from the active
    /// workspace's entry for `window` when empty (a no-op when the window is
    /// not there), clear it otherwise.  Returns `Some(true)` when a client
    /// became fullscreen, `Some(false)` when the slot was cleared, `None`
    /// when nothing changed.
    pub fn toggle_fullscreen_state(&mut self, monitor: usize, window: u64) -> (r: Option<bool>)
        requires
            old(self)@.wf(),
            monitor < old(self)@.monitors.len(),
        ensures
            final(self)@ == old(self)@.toggle_fullscreen(monitor as int, window),
            final(self)@.wf(),
            match r {
                Some(true) => old(self)@.monitors[monitor as int].fullscreen is None
                    && final(self)@.monitors[monitor as int].fullscreen is Some,
                Some(false) => old(self)@.monitors[monitor as int].fullscreen is Some
                    && final(self)@.monitors[monitor as int].fullscreen is None,
                None => final(self)@ == old(self)@
                    && old(self)@.monitors[monitor as int].fullscreen is None,
            },
    {
        proof {
            assert(old(self)@.monitors[monitor as int].wf(old(self)@.padding));
            old(self)@.lemma_toggle_fullscreen_wf(monitor as int, window);
        }
        let found = self.window_to_client_index(monitor, window);
        let ghost ov = old(self)@;
        let ghost monv = ov.monitors[monitor as int];
        let mon = &mut self.monitors[monitor];
        match mon.fullscreen {
            None => {
                match found {
                    Some(i) => {
                        let w = mon.workspace;
                        let c = mon.clients[w][i];
                        mon.fullscreen = Some(c);
                        proof {
                            let k = choose|k: int|
                                0 <= k < monv.active().len() && (#[trigger] monv.active()[k]).window
                                    == window;
                            if k != i {
                                assert(ov.pos_ok(monitor as int, monv.workspace, k));
                                assert(ov.pos_ok(monitor as int, monv.workspace, i as int));
                                assert(ov.win_at(monitor as int, monv.workspace, k) != ov.win_at(
                                    monitor as int,
                                    monv.workspace,
                                    i as int,
                                ));
                            }
                            assert(self@ =~~= ov.toggle_fullscreen(monitor as int, window));
                        }
                        Some(true)
                    },
                    None => {
                        proof {
                            assert(self@ =~~= ov.toggle_fullscreen(monitor as int, window));
                            assert(self@ =~~= ov);
                        }
                        None
                    },
                }
            },
            Some(_) => {
                mon.fullscreen = None;
                proof {
                    assert(self@ =~~= ov.toggle_fullscreen(monitor as int, window));
                }
                Some(false)
            },
        }
    }

    /// Retarget the process-wide focus handle.
    pub fn set_focus(&mut self, window: u64)
        requires
            old(self)@.wf(),
        ensures
            final(self)@ == old(self)@.set_focus(window),
            final(self)@.wf(),
    {
        self.window = window;
        proof {
            assert(self@ =~~= old(self)@.set_focus(window));
            old(self)@.lemma_wf_same_monitors(self@);
        }
    }

    /// Record the initiating button event and grab-time geometry of a
    /// floating drag.
    pub fn begin_drag(&mut self, start: DragStart, attr: Geometry)
        requires
            old(self)@.wf(),
            -MAX_DIM <= start.x_root <= MAX_DIM,
            -MAX_DIM <= start.y_root <= MAX_DIM,
            -MAX_DIM <= attr.x <= MAX_DIM,
            -MAX_DIM <= attr.y <= MAX_DIM,
            0 <= attr.width <= MAX_DIM,
            0 <= attr.height <= MAX_DIM,
        ensures
            final(self)@ == (WmV {
                float_client: FloatClient { start: Some(start), attr: Some(attr) },
                ..old(self)@
            }),
            final(self)@.wf(),
    {
        self.float_client = FloatClient { start: Some(start), attr: Some(attr) };
        proof {
            assert(self@ =~~= (WmV {
                float_client: FloatClient { start: Some(start), attr: Some(attr) },
                ..old(self)@
            }));
            old(self)@.lemma_wf_same_monitors(self@);
        }
    }

    /// Clear the floating-drag state.
    pub fn end_drag(&mut self)
        requires
            old(self)@.wf(),
        ensures
            final(self)@ == (WmV {
                float_client: FloatClient { start: None, attr: None },
                ..old(self)@
            }),
            final(self)@.wf(),
    {
        self.float_client = FloatClient { start: None, attr: None };
        proof {
            assert(self@ =~~= (WmV {
                float_client: FloatClient { start: None, attr: None },
                ..old(self)@
            }));
            old(self)@.lemma_wf_same_monitors(self@);
        }
    }
}

impl WmV {
    /// Retagging preserves the manager invariant.
    pub proof fn lemma_set_tiled_wf(self, m: int, window: u64, tiled: bool)
        requires
            self.wf(),
            0 <= m < self.monitors.len(),
        ensures
            self.set_tiled(m, window, tiled).wf(),
    {
        let mon = self.monitors[m];
        let ws0 = mon.workspace;
        let s = mon.active();
        let s2 = s.map_values(retag(window, tiled));
        let nv = self.set_tiled(m, window, tiled);
        assert(forall|j: int| 0 <= j < s.len() ==> (#[trigger] s2[j]).window == s[j].window);
        assert forall|j: int| 0 <= j < nv.monitors.len() implies (#[trigger] nv.monitors[j]).wf(
            nv.padding,
        ) by {
            assert(self.monitors[j].wf(self.padding));
            if j == m {
                match mon.fullscreen {
                    Some(c) => {
                        let i = choose|i: int|
                            0 <= i < s.len() && (#[trigger] s[i]).window == c.window;
                        assert(nv.monitors[m].active()[i].window == c.window);
                    },
                    None => {},
                }
            }
        }
        assert forall|m1: int, w1: int, i1: int, m2: int, w2: int, i2: int|
            nv.pos_ok(m1, w1, i1) && nv.pos_ok(m2, w2, i2) && (m1, w1, i1) != (m2, w2, i2)
            implies nv.win_at(m1, w1, i1) != nv.win_at(m2, w2, i2) by {
            assert(self.pos_ok(m1, w1, i1));
            assert(self.pos_ok(m2, w2, i2));
            assert(nv.win_at(m1, w1, i1) == self.win_at(m1, w1, i1));
            assert(nv.win_at(m2, w2, i2) == self.win_at(m2, w2, i2));
        }
    }

    /// Switching workspaces preserves the manager invariant.
    pub proof fn lemma_goto_wf(self, m: int, w: int)
        requires
            self.wf(),
            0 <= m < self.monitors.len(),
            0 <= w < 4,
        ensures
            self.goto_workspace(m, w).wf(),
    {
        let nv = self.goto_workspace(m, w);
        let mon = self.monitors[m];
        assert forall|j: int| 0 <= j < nv.monitors.len() implies (#[trigger] nv.monitors[j]).wf(
            nv.padding,
        ) by {
            assert(self.monitors[j].wf(self.padding));
        }
        assert forall|m1: int, w1: int, i1: int, m2: int, w2: int, i2: int|
            nv.pos_ok(m1, w1, i1) && nv.pos_ok(m2, w2, i2) && (m1, w1, i1) != (m2, w2, i2)
            implies nv.win_at(m1, w1, i1) != nv.win_at(m2, w2, i2) by {
            assert(self.pos_ok(m1, w1, i1));
            assert(self.pos_ok(m2, w2, i2));
            assert(nv.win_at(m1, w1, i1) == self.win_at(m1, w1, i1));
            assert(nv.win_at(m2, w2, i2) == self.win_at(m2, w2, i2));
        }
    }

    /// A state with the same padding and monitors, and drag bounds of its
    /// own, satisfies the invariant too.
    pub proof fn lemma_wf_same_monitors(self, other: WmV)
        requires
            self.wf(),
            other.padding == self.padding,
            other.monitors == self.monitors,
            other.drag_wf(),
        ensures
            other.wf(),
    {
        assert forall|j: int| 0 <= j < other.monitors.len() implies (#[trigger] other.monitors[j]).wf(
            other.padding,
        ) by {
            assert(self.monitors[j].wf(self.padding));
        }
        assert forall|m1: int, w1: int, i1: int, m2: int, w2: int, i2: int|
            other.pos_ok(m1, w1, i1) && other.pos_ok(m2, w2, i2) && (m1, w1, i1) != (m2, w2, i2)
            implies other.win_at(m1, w1, i1) != other.win_at(m2, w2, i2) by {
            assert(self.pos_ok(m1, w1, i1));
            assert(self.pos_ok(m2, w2, i2));
            assert(other.win_at(m1, w1, i1) == self.win_at(m1, w1, i1));
            assert(other.win_at(m2, w2, i2) == self.win_at(m2, w2, i2));
        }
    }

    /// Toggling fullscreen preserves the manager invariant.
    pub proof fn lemma_toggle_fullscreen_wf(self, m: int, window: u64)
        requires
            self.wf(),
            0 <= m < self.monitors.len(),
        ensures
            self.toggle_fullscreen(m, window).wf(),
    {
        let nv = self.toggle_fullscreen(m, window);
        let mon = self.monitors[m];
        assert forall|j: int| 0 <= j < nv.monitors.len() implies (#[trigger] nv.monitors[j]).wf(
            nv.padding,
        ) by {
            assert(self.monitors[j].wf(self.padding));
            if j == m {
                match nv.monitors[m].fullscreen {
                    Some(c) => {
                        let i = choose|i: int|
                            0 <= i < mon.active().len() && (#[trigger] mon.active()[i]).window == window;
                        assert(nv.monitors[m].active()[i].window == c.window);
                    },
                    None => {},
                }
            }
        }
        assert forall|m1: int, w1: int, i1: int, m2: int, w2: int, i2: int|
            nv.pos_ok(m1, w1, i1) && nv.pos_ok(m2, w2, i2) && (m1, w1, i1) != (m2, w2, i2)
            implies nv.win_at(m1, w1, i1) != nv.win_at(m2, w2, i2) by {
            assert(self.pos_ok(m1, w1, i1));
            assert(self.pos_ok(m2, w2, i2));
            assert(nv.win_at(m1, w1, i1) == self.win_at(m1, w1, i1));
            assert(nv.win_at(m2, w2, i2) == self.win_at(m2, w2, i2));
        }
    }
}

/// Toggling fullscreen twice in succession on the same window returns the
/// monitor, and with it the whole state, to exactly what it was before the
/// first toggle, starting from a monitor with no fullscreen client.
pub proof fn lemma_fullscreen_round_trip(v: WmV, m: int, window: u64)
    requires
        v.wf(),
        0 <= m < v.monitors.len(),
        v.monitors[m].fullscreen is None,
    ensures
        v.toggle_fullscreen(m, window).toggle_fullscreen(m, window) == v,
{
    let v1 = v.toggle_fullscreen(m, window);
    let mon = v.monitors[m];
    if exists|i: int| 0 <= i < mon.active().len() && (#[trigger] mon.active()[i]).window == window {
        assert(v1.monitors[m].fullscreen is Some);
        assert(v1.toggle_fullscreen(m, window) =~~= v);
    } else {
        assert(v1 == v);
    }
}

} // verus!
