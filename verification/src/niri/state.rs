//! The compositor state reducer.
//!
//! Folds compositor events into two id-keyed ordered maps, one of workspaces
//! and one of windows, enforcing the singleton invariants: at most one
//! workspace per output is active, at most one workspace globally is focused,
//! and at most one window globally is focused.  Unknown ids are no-ops; a
//! snapshot event replaces a whole map.

use vstd::prelude::*;

use crate::config::MonitorId;
use crate::keyed::{
    find_index, lemma_map_of, lemma_map_of_update, lemma_sorted_unique, map_of, remove_key,
    rebuild, sorted_keys, upsert, Keyed,
};

verus! {

/// Stable workspace id, unique across the compositor session.
#[derive(Debug, Clone, Copy, PartialEq, Eq, Structural)]
pub struct WorkspaceId(pub u64);

/// Position of a workspace on its output; not globally unique.
#[derive(Debug, Clone, Copy, PartialEq, Eq, Structural)]
pub struct WorkspaceIdx(pub u8);

impl WorkspaceIdx {
    pub fn get(&self) -> (r: u8)
        ensures
            r == self.0,
    {
        self.0
    }
}

/// Stable window id.
#[derive(Debug, Clone, Copy, PartialEq, Eq, Structural)]
pub struct WinId(pub u64);

/// Column index of a window in the scrolling layout.
#[derive(Debug, Clone, Copy, PartialEq, Eq, Structural)]
pub struct WinIdx(pub usize);

/// One workspace, as the reducer tracks it.
#[derive(Debug, Clone, PartialEq)]
pub struct Workspace {
    pub id: WorkspaceId,
    pub idx: WorkspaceIdx,
    pub is_urgent: bool,
    pub is_active: bool,
    pub is_focused: bool,
    pub monitor_id: Option<MonitorId>,
    pub active_win_id: Option<WinId>,
}

impl Keyed for Workspace {
    open spec fn key(&self) -> u64 {
        self.id.0
    }

    fn get_key(&self) -> u64 {
        self.id.0
    }
}

/// One window, as the reducer tracks it.
#[derive(Debug, Clone, PartialEq)]
pub struct Window {
    pub id: WinId,
    pub title: Option<String>,
    pub app_id: Option<String>,
    pub ws_id: Option<WorkspaceId>,
    pub col_idx: Option<WinIdx>,
    pub is_focus: bool,
    pub is_urgent: bool,
    pub is_floating: bool,
}

impl Keyed for Window {
    open spec fn key(&self) -> u64 {
        self.id.0
    }

    fn get_key(&self) -> u64 {
        self.id.0
    }
}

/// The output a workspace sits on, as a character sequence.
pub open spec fn mon_view(m: Option<MonitorId>) -> Option<Seq<char>> {
    match m {
        Some(mon) => Some(mon.0@),
        None => None,
    }
}

/// One compositor event, holding plain values only.
#[derive(Debug, Clone)]
pub enum Event {
    /// Full snapshot: replaces the whole workspace map.
    WorkspacesChanged { workspaces: Vec<Workspace> },
    WorkspaceUrgencyChanged { id: WorkspaceId, urgent: bool },
    WorkspaceActivated { id: WorkspaceId, focused: bool },
    WorkspaceActiveWindowChanged { workspace_id: WorkspaceId, active_window_id: Option<WinId> },
    /// Full snapshot: replaces the whole window map.
    WindowsChanged { windows: Vec<Window> },
    WindowOpenedOrChanged { window: Window },
    WindowClosed { id: WinId },
    WindowFocusChanged { id: Option<WinId> },
    WindowUrgencyChanged { id: WinId, urgent: bool },
    WindowLayoutsChanged { changes: Vec<(WinId, Option<WinIdx>)> },
    /// Acknowledged and ignored.
    WindowFocusTimestampChanged { id: WinId },
    /// Acknowledged and ignored.
    KeyboardLayoutsChanged,
    /// Acknowledged and ignored.
    KeyboardLayoutSwitched { idx: u8 },
    /// Acknowledged and ignored.
    OverviewOpenedOrClosed { is_open: bool },
    /// Acknowledged and ignored.
    ConfigLoaded { failed: bool },
    /// Acknowledged and ignored.
    ScreenshotCaptured,
}

/// What the reducer's state denotes: two id-keyed maps.
#[verifier::ext_equal]
pub struct StateView {
    pub wss: Map<u64, Workspace>,
    pub wins: Map<u64, Window>,
}

impl StateView {
    /// Every entry sits under its own id.  Reducer states always satisfy
    /// this; see `State::lemma_keyed_by_id`.
    pub open spec fn keyed_by_id(self) -> bool {
        &&& forall|k: u64| #[trigger] self.wss.contains_key(k) ==> self.wss[k].id.0 == k
        &&& forall|k: u64| #[trigger] self.wins.contains_key(k) ==> self.wins[k].id.0 == k
    }
}

pub open spec fn ws_with_urgent(w: Workspace, urgent: bool) -> Workspace {
    Workspace {
        id: w.id,
        idx: w.idx,
        is_urgent: urgent,
        is_active: w.is_active,
        is_focused: w.is_focused,
        monitor_id: w.monitor_id,
        active_win_id: w.active_win_id,
    }
}

pub open spec fn ws_with_active_win(w: Workspace, win: Option<WinId>) -> Workspace {
    Workspace {
        id: w.id,
        idx: w.idx,
        is_urgent: w.is_urgent,
        is_active: w.is_active,
        is_focused: w.is_focused,
        monitor_id: w.monitor_id,
        active_win_id: win,
    }
}

/// A workspace after `WorkspaceActivated { id, focused }`: the target becomes
/// active (and focused as the event says); every other workspace on the same
/// output stops being active; when the event grants focus, every other
/// workspace, on any output, stops being focused.
pub open spec fn activate_one(w: Workspace, id: u64, focused: bool, mon: Option<Seq<char>>) -> Workspace {
    Workspace {
        id: w.id,
        idx: w.idx,
        is_urgent: w.is_urgent,
        is_active: if w.id.0 == id {
            true
        } else if mon_view(w.monitor_id) == mon {
            false
        } else {
            w.is_active
        },
        is_focused: if w.id.0 == id {
            focused
        } else if focused {
            false
        } else {
            w.is_focused
        },
        monitor_id: w.monitor_id,
        active_win_id: w.active_win_id,
    }
}

pub open spec fn activate_ws(m: Map<u64, Workspace>, id: u64, focused: bool) -> Map<u64, Workspace> {
    if m.contains_key(id) {
        let mon = mon_view(m[id].monitor_id);
        Map::new(|k: u64| m.contains_key(k), |k: u64| activate_one(m[k], id, focused, mon))
    } else {
        m
    }
}

pub open spec fn win_with_urgent(w: Window, urgent: bool) -> Window {
    Window {
        id: w.id,
        title: w.title,
        app_id: w.app_id,
        ws_id: w.ws_id,
        col_idx: w.col_idx,
        is_focus: w.is_focus,
        is_urgent: urgent,
        is_floating: w.is_floating,
    }
}

pub open spec fn win_with_focus(w: Window, focus: bool) -> Window {
    Window {
        id: w.id,
        title: w.title,
        app_id: w.app_id,
        ws_id: w.ws_id,
        col_idx: w.col_idx,
        is_focus: focus,
        is_urgent: w.is_urgent,
        is_floating: w.is_floating,
    }
}

pub open spec fn win_with_col(w: Window, col: WinIdx) -> Window {
    Window {
        id: w.id,
        title: w.title,
        app_id: w.app_id,
        ws_id: w.ws_id,
        col_idx: Some(col),
        is_focus: w.is_focus,
        is_urgent: w.is_urgent,
        is_floating: w.is_floating,
    }
}

/// Every window's focus flag set to "is it the one with this id".
pub open spec fn focus_only(m: Map<u64, Window>, id: u64) -> Map<u64, Window> {
    Map::new(|k: u64| m.contains_key(k), |k: u64| win_with_focus(m[k], k == id))
}

/// Every window's focus flag cleared.
pub open spec fn clear_focus(m: Map<u64, Window>) -> Map<u64, Window> {
    Map::new(|k: u64| m.contains_key(k), |k: u64| win_with_focus(m[k], false))
}

/// Column patches applied left to right; ids that are absent, and changes
/// without a position, are untouched.
pub open spec fn apply_layouts(m: Map<u64, Window>, changes: Seq<(WinId, Option<WinIdx>)>) -> Map<
    u64,
    Window,
>
    decreases changes.len(),
{
    if changes.len() == 0 {
        m
    } else {
        let front = apply_layouts(m, changes.drop_last());
        let id = changes.last().0.0;
        match changes.last().1 {
            Some(col) => if front.contains_key(id) {
                front.insert(id, win_with_col(front[id], col))
            } else {
                front
            },
            None => front,
        }
    }
}

/// The transition table: what one event does to the state.
pub open spec fn spec_apply(s: StateView, ev: Event) -> StateView {
    match ev {
        Event::WorkspacesChanged { workspaces } => StateView {
            wss: map_of(workspaces@),
            wins: s.wins,
        },
        Event::WorkspaceUrgencyChanged { id, urgent } => StateView {
            wss: if s.wss.contains_key(id.0) {
                s.wss.insert(id.0, ws_with_urgent(s.wss[id.0], urgent))
            } else {
                s.wss
            },
            wins: s.wins,
        },
        Event::WorkspaceActivated { id, focused } => StateView {
            wss: activate_ws(s.wss, id.0, focused),
            wins: s.wins,
        },
        Event::WorkspaceActiveWindowChanged { workspace_id, active_window_id } => StateView {
            wss: if s.wss.contains_key(workspace_id.0) {
                s.wss.insert(
                    workspace_id.0,
                    ws_with_active_win(s.wss[workspace_id.0], active_window_id),
                )
            } else {
                s.wss
            },
            wins: s.wins,
        },
        Event::WindowsChanged { windows } => StateView { wss: s.wss, wins: map_of(windows@) },
        Event::WindowOpenedOrChanged { window } => StateView {
            wss: s.wss,
            wins: (if window.is_focus {
                clear_focus(s.wins)
            } else {
                s.wins
            }).insert(window.id.0, window),
        },
        Event::WindowClosed { id } => StateView { wss: s.wss, wins: s.wins.remove(id.0) },
        Event::WindowFocusChanged { id } => StateView {
            wss: s.wss,
            wins: match id {
                Some(win_id) => focus_only(s.wins, win_id.0),
                None => s.wins,
            },
        },
        Event::WindowUrgencyChanged { id, urgent } => StateView {
            wss: s.wss,
            wins: if s.wins.contains_key(id.0) {
                s.wins.insert(id.0, win_with_urgent(s.wins[id.0], urgent))
            } else {
                s.wins
            },
        },
        Event::WindowLayoutsChanged { changes } => StateView {
            wss: s.wss,
            wins: apply_layouts(s.wins, changes@),
        },
        _ => s,
    }
}

/// Workspace map: a vector sorted strictly by id.
#[derive(Debug, Clone)]
pub struct WsMap(pub(crate) Vec<Workspace>);

impl View for WsMap {
    type V = Map<u64, Workspace>;

    closed spec fn view(&self) -> Map<u64, Workspace> {
        map_of(self.0@)
    }
}

impl WsMap {
    pub closed spec fn seq(&self) -> Seq<Workspace> {
        self.0@
    }

    pub closed spec fn wf(&self) -> bool {
        sorted_keys(self.0@)
    }
}

/// Window map: a vector sorted strictly by id.
#[derive(Debug, Clone)]
pub struct WinMap(pub(crate) Vec<Window>);

impl View for WinMap {
    type V = Map<u64, Window>;

    closed spec fn view(&self) -> Map<u64, Window> {
        map_of(self.0@)
    }
}

impl WinMap {
    pub closed spec fn seq(&self) -> Seq<Window> {
        self.0@
    }

    pub closed spec fn wf(&self) -> bool {
        sorted_keys(self.0@)
    }
}

/// The reducer's state: the workspace map and the window map.
#[derive(Debug, Clone)]
pub struct State {
    pub ws_map: WsMap,
    pub win_map: WinMap,
}

impl View for State {
    type V = StateView;

    open spec fn view(&self) -> StateView {
        StateView { wss: self.ws_map@, wins: self.win_map@ }
    }
}

impl State {
    pub open spec fn wf(&self) -> bool {
        self.ws_map.wf() && self.win_map.wf()
    }

    /// An empty state: no workspaces, no windows.
    pub fn new() -> (r: State)
        ensures
            r.wf(),
            r@.wss == Map::<u64, Workspace>::empty(),
            r@.wins == Map::<u64, Window>::empty(),
    {
        State { ws_map: WsMap(Vec::new()), win_map: WinMap(Vec::new()) }
    }

    /// The workspaces, sorted by id; the map view is built from exactly them.
    pub fn iter_ws(&self) -> (r: &Vec<Workspace>)
        ensures
            r@ == self.ws_map.seq(),
            map_of(r@) == self@.wss,
            self.wf() ==> sorted_keys(r@),
    {
        &self.ws_map.0
    }

    /// The windows, sorted by id; the map view is built from exactly them.
    pub fn iter_win(&self) -> (r: &Vec<Window>)
        ensures
            r@ == self.win_map.seq(),
            map_of(r@) == self@.wins,
            self.wf() ==> sorted_keys(r@),
    {
        &self.win_map.0
    }

    /// Looks a window up by id.
    pub fn get_win(&self, win_id: &WinId) -> (r: Option<&Window>)
        requires
            self.wf(),
        ensures
            match r {
                Some(w) => self@.wins.contains_key(win_id.0) && *w == self@.wins[win_id.0],
                None => !self@.wins.contains_key(win_id.0),
            },
    {
        proof {
            lemma_sorted_unique(self.win_map.0@);
            lemma_map_of(self.win_map.0@);
        }
        match find_index(&self.win_map.0, win_id.0) {
            Some(i) => Some(&self.win_map.0[i]),
            None => {
                proof {
                    if self@.wins.contains_key(win_id.0) {
                        let j = choose|j: int|
                            0 <= j < self.win_map.0@.len() && self.win_map.0@[j].key() == win_id.0;
                    }
                }
                None
            },
        }
    }

    /// A well-formed state's maps hold every entry under its own id.
    pub proof fn lemma_keyed_by_id(&self)
        requires
            self.wf(),
        ensures
            self@.keyed_by_id(),
    {
        lemma_sorted_unique(self.ws_map.0@);
        lemma_map_of(self.ws_map.0@);
        lemma_sorted_unique(self.win_map.0@);
        lemma_map_of(self.win_map.0@);
        assert forall|k: u64| #[trigger] self@.wss.contains_key(k) implies self@.wss[k].id.0
            == k by {
            let i = choose|i: int|
                0 <= i < self.ws_map.0@.len() && self.ws_map.0@[i].key() == k;
            assert(self@.wss[k] == self.ws_map.0@[i]);
        }
        assert forall|k: u64| #[trigger] self@.wins.contains_key(k) implies self@.wins[k].id.0
            == k by {
            let i = choose|i: int|
                0 <= i < self.win_map.0@.len() && self.win_map.0@[i].key() == k;
            assert(self@.wins[k] == self.win_map.0@[i]);
        }
    }

    /// Applies one event, as the transition table says.  Never fails; events
    /// for unknown ids and the acknowledged-and-ignored events change nothing.
    pub fn apply(&mut self, ev: Event)
        requires
            old(self).wf(),
        ensures
            final(self).wf(),
            final(self)@ == spec_apply(old(self)@, ev),
    {
        match ev {
            Event::WorkspacesChanged { workspaces } => {
                self.ws_map.0 = rebuild(workspaces);
            },
            Event::WorkspaceUrgencyChanged { id, urgent } => {
                let ghost s = self.ws_map.0@;
                proof {
                    lemma_sorted_unique(s);
                    lemma_map_of(s);
                }
                match find_index(&self.ws_map.0, id.0) {
                    Some(i) => {
                        let mut w = self.ws_map.0.remove(i);
                        w.is_urgent = urgent;
                        self.ws_map.0.insert(i, w);
                        proof {
                            assert(self.ws_map.0@ =~= s.update(i as int, w));
                            lemma_map_of_update(s, i as int, w);
                            assert(sorted_keys(self.ws_map.0@)) by {
                                assert(forall|j: int|
                                    0 <= j < s.len() ==> self.ws_map.0@[j].key() == s[j].key());
                            }
                        }
                    },
                    None => {
                        proof {
                            if map_of(s).contains_key(id.0) {
                                let j = choose|j: int| 0 <= j < s.len() && s[j].key() == id.0;
                            }
                        }
                    },
                }
            },
            Event::WorkspaceActivated { id, focused } => {
                self.apply_ws_activated(id, focused);
            },
            Event::WorkspaceActiveWindowChanged { workspace_id, active_window_id } => {
                let ghost s = self.ws_map.0@;
                proof {
                    lemma_sorted_unique(s);
                    lemma_map_of(s);
                }
                match find_index(&self.ws_map.0, workspace_id.0) {
                    Some(i) => {
                        let mut w = self.ws_map.0.remove(i);
                        w.active_win_id = active_window_id;
                        self.ws_map.0.insert(i, w);
                        proof {
                            assert(self.ws_map.0@ =~= s.update(i as int, w));
                            lemma_map_of_update(s, i as int, w);
                            assert(sorted_keys(self.ws_map.0@)) by {
                                assert(forall|j: int|
                                    0 <= j < s.len() ==> self.ws_map.0@[j].key() == s[j].key());
                            }
                        }
                    },
                    None => {
                        proof {
                            if map_of(s).contains_key(workspace_id.0) {
                                let j = choose|j: int|
                                    0 <= j < s.len() && s[j].key() == workspace_id.0;
                            }
                        }
                    },
                }
            },
            Event::WindowsChanged { windows } => {
                self.win_map.0 = rebuild(windows);
            },
            Event::WindowOpenedOrChanged { window } => {
                if window.is_focus {
                    self.clear_all_focus();
                }
                upsert(&mut self.win_map.0, window);
            },
            Event::WindowClosed { id } => {
                remove_key(&mut self.win_map.0, id.0);
            },
            Event::WindowFocusChanged { id } => {
                match id {
                    Some(win_id) => self.apply_focus_only(win_id),
                    None => (),
                }
            },
            Event::WindowUrgencyChanged { id, urgent } => {
                let ghost s = self.win_map.0@;
                proof {
                    lemma_sorted_unique(s);
                    lemma_map_of(s);
                }
                match find_index(&self.win_map.0, id.0) {
                    Some(i) => {
                        let mut w = self.win_map.0.remove(i);
                        w.is_urgent = urgent;
                        self.win_map.0.insert(i, w);
                        proof {
                            assert(self.win_map.0@ =~= s.update(i as int, w));
                            lemma_map_of_update(s, i as int, w);
                            assert(sorted_keys(self.win_map.0@)) by {
                                assert(forall|j: int|
                                    0 <= j < s.len() ==> self.win_map.0@[j].key() == s[j].key());
                            }
                        }
                    },
                    None => {
                        proof {
                            if map_of(s).contains_key(id.0) {
                                let j = choose|j: int| 0 <= j < s.len() && s[j].key() == id.0;
                            }
                        }
                    },
                }
            },
            Event::WindowLayoutsChanged { changes } => {
                self.apply_layout_changes(&changes);
            },
            Event::WindowFocusTimestampChanged { .. } => (),
            Event::KeyboardLayoutsChanged => (),
            Event::KeyboardLayoutSwitched { .. } => (),
            Event::OverviewOpenedOrClosed { .. } => (),
            Event::ConfigLoaded { .. } => (),
            Event::ScreenshotCaptured => (),
        }
    }

    /// The `WorkspaceActivated` transition.
    fn apply_ws_activated(&mut self, id: WorkspaceId, focused: bool)
        requires
            old(self).wf(),
        ensures
            final(self).wf(),
            final(self)@ == (StateView {
                wss: activate_ws(old(self)@.wss, id.0, focused),
                wins: old(self)@.wins,
            }),
    {
        let ghost s = self.ws_map.0@;
        let ghost m = map_of(s);
        proof {
            lemma_sorted_unique(s);
            lemma_map_of(s);
        }
        let target = match find_index(&self.ws_map.0, id.0) {
            Some(i) => i,
            None => {
                proof {
                    if m.contains_key(id.0) {
                        let j = choose|j: int| 0 <= j < s.len() && s[j].key() == id.0;
                    }
                }
                return ;
            },
        };
        // the target's output, read before the map is rewritten
        let mon: Option<MonitorId> = match &self.ws_map.0[target].monitor_id {
            Some(monitor) => Some(MonitorId(monitor.get())),
            None => None,
        };
        let ghost mon_spec = mon_view(m[id.0].monitor_id);
        proof {
            assert(mon_view(mon) == mon_spec);
        }
        let len = self.ws_map.0.len();
        let mut j: usize = 0;
        while j < len
            invariant
                self.win_map == old(self).win_map,
                len == s.len(),
                j <= len,
                self.ws_map.0@.len() == s.len(),
                mon_view(mon) == mon_spec,
                forall|p: int|
                    0 <= p < j ==> self.ws_map.0@[p] == activate_one(s[p], id.0, focused, mon_spec),
                forall|p: int| j <= p < len ==> self.ws_map.0@[p] == s[p],
            decreases len - j,
        {
            let mut w = self.ws_map.0.remove(j);
            if w.id.0 == id.0 {
                w.is_active = true;
                w.is_focused = focused;
            } else {
                if focused {
                    w.is_focused = false;
                }
                if opt_mon_eq(&w.monitor_id, &mon) {
                    w.is_active = false;
                }
            }
            proof {
                assert(w == activate_one(s[j as int], id.0, focused, mon_spec));
            }
            self.ws_map.0.insert(j, w);
            proof {
                assert(forall|p: int|
                    0 <= p < j ==> self.ws_map.0@[p] == activate_one(
                        s[p],
                        id.0,
                        focused,
                        mon_spec,
                    ));
            }
            j = j + 1;
        }
        proof {
            let v2 = self.ws_map.0@;
            assert(forall|p: int| 0 <= p < v2.len() ==> v2[p].key() == s[p].key());
            assert(sorted_keys(v2));
            lemma_sorted_unique(v2);
            lemma_map_of(v2);
            assert(m.contains_key(id.0));
            assert(map_of(v2) =~= activate_ws(m, id.0, focused)) by {
                assert forall|k: u64| map_of(v2).contains_key(k) implies activate_ws(
                    m,
                    id.0,
                    focused,
                ).contains_key(k) && map_of(v2)[k] == activate_ws(m, id.0, focused)[k] by {
                    let p = choose|p: int| 0 <= p < v2.len() && v2[p].key() == k;
                    assert(s[p].key() == k);
                    assert(m[k] == s[p]);
                    assert(map_of(v2)[k] == v2[p]);
                }
                assert forall|k: u64| activate_ws(m, id.0, focused).contains_key(k) implies map_of(
                    v2,
                ).contains_key(k) by {
                    let p = choose|p: int| 0 <= p < s.len() && s[p].key() == k;
                    assert(v2[p].key() == k);
                }
            }
        }
    }

    /// The `WindowFocusChanged(Some _)` transition: the named window gets the
    /// focus flag, every other window loses it.
    fn apply_focus_only(&mut self, win_id: WinId)
        requires
            old(self).wf(),
        ensures
            final(self).wf(),
            final(self)@ == (StateView {
                wss: old(self)@.wss,
                wins: focus_only(old(self)@.wins, win_id.0),
            }),
    {
        let ghost s = self.win_map.0@;
        let ghost m = map_of(s);
        proof {
            lemma_sorted_unique(s);
            lemma_map_of(s);
        }
        let len = self.win_map.0.len();
        let mut j: usize = 0;
        while j < len
            invariant
                self.ws_map == old(self).ws_map,
                len == s.len(),
                j <= len,
                self.win_map.0@.len() == s.len(),
                forall|p: int|
                    0 <= p < j ==> self.win_map.0@[p] == win_with_focus(
                        s[p],
                        s[p].key() == win_id.0,
                    ),
                forall|p: int| j <= p < len ==> self.win_map.0@[p] == s[p],
            decreases len - j,
        {
            let mut w = self.win_map.0.remove(j);
            let focus = w.id.0 == win_id.0;
            w.is_focus = focus;
            proof {
                assert(w == win_with_focus(s[j as int], s[j as int].key() == win_id.0));
            }
            self.win_map.0.insert(j, w);
            proof {
                assert(forall|p: int|
                    0 <= p < j ==> self.win_map.0@[p] == win_with_focus(
                        s[p],
                        s[p].key() == win_id.0,
                    ));
            }
            j = j + 1;
        }
        proof {
            self.lemma_elementwise_win_map(s, m, focus_only(m, win_id.0));
        }
    }

    /// Clears the focus flag on every window.
    fn clear_all_focus(&mut self)
        requires
            old(self).wf(),
        ensures
            final(self).wf(),
            final(self)@ == (StateView {
                wss: old(self)@.wss,
                wins: clear_focus(old(self)@.wins),
            }),
    {
        let ghost s = self.win_map.0@;
        let ghost m = map_of(s);
        proof {
            lemma_sorted_unique(s);
            lemma_map_of(s);
        }
        let len = self.win_map.0.len();
        let mut j: usize = 0;
        while j < len
            invariant
                self.ws_map == old(self).ws_map,
                len == s.len(),
                j <= len,
                self.win_map.0@.len() == s.len(),
                forall|p: int| 0 <= p < j ==> self.win_map.0@[p] == win_with_focus(s[p], false),
                forall|p: int| j <= p < len ==> self.win_map.0@[p] == s[p],
            decreases len - j,
        {
            let mut w = self.win_map.0.remove(j);
            w.is_focus = false;
            proof {
                assert(w == win_with_focus(s[j as int], false));
            }
            self.win_map.0.insert(j, w);
            proof {
                assert(forall|p: int|
                    0 <= p < j ==> self.win_map.0@[p] == win_with_focus(s[p], false));
            }
            j = j + 1;
        }
        proof {
            self.lemma_elementwise_win_map(s, m, clear_focus(m));
        }
    }

    /// After an elementwise rewrite that keeps keys, the new vector denotes
    /// the elementwise map.
    proof fn lemma_elementwise_win_map(
        &self,
        s: Seq<Window>,
        m: Map<u64, Window>,
        target: Map<u64, Window>,
    )
        requires
            sorted_keys(s),
            m == map_of(s),
            self.win_map.0@.len() == s.len(),
            forall|p: int| 0 <= p < s.len() ==> (#[trigger] self.win_map.0@[p]).key() == s[p].key(),
            forall|k: u64| #[trigger] target.contains_key(k) <==> m.contains_key(k),
            forall|p: int|
                0 <= p < s.len() ==> target.contains_key(s[p].key()) && (
                #[trigger] self.win_map.0@[p]) == target[s[p].key()],
        ensures
            self.win_map.wf(),
            self.win_map@ == target,
    {
        let v2 = self.win_map.0@;
        lemma_sorted_unique(s);
        assert(sorted_keys(v2));
        lemma_sorted_unique(v2);
        lemma_map_of(s);
        lemma_map_of(v2);
        assert(map_of(v2) =~= target) by {
            assert forall|k: u64| map_of(v2).contains_key(k) implies target.contains_key(k)
                && map_of(v2)[k] == target[k] by {
                let p = choose|p: int| 0 <= p < v2.len() && v2[p].key() == k;
                assert(s[p].key() == k);
                assert(map_of(v2)[k] == v2[p]);
            }
            assert forall|k: u64| target.contains_key(k) implies map_of(v2).contains_key(k) by {
                assert(m.contains_key(k));
                let p = choose|p: int| 0 <= p < s.len() && s[p].key() == k;
                assert(v2[p].key() == k);
            }
        }
    }

    /// The `WindowLayoutsChanged` transition, one patch at a time.
    fn apply_layout_changes(&mut self, changes: &Vec<(WinId, Option<WinIdx>)>)
        requires
            old(self).wf(),
        ensures
            final(self).wf(),
            final(self)@ == (StateView {
                wss: old(self)@.wss,
                wins: apply_layouts(old(self)@.wins, changes@),
            }),
    {
        let ghost m0 = map_of(self.win_map.0@);
        let mut i: usize = 0;
        while i < changes.len()
            invariant
                self.ws_map == old(self).ws_map,
                i <= changes@.len(),
                self.win_map.wf(),
                map_of(self.win_map.0@) == apply_layouts(m0, changes@.subrange(0, i as int)),
            decreases changes@.len() - i,
        {
            let ghost pre = self.win_map.0@;
            let ghost mpre = map_of(pre);
            proof {
                lemma_sorted_unique(pre);
                lemma_map_of(pre);
                assert(changes@.subrange(0, i + 1).drop_last() =~= changes@.subrange(0, i as int));
                assert(changes@.subrange(0, i + 1).last() == changes@[i as int]);
            }
            let change = &changes[i];
            match change.1 {
                Some(col) => {
                    match find_index(&self.win_map.0, change.0.0) {
                        Some(j) => {
                            let mut w = self.win_map.0.remove(j);
                            w.col_idx = Some(col);
                            self.win_map.0.insert(j, w);
                            proof {
                                assert(self.win_map.0@ =~= pre.update(j as int, w));
                                lemma_map_of_update(pre, j as int, w);
                                assert(sorted_keys(self.win_map.0@)) by {
                                    assert(forall|p: int|
                                        0 <= p < pre.len() ==> self.win_map.0@[p].key()
                                            == pre[p].key());
                                }
                                assert(w == win_with_col(mpre[change.0.0], col));
                            }
                        },
                        None => {
                            proof {
                                if mpre.contains_key(change.0.0) {
                                    let q = choose|q: int|
                                        0 <= q < pre.len() && pre[q].key() == change.0.0;
                                }
                            }
                        },
                    }
                },
                None => (),
            }
            i = i + 1;
        }
        proof {
            assert(changes@.subrange(0, changes@.len() as int) =~= changes@);
        }
    }
}

/// Compares the outputs of two workspaces.
fn opt_mon_eq(a: &Option<MonitorId>, b: &Option<MonitorId>) -> (r: bool)
    ensures
        r == (mon_view(*a) == mon_view(*b)),
{
    match (a, b) {
        (Some(ma), Some(mb)) => ma == mb,
        (None, None) => true,
        _ => false,
    }
}

/// What the stream hands the reducer: an event, or a transport error.
#[derive(Debug, Clone)]
pub enum Message {
    Event(Event),
    Error(crate::niri::stream::NiriStreamError),
}

impl State {
    /// Folds one message in: events are applied, transport errors leave the
    /// state as it is (the render layer decides how to surface them).
    pub fn update(&mut self, message: Message)
        requires
            old(self).wf(),
        ensures
            final(self).wf(),
            final(self)@ == match message {
                Message::Event(ev) => spec_apply(old(self)@, ev),
                Message::Error(_) => old(self)@,
            },
    {
        match message {
            Message::Event(ev) => self.apply(ev),
            Message::Error(_) => (),
        }
    }
}

} // verus!
