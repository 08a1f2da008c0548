//! Laws of the compositor state reducer.
//!
//! Each proof function states one property of the transition table in
//! `spec_apply` and is checked against it; the reducer's `apply` is proved to
//! follow that table, so the laws carry over to the executable state.

use vstd::prelude::*;

use crate::keyed::map_of;
use crate::niri::state::{activate_one, apply_layouts, mon_view, spec_apply, Event, StateView,
    WinId, WinIdx, Window, Workspace, WorkspaceId, win_with_focus, ws_with_urgent};

verus! {

/// A whole run of events, applied in arrival order.
pub open spec fn apply_all(s: StateView, evs: Seq<Event>) -> StateView
    decreases evs.len(),
{
    if evs.len() == 0 {
        s
    } else {
        spec_apply(apply_all(s, evs.drop_last()), evs.last())
    }
}

/// Law: a workspace snapshot replaces the whole workspace map.  After two
/// snapshot events, the map holds exactly the entries of the second list;
/// whatever the first snapshot or the state before it held is gone.
pub proof fn lemma_snapshot_replacement(
    s: StateView,
    first: Vec<Workspace>,
    second: Vec<Workspace>,
)
    ensures
        spec_apply(
            spec_apply(s, Event::WorkspacesChanged { workspaces: first }),
            Event::WorkspacesChanged { workspaces: second },
        ).wss == map_of(second@),
{
}

/// An event that upserts a window which arrives focused.
pub open spec fn is_focused_open(e: Event) -> bool {
    match e {
        Event::WindowOpenedOrChanged { window } => window.is_focus,
        _ => false,
    }
}

/// The id of the window such an event carries.
pub open spec fn opened_id(e: Event) -> u64 {
    match e {
        Event::WindowOpenedOrChanged { window } => window.id.0,
        _ => 0,
    }
}

/// One focused upsert leaves exactly one focused window: the incoming one.
pub proof fn lemma_focused_open_singleton(s: StateView, e: Event)
    requires
        is_focused_open(e),
    ensures
        spec_apply(s, e).wins.contains_key(opened_id(e)),
        forall|k: u64|
            #[trigger] spec_apply(s, e).wins.contains_key(k) ==> (spec_apply(
                s,
                e,
            ).wins[k].is_focus <==> k == opened_id(e)),
{
    let t = spec_apply(s, e);
    assert forall|k: u64| #[trigger] t.wins.contains_key(k) implies (t.wins[k].is_focus <==> k
        == opened_id(e)) by {
        if k != opened_id(e) {
            assert(t.wins[k] == win_with_focus(s.wins[k], false));
        }
    }
}

/// Law: after any non-empty run of window upserts in which every incoming
/// window is focused, exactly one window in the map is focused — the one the
/// last event carried.
pub proof fn lemma_focus_singleton(s: StateView, evs: Seq<Event>)
    requires
        evs.len() > 0,
        forall|i: int| 0 <= i < evs.len() ==> is_focused_open(#[trigger] evs[i]),
    ensures
        apply_all(s, evs).wins.contains_key(opened_id(evs.last())),
        forall|k: u64|
            #[trigger] apply_all(s, evs).wins.contains_key(k) ==> (apply_all(
                s,
                evs,
            ).wins[k].is_focus <==> k == opened_id(evs.last())),
{
    lemma_focused_open_singleton(apply_all(s, evs.drop_last()), evs.last());
}

/// Law: activity is a singleton per output.  Activating workspace `a` clears
/// `is_active` on any other workspace on the same output, leaves activity on
/// other outputs alone, and makes `a` active.
pub proof fn lemma_activation_per_output(s: StateView, a: u64, b: u64, focused: bool)
    requires
        s.keyed_by_id(),
        s.wss.contains_key(a),
        s.wss.contains_key(b),
        a != b,
    ensures
        spec_apply(
            s,
            Event::WorkspaceActivated { id: WorkspaceId(a), focused },
        ).wss[a].is_active,
        spec_apply(s, Event::WorkspaceActivated { id: WorkspaceId(a), focused }).wss[b].is_active
            == (if mon_view(s.wss[b].monitor_id) == mon_view(s.wss[a].monitor_id) {
            false
        } else {
            s.wss[b].is_active
        }),
{
    let t = spec_apply(s, Event::WorkspaceActivated { id: WorkspaceId(a), focused });
    let mon = mon_view(s.wss[a].monitor_id);
    assert(t.wss[a] == activate_one(s.wss[a], a, focused, mon));
    assert(t.wss[b] == activate_one(s.wss[b], a, focused, mon));
}

/// Law: urgency patches are idempotent.  Applying the same
/// `WorkspaceUrgencyChanged` twice in a row yields the same state as applying
/// it once.
pub proof fn lemma_urgency_patch_idempotent(s: StateView, id: u64, urgent: bool)
    ensures
        spec_apply(
            spec_apply(s, Event::WorkspaceUrgencyChanged { id: WorkspaceId(id), urgent }),
            Event::WorkspaceUrgencyChanged { id: WorkspaceId(id), urgent },
        ) == spec_apply(s, Event::WorkspaceUrgencyChanged { id: WorkspaceId(id), urgent }),
{
    let e = Event::WorkspaceUrgencyChanged { id: WorkspaceId(id), urgent };
    let t = spec_apply(s, e);
    let t2 = spec_apply(t, e);
    if s.wss.contains_key(id) {
        assert(t.wss[id] == ws_with_urgent(s.wss[id], urgent));
        assert(ws_with_urgent(t.wss[id], urgent) == t.wss[id]);
        assert(t2.wss =~= t.wss);
    }
    assert(t2 =~= t);
}

/// At most one workspace in the map is focused.
pub open spec fn ws_focus_singleton(m: Map<u64, Workspace>) -> bool {
    forall|k1: u64, k2: u64|
        #![trigger m[k1].is_focused, m[k2].is_focused]
        m.contains_key(k1) && m.contains_key(k2) && m[k1].is_focused && m[k2].is_focused ==> k1
            == k2
}

/// At most one workspace per output is active.
pub open spec fn ws_active_per_output(m: Map<u64, Workspace>) -> bool {
    forall|k1: u64, k2: u64|
        #![trigger m[k1].is_active, m[k2].is_active]
        m.contains_key(k1) && m.contains_key(k2) && m[k1].is_active && m[k2].is_active && mon_view(
            m[k1].monitor_id,
        ) == mon_view(m[k2].monitor_id) ==> k1 == k2
}

/// At most one window in the map is focused.
pub open spec fn win_focus_singleton(m: Map<u64, Window>) -> bool {
    forall|k1: u64, k2: u64|
        #![trigger m[k1].is_focus, m[k2].is_focus]
        m.contains_key(k1) && m.contains_key(k2) && m[k1].is_focus && m[k2].is_focus ==> k1 == k2
}

/// The cross-referential invariants of the reducer's state.
pub open spec fn state_invariants(s: StateView) -> bool {
    &&& ws_focus_singleton(s.wss)
    &&& ws_active_per_output(s.wss)
    &&& win_focus_singleton(s.wins)
}

/// A snapshot event carries the invariants itself: the reducer trusts
/// snapshots, so a compositor list that broke them would be taken as is.
pub open spec fn snapshot_invariants(ev: Event) -> bool {
    match ev {
        Event::WorkspacesChanged { workspaces } => ws_focus_singleton(map_of(workspaces@))
            && ws_active_per_output(map_of(workspaces@)),
        Event::WindowsChanged { windows } => win_focus_singleton(map_of(windows@)),
        _ => true,
    }
}

/// Column patches touch nothing but the column: the keys stay, and every
/// window keeps its focus flag.
proof fn lemma_layouts_keep_focus(m: Map<u64, Window>, changes: Seq<(WinId, Option<WinIdx>)>)
    ensures
        forall|k: u64|
            apply_layouts(m, changes).contains_key(k) <==> #[trigger] m.contains_key(k),
        forall|k: u64| #[trigger]
            m.contains_key(k) ==> apply_layouts(m, changes)[k].is_focus == m[k].is_focus,
    decreases changes.len(),
{
    if changes.len() > 0 {
        lemma_layouts_keep_focus(m, changes.drop_last());
    }
}

/// Law: every event preserves the reducer's invariants — at most one focused
/// workspace globally, at most one active workspace per output, at most one
/// focused window globally.  Snapshot events are the trust boundary: the
/// reducer takes their lists as they come, so they must carry the invariants
/// themselves.
pub proof fn lemma_apply_preserves_invariants(s: StateView, ev: Event)
    requires
        state_invariants(s),
        s.keyed_by_id(),
        snapshot_invariants(ev),
    ensures
        state_invariants(spec_apply(s, ev)),
{
    let t = spec_apply(s, ev);
    match ev {
        Event::WorkspaceActivated { id, focused } => {
            if s.wss.contains_key(id.0) {
                let mon = mon_view(s.wss[id.0].monitor_id);
                assert forall|k1: u64, k2: u64|
                    t.wss.contains_key(k1) && t.wss.contains_key(k2)
                        && #[trigger] t.wss[k1].is_focused && #[trigger] t.wss[k2].is_focused
                    implies k1 == k2 by {
                    assert(t.wss[k1] == activate_one(s.wss[k1], id.0, focused, mon));
                    assert(t.wss[k2] == activate_one(s.wss[k2], id.0, focused, mon));
                    assert(s.wss[k1].id.0 == k1 && s.wss[k2].id.0 == k2);
                }
                assert forall|k1: u64, k2: u64|
                    t.wss.contains_key(k1) && t.wss.contains_key(k2)
                        && #[trigger] t.wss[k1].is_active && #[trigger] t.wss[k2].is_active
                        && mon_view(t.wss[k1].monitor_id) == mon_view(t.wss[k2].monitor_id)
                    implies k1 == k2 by {
                    assert(t.wss[k1] == activate_one(s.wss[k1], id.0, focused, mon));
                    assert(t.wss[k2] == activate_one(s.wss[k2], id.0, focused, mon));
                    assert(s.wss[k1].id.0 == k1 && s.wss[k2].id.0 == k2);
                }
            }
        },
        Event::WorkspaceUrgencyChanged { id, .. } => {
            lemma_ws_value_patch(s.wss, t.wss, id.0);
        },
        Event::WorkspaceActiveWindowChanged { workspace_id, .. } => {
            lemma_ws_value_patch(s.wss, t.wss, workspace_id.0);
        },
        Event::WindowUrgencyChanged { id, .. } => {
            assert forall|k1: u64, k2: u64|
                t.wins.contains_key(k1) && t.wins.contains_key(k2)
                    && #[trigger] t.wins[k1].is_focus && #[trigger] t.wins[k2].is_focus
                implies k1 == k2 by {
                assert(t.wins[k1].is_focus == s.wins[k1].is_focus);
                assert(t.wins[k2].is_focus == s.wins[k2].is_focus);
            }
        },
        Event::WindowFocusChanged { id } => {
            match id {
                Some(win_id) => {
                    assert forall|k1: u64, k2: u64|
                        t.wins.contains_key(k1) && t.wins.contains_key(k2)
                            && #[trigger] t.wins[k1].is_focus && #[trigger] t.wins[k2].is_focus
                        implies k1 == k2 by {
                        assert(t.wins[k1] == win_with_focus(s.wins[k1], k1 == win_id.0));
                        assert(t.wins[k2] == win_with_focus(s.wins[k2], k2 == win_id.0));
                    }
                },
                None => (),
            }
        },
        Event::WindowOpenedOrChanged { window } => {
            assert forall|k1: u64, k2: u64|
                t.wins.contains_key(k1) && t.wins.contains_key(k2)
                    && #[trigger] t.wins[k1].is_focus && #[trigger] t.wins[k2].is_focus
                implies k1 == k2 by {
                if window.is_focus {
                    if k1 != window.id.0 {
                        assert(t.wins[k1] == win_with_focus(s.wins[k1], false));
                    }
                    if k2 != window.id.0 {
                        assert(t.wins[k2] == win_with_focus(s.wins[k2], false));
                    }
                } else {
                    assert(k1 != window.id.0 && k2 != window.id.0);
                    assert(s.wins[k1].is_focus && s.wins[k2].is_focus);
                }
            }
        },
        Event::WindowLayoutsChanged { changes } => {
            lemma_layouts_keep_focus(s.wins, changes@);
            assert forall|k1: u64, k2: u64|
                t.wins.contains_key(k1) && t.wins.contains_key(k2)
                    && #[trigger] t.wins[k1].is_focus && #[trigger] t.wins[k2].is_focus
                implies k1 == k2 by {
                assert(s.wins.contains_key(k1) && s.wins.contains_key(k2));
                assert(s.wins[k1].is_focus && s.wins[k2].is_focus);
            }
        },
        _ => (),
    }
}

/// A patch that rewrites one workspace's value while keeping its id, focus,
/// activity and output preserves both workspace singletons.
proof fn lemma_ws_value_patch(pre: Map<u64, Workspace>, post: Map<u64, Workspace>, id: u64)
    requires
        ws_focus_singleton(pre),
        ws_active_per_output(pre),
        forall|k: u64| post.contains_key(k) <==> #[trigger] pre.contains_key(k),
        forall|k: u64| #[trigger]
            pre.contains_key(k) ==> post[k].is_focused == pre[k].is_focused
                && post[k].is_active == pre[k].is_active && post[k].monitor_id
                == pre[k].monitor_id,
    ensures
        ws_focus_singleton(post),
        ws_active_per_output(post),
{
    assert forall|k1: u64, k2: u64|
        post.contains_key(k1) && post.contains_key(k2) && #[trigger] post[k1].is_focused
            && #[trigger] post[k2].is_focused implies k1 == k2 by {
        assert(pre.contains_key(k1) && pre.contains_key(k2));
        assert(pre[k1].is_focused && pre[k2].is_focused);
    }
    assert forall|k1: u64, k2: u64|
        post.contains_key(k1) && post.contains_key(k2) && #[trigger] post[k1].is_active
            && #[trigger] post[k2].is_active && mon_view(post[k1].monitor_id) == mon_view(
            post[k2].monitor_id,
        ) implies k1 == k2 by {
        assert(pre.contains_key(k1) && pre.contains_key(k2));
        assert(pre[k1].is_active && pre[k2].is_active);
        assert(mon_view(pre[k1].monitor_id) == mon_view(pre[k2].monitor_id));
    }
}

/// Law: a patch for an unknown window id is a no-op.  Applying
/// `WindowUrgencyChanged` for an id that is not in the window map leaves the
/// state exactly as it was.
pub proof fn lemma_unknown_id_patch_noop(s: StateView, id: u64, urgent: bool)
    requires
        !s.wins.contains_key(id),
    ensures
        spec_apply(s, Event::WindowUrgencyChanged { id: WinId(id), urgent }) == s,
{
    assert(spec_apply(s, Event::WindowUrgencyChanged { id: WinId(id), urgent }) =~= s);
}

} // verus!
