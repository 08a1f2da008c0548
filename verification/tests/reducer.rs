use icedshell::config::MonitorId;
use icedshell::niri::monitors::{monitors_from_workspaces, Message as MonMessage, MonitorsServ};
use icedshell::niri::state::{
    Event, Message, State, WinId, WinIdx, Workspace, WorkspaceId, WorkspaceIdx, Window,
};
use icedshell::niri::stream::NiriStreamError;

fn ws(id: u64, idx: u8, output: &str, active: bool, focused: bool) -> Workspace {
    Workspace {
        id: WorkspaceId(id),
        idx: WorkspaceIdx(idx),
        is_urgent: false,
        is_active: active,
        is_focused: focused,
        monitor_id: Some(MonitorId(output.to_string())),
        active_win_id: None,
    }
}

fn win(id: u64, focused: bool) -> Window {
    Window {
        id: WinId(id),
        title: Some(format!("window {id}")),
        app_id: None,
        ws_id: Some(WorkspaceId(1)),
        col_idx: None,
        is_focus: focused,
        is_urgent: false,
        is_floating: false,
    }
}

#[test]
fn snapshot_replacement() {
    let mut state = State::new();
    state.apply(Event::WorkspacesChanged {
        workspaces: vec![ws(1, 0, "DP-1", true, true), ws(2, 1, "DP-1", false, false)],
    });
    assert_eq!(state.iter_ws().len(), 2);
    state.apply(Event::WorkspacesChanged { workspaces: vec![ws(3, 0, "DP-2", true, false)] });
    let wss = state.iter_ws();
    assert_eq!(wss.len(), 1);
    assert_eq!(wss[0].id, WorkspaceId(3));
}

#[test]
fn snapshot_orders_by_id() {
    let mut state = State::new();
    state.apply(Event::WorkspacesChanged {
        workspaces: vec![ws(9, 0, "DP-1", false, false), ws(2, 1, "DP-1", false, false)],
    });
    let wss = state.iter_ws();
    assert_eq!(wss[0].id, WorkspaceId(2));
    assert_eq!(wss[1].id, WorkspaceId(9));
}

#[test]
fn unknown_activation_is_noop() {
    let mut state = State::new();
    state.apply(Event::WorkspacesChanged { workspaces: vec![ws(1, 0, "DP-1", true, true)] });
    state.apply(Event::WorkspaceActivated { id: WorkspaceId(2), focused: true });
    let wss = state.iter_ws();
    assert_eq!(wss.len(), 1);
    assert_eq!(wss[0].id, WorkspaceId(1));
    assert!(wss[0].is_active);
    assert!(wss[0].is_focused);
}

#[test]
fn activation_is_per_output() {
    let mut state = State::new();
    state.apply(Event::WorkspacesChanged {
        workspaces: vec![
            ws(1, 0, "DP-1", true, true),
            ws(2, 1, "DP-1", false, false),
            ws(3, 0, "DP-2", false, false),
        ],
    });
    state.apply(Event::WorkspaceActivated { id: WorkspaceId(2), focused: true });
    let wss = state.iter_ws();
    assert!(!wss[0].is_active, "other workspace on the same output loses activity");
    assert!(!wss[0].is_focused);
    assert!(wss[1].is_active);
    assert!(wss[1].is_focused);
    state.apply(Event::WorkspaceActivated { id: WorkspaceId(3), focused: false });
    let wss = state.iter_ws();
    assert!(wss[1].is_active, "activation on another output leaves DP-1 alone");
    assert!(wss[1].is_focused, "focus stays when the event does not grant it");
    assert!(wss[2].is_active);
    assert!(!wss[2].is_focused);
}

#[test]
fn urgency_patch_is_idempotent() {
    let mut once = State::new();
    once.apply(Event::WorkspacesChanged { workspaces: vec![ws(1, 0, "DP-1", true, false)] });
    let mut twice = State::new();
    twice.apply(Event::WorkspacesChanged { workspaces: vec![ws(1, 0, "DP-1", true, false)] });
    once.apply(Event::WorkspaceUrgencyChanged { id: WorkspaceId(1), urgent: true });
    twice.apply(Event::WorkspaceUrgencyChanged { id: WorkspaceId(1), urgent: true });
    twice.apply(Event::WorkspaceUrgencyChanged { id: WorkspaceId(1), urgent: true });
    assert!(once.iter_ws()[0].is_urgent);
    assert_eq!(once.iter_ws()[0], twice.iter_ws()[0]);
}

#[test]
fn unknown_window_patch_is_noop() {
    let mut state = State::new();
    state.apply(Event::WindowsChanged { windows: vec![win(10, false)] });
    state.apply(Event::WindowUrgencyChanged { id: WinId(99), urgent: true });
    let wins = state.iter_win();
    assert_eq!(wins.len(), 1);
    assert_eq!(wins[0], win(10, false));
}

#[test]
fn focused_upserts_keep_one_focus() {
    let mut state = State::new();
    state.apply(Event::WindowOpenedOrChanged { window: win(10, true) });
    state.apply(Event::WindowOpenedOrChanged { window: win(11, true) });
    let w10 = state.get_win(&WinId(10)).expect("window 10 is there");
    let w11 = state.get_win(&WinId(11)).expect("window 11 is there");
    assert!(!w10.is_focus);
    assert!(w11.is_focus);
    assert_eq!(state.iter_win().iter().filter(|w| w.is_focus).count(), 1);
}

#[test]
fn focus_change_moves_the_flag() {
    let mut state = State::new();
    state.apply(Event::WindowsChanged { windows: vec![win(10, true), win(11, false)] });
    state.apply(Event::WindowFocusChanged { id: Some(WinId(11)) });
    assert!(!state.get_win(&WinId(10)).unwrap().is_focus);
    assert!(state.get_win(&WinId(11)).unwrap().is_focus);
    // a cleared focus is a no-op: window 11 stays marked
    state.apply(Event::WindowFocusChanged { id: None });
    assert!(state.get_win(&WinId(11)).unwrap().is_focus);
}

#[test]
fn window_closed_removes_it() {
    let mut state = State::new();
    state.apply(Event::WindowsChanged { windows: vec![win(10, false), win(11, false)] });
    state.apply(Event::WindowClosed { id: WinId(10) });
    assert!(state.get_win(&WinId(10)).is_none());
    assert!(state.get_win(&WinId(11)).is_some());
}

#[test]
fn layout_changes_patch_columns() {
    let mut state = State::new();
    state.apply(Event::WindowsChanged { windows: vec![win(10, false), win(11, false)] });
    state.apply(Event::WindowLayoutsChanged {
        changes: vec![
            (WinId(10), Some(WinIdx(3))),
            (WinId(11), None),
            (WinId(99), Some(WinIdx(1))),
        ],
    });
    assert_eq!(state.get_win(&WinId(10)).unwrap().col_idx, Some(WinIdx(3)));
    assert_eq!(state.get_win(&WinId(11)).unwrap().col_idx, None);
}

#[test]
fn active_window_changed_patches_workspace() {
    let mut state = State::new();
    state.apply(Event::WorkspacesChanged { workspaces: vec![ws(1, 0, "DP-1", true, true)] });
    state.apply(Event::WorkspaceActiveWindowChanged {
        workspace_id: WorkspaceId(1),
        active_window_id: Some(WinId(42)),
    });
    assert_eq!(state.iter_ws()[0].active_win_id, Some(WinId(42)));
}

#[test]
fn ignored_events_change_nothing() {
    let mut state = State::new();
    state.apply(Event::WorkspacesChanged { workspaces: vec![ws(1, 0, "DP-1", true, true)] });
    let before = state.iter_ws().clone();
    state.apply(Event::ConfigLoaded { failed: false });
    state.apply(Event::OverviewOpenedOrClosed { is_open: true });
    state.apply(Event::KeyboardLayoutSwitched { idx: 1 });
    state.apply(Event::ScreenshotCaptured);
    state.apply(Event::WindowFocusTimestampChanged { id: WinId(1) });
    state.apply(Event::KeyboardLayoutsChanged);
    assert_eq!(*state.iter_ws(), before);
}

#[test]
fn stream_error_message_leaves_state() {
    let mut state = State::new();
    state.apply(Event::WorkspacesChanged { workspaces: vec![ws(1, 0, "DP-1", true, true)] });
    state.update(Message::Error(NiriStreamError::NiriNoSocket));
    state.update(Message::Error(NiriStreamError::NiriConnectionClosed));
    state.update(Message::Error(NiriStreamError::NiriConnectionError("refused".to_string())));
    assert_eq!(state.iter_ws().len(), 1);
    state.update(Message::Event(Event::WorkspaceUrgencyChanged {
        id: WorkspaceId(1),
        urgent: true,
    }));
    assert!(state.iter_ws()[0].is_urgent);
}

#[test]
fn workspace_idx_get() {
    assert_eq!(WorkspaceIdx(4).get(), 4);
    assert_eq!(MonitorId("DP-1".to_string()).get(), "DP-1".to_string());
}

#[test]
fn monitors_dedup_first_appearance() {
    let list = vec![
        ws(1, 0, "DP-2", true, false),
        ws(2, 1, "DP-1", false, false),
        ws(3, 2, "DP-2", false, false),
    ];
    let monitors = monitors_from_workspaces(&list);
    assert_eq!(monitors.len(), 2);
    assert_eq!(monitors[0].get(), "DP-2");
    assert_eq!(monitors[1].get(), "DP-1");
}

#[test]
fn monitors_skip_detached_workspaces() {
    let detached = Workspace { monitor_id: None, ..ws(1, 0, "x", false, false) };
    let monitors = monitors_from_workspaces(&vec![detached]);
    assert_eq!(monitors.len(), 0);
}

#[test]
fn monitors_service_updates() {
    let mut serv = MonitorsServ::new();
    assert_eq!(serv.len(), 0);
    serv.update(MonMessage::UpdateMonitors(vec![
        MonitorId("DP-1".to_string()),
        MonitorId("DP-2".to_string()),
    ]));
    assert_eq!(serv.len(), 2);
    assert_eq!(serv.iter()[0].get(), "DP-1");
}
