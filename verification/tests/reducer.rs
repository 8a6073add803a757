use niri_bridge::Event;
use niri_bridge::LayoutChange;
use niri_bridge::ReduceError;
use niri_bridge::State;
use niri_bridge::TilePos;
use niri_bridge::Window;
use niri_bridge::Workspace;

fn ws(id: u64, idx: u8, output: Option<&str>, is_active: bool, is_focused: bool) -> Workspace {
    Workspace {
        id,
        idx,
        output: output.map(|s| s.to_string()),
        is_active,
        is_focused,
        active_window_id: None,
    }
}

fn win(
    id: u64,
    workspace_id: Option<u64>,
    is_floating: bool,
    is_focused: bool,
    pos: Option<(usize, usize)>,
) -> Window {
    Window {
        id,
        workspace_id,
        is_floating,
        is_focused,
        pos: pos.map(|(col, row)| TilePos { col, row }),
    }
}

#[test]
fn replace_workspaces_verbatim() {
    let mut state = State::new();
    let r = state.apply(Event::WorkspacesChanged {
        workspaces: vec![ws(1, 1, Some("eDP-1"), true, false), ws(2, 2, None, false, false)],
    });
    assert!(r.is_ok());
    assert_eq!(state.workspaces.len(), 2);
    assert_eq!(state.workspaces[0].id, 1);
    assert_eq!(state.workspaces[0].output.as_deref(), Some("eDP-1"));
    assert_eq!(state.workspaces[1].id, 2);
    assert!(state.workspaces[1].output.is_none());
}

#[test]
fn activate_second_workspace_on_same_output() {
    // Two workspaces on output "A"; activating id 2 with focus deactivates 1.
    let mut state = State::new();
    state
        .apply(Event::WorkspacesChanged {
            workspaces: vec![ws(1, 1, Some("A"), true, true), ws(2, 2, Some("A"), false, false)],
        })
        .unwrap();
    state.apply(Event::WorkspaceActivated { id: 2, focused: true }).unwrap();
    assert!(!state.workspaces[0].is_active);
    assert!(!state.workspaces[0].is_focused);
    assert!(state.workspaces[1].is_active);
    assert!(state.workspaces[1].is_focused);
}

#[test]
fn activate_keeps_other_outputs_untouched() {
    let mut state = State::new();
    state
        .apply(Event::WorkspacesChanged {
            workspaces: vec![
                ws(1, 1, Some("A"), true, false),
                ws(2, 1, Some("B"), true, true),
                ws(3, 2, Some("A"), false, false),
            ],
        })
        .unwrap();
    state.apply(Event::WorkspaceActivated { id: 3, focused: true }).unwrap();
    // Output "A": only id 3 is active; output "B" keeps its active workspace.
    assert!(!state.workspaces[0].is_active);
    assert!(state.workspaces[1].is_active);
    assert!(state.workspaces[2].is_active);
    // Focus moved to id 3 alone.
    let focused: Vec<u64> =
        state.workspaces.iter().filter(|w| w.is_focused).map(|w| w.id).collect();
    assert_eq!(focused, vec![3]);
}

#[test]
fn activate_without_focus_keeps_focus_elsewhere() {
    let mut state = State::new();
    state
        .apply(Event::WorkspacesChanged {
            workspaces: vec![ws(1, 1, Some("A"), true, true), ws(2, 1, Some("B"), false, false)],
        })
        .unwrap();
    state.apply(Event::WorkspaceActivated { id: 2, focused: false }).unwrap();
    assert!(state.workspaces[0].is_focused);
    assert!(!state.workspaces[1].is_focused);
    assert!(state.workspaces[1].is_active);
    assert!(state.workspaces[0].is_active);
}

#[test]
fn activate_unknown_workspace_is_an_error() {
    let mut state = State::new();
    state
        .apply(Event::WorkspacesChanged { workspaces: vec![ws(1, 1, Some("A"), true, false)] })
        .unwrap();
    let r = state.apply(Event::WorkspaceActivated { id: 9, focused: true });
    assert_eq!(r, Err(ReduceError::WorkspaceNotFound));
    // The model is left as it was.
    assert_eq!(state.workspaces.len(), 1);
    assert!(state.workspaces[0].is_active);
    assert!(!state.workspaces[0].is_focused);
}

#[test]
fn active_window_changed_sets_reference() {
    let mut state = State::new();
    state
        .apply(Event::WorkspacesChanged { workspaces: vec![ws(1, 1, Some("A"), true, false)] })
        .unwrap();
    state
        .apply(Event::WorkspaceActiveWindowChanged { workspace_id: 1, active_window_id: Some(7) })
        .unwrap();
    assert_eq!(state.workspaces[0].active_window_id, Some(7));
    // Unknown workspace: a no-op, not an error.
    let r = state
        .apply(Event::WorkspaceActiveWindowChanged { workspace_id: 5, active_window_id: None });
    assert!(r.is_ok());
    assert_eq!(state.workspaces[0].active_window_id, Some(7));
}

#[test]
fn open_appends_new_window() {
    let mut state = State::new();
    state
        .apply(Event::WindowOpenedOrChanged { window: win(10, Some(1), false, false, Some((0, 0))) })
        .unwrap();
    assert_eq!(state.windows.len(), 1);
    assert_eq!(state.windows[0].id, 10);
}

#[test]
fn open_replaces_existing_window_in_place() {
    let mut state = State::new();
    state
        .apply(Event::WindowsChanged {
            windows: vec![
                win(10, Some(1), false, false, Some((0, 0))),
                win(11, Some(1), false, false, Some((1, 0))),
            ],
        })
        .unwrap();
    state
        .apply(Event::WindowOpenedOrChanged { window: win(10, Some(2), true, false, None) })
        .unwrap();
    assert_eq!(state.windows.len(), 2);
    assert_eq!(state.windows[0].id, 10);
    assert_eq!(state.windows[0].workspace_id, Some(2));
    assert!(state.windows[0].is_floating);
    assert_eq!(state.windows[1].id, 11);
}

#[test]
fn open_focused_window_unfocuses_the_rest() {
    let mut state = State::new();
    state
        .apply(Event::WindowsChanged {
            windows: vec![
                win(10, Some(1), false, true, Some((0, 0))),
                win(11, Some(1), false, false, Some((1, 0))),
            ],
        })
        .unwrap();
    state
        .apply(Event::WindowOpenedOrChanged { window: win(12, Some(1), false, true, Some((2, 0))) })
        .unwrap();
    let focused: Vec<u64> = state.windows.iter().filter(|w| w.is_focused).map(|w| w.id).collect();
    assert_eq!(focused, vec![12]);
}

#[test]
fn close_removes_window() {
    let mut state = State::new();
    state
        .apply(Event::WindowsChanged {
            windows: vec![
                win(10, Some(1), false, false, Some((0, 0))),
                win(11, Some(1), false, false, Some((1, 0))),
            ],
        })
        .unwrap();
    state.apply(Event::WindowClosed { id: 10 }).unwrap();
    assert_eq!(state.windows.len(), 1);
    assert_eq!(state.windows[0].id, 11);
}

#[test]
fn close_unknown_window_changes_nothing() {
    // Scenario: a close for an id not in the model leaves the state unchanged.
    let mut state = State::new();
    state
        .apply(Event::WindowsChanged { windows: vec![win(10, Some(1), false, true, Some((0, 0)))] })
        .unwrap();
    let r = state.apply(Event::WindowClosed { id: 99 });
    assert!(r.is_ok());
    assert_eq!(state.windows.len(), 1);
    assert_eq!(state.windows[0].id, 10);
    assert!(state.windows[0].is_focused);
}

#[test]
fn focus_change_moves_focus() {
    let mut state = State::new();
    state
        .apply(Event::WindowsChanged {
            windows: vec![
                win(10, Some(1), false, true, Some((0, 0))),
                win(11, Some(1), false, false, Some((1, 0))),
            ],
        })
        .unwrap();
    state.apply(Event::WindowFocusChanged { id: Some(11) }).unwrap();
    let focused: Vec<u64> = state.windows.iter().filter(|w| w.is_focused).map(|w| w.id).collect();
    assert_eq!(focused, vec![11]);
}

#[test]
fn focus_change_to_none_clears_all_focus() {
    let mut state = State::new();
    state
        .apply(Event::WindowsChanged { windows: vec![win(10, Some(1), false, true, Some((0, 0)))] })
        .unwrap();
    state.apply(Event::WindowFocusChanged { id: None }).unwrap();
    assert!(state.windows.iter().all(|w| !w.is_focused));
}

#[test]
fn layouts_changed_updates_positions() {
    let mut state = State::new();
    state
        .apply(Event::WindowsChanged {
            windows: vec![
                win(10, Some(1), false, false, Some((0, 0))),
                win(11, Some(1), false, false, Some((1, 0))),
            ],
        })
        .unwrap();
    state
        .apply(Event::WindowLayoutsChanged {
            changes: vec![
                LayoutChange { id: 10, pos: Some(TilePos { col: 3, row: 1 }) },
                LayoutChange { id: 77, pos: Some(TilePos { col: 9, row: 9 }) },
            ],
        })
        .unwrap();
    assert_eq!(state.windows[0].pos, Some(TilePos { col: 3, row: 1 }));
    // The entry for the unknown id 77 was ignored.
    assert_eq!(state.windows[1].pos, Some(TilePos { col: 1, row: 0 }));
}

#[test]
fn other_events_change_nothing() {
    let mut state = State::new();
    state
        .apply(Event::WorkspacesChanged { workspaces: vec![ws(1, 1, Some("A"), true, false)] })
        .unwrap();
    state.apply(Event::Other).unwrap();
    assert_eq!(state.workspaces.len(), 1);
    assert_eq!(state.windows.len(), 0);
}

#[test]
fn focus_stays_exclusive_across_a_session() {
    let mut state = State::new();
    state
        .apply(Event::WorkspacesChanged {
            workspaces: vec![ws(1, 1, Some("A"), true, false), ws(2, 2, Some("A"), false, false)],
        })
        .unwrap();
    state.apply(Event::WorkspaceActivated { id: 1, focused: true }).unwrap();
    state.apply(Event::WorkspaceActivated { id: 2, focused: true }).unwrap();
    assert_eq!(state.workspaces.iter().filter(|w| w.is_focused).count(), 1);
    assert_eq!(state.workspaces.iter().filter(|w| w.is_active).count(), 1);
    state
        .apply(Event::WindowOpenedOrChanged { window: win(10, Some(2), false, true, Some((0, 0))) })
        .unwrap();
    state
        .apply(Event::WindowOpenedOrChanged { window: win(11, Some(2), false, true, Some((1, 0))) })
        .unwrap();
    state.apply(Event::WindowFocusChanged { id: Some(10) }).unwrap();
    assert_eq!(state.windows.iter().filter(|w| w.is_focused).count(), 1);
    assert!(state.windows[0].is_focused);
}
