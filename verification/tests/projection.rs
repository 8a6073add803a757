use niri_bridge::Event;
use niri_bridge::OutputsView;
use niri_bridge::ProjectError;
use niri_bridge::State;
use niri_bridge::TilePos;
use niri_bridge::Window;
use niri_bridge::Workspace;

fn ws(id: u64, idx: u8, output: Option<&str>, is_active: bool, is_focused: bool) -> Workspace {
    Workspace {
        id,
        idx,
        output: output.map(|s| s.to_string()),
        is_active,
        is_focused,
        active_window_id: None,
    }
}

fn win(
    id: u64,
    workspace_id: Option<u64>,
    is_floating: bool,
    is_focused: bool,
    pos: Option<(usize, usize)>,
) -> Window {
    Window {
        id,
        workspace_id,
        is_floating,
        is_focused,
        pos: pos.map(|(col, row)| TilePos { col, row }),
    }
}

fn trees_equal(a: &OutputsView, b: &OutputsView) -> bool {
    if a.outputs.len() != b.outputs.len() {
        return false;
    }
    for (oa, ob) in a.outputs.iter().zip(b.outputs.iter()) {
        if oa.name != ob.name || oa.workspaces.len() != ob.workspaces.len() {
            return false;
        }
        for (wa, wb) in oa.workspaces.iter().zip(ob.workspaces.iter()) {
            if wa.id != wb.id || wa.index != wb.index || wa.is_active != wb.is_active
                || wa.columns.len() != wb.columns.len()
            {
                return false;
            }
            for (ca, cb) in wa.columns.iter().zip(wb.columns.iter()) {
                if ca.index != cb.index || ca.num_windows != cb.num_windows
                    || ca.has_focused_window != cb.has_focused_window
                    || ca.windows != cb.windows
                {
                    return false;
                }
            }
        }
    }
    true
}

fn tree_holds_window(v: &OutputsView, id: u64) -> bool {
    v.outputs.iter().any(|o| {
        o.workspaces
            .iter()
            .any(|w| w.columns.iter().any(|c| c.windows.iter().any(|e| e.id == id)))
    })
}

#[test]
fn single_workspace_single_window() {
    // Scenario: one active workspace on "eDP-1" and one focused tiled window.
    let mut state = State::new();
    state
        .apply(Event::WorkspacesChanged { workspaces: vec![ws(1, 1, Some("eDP-1"), true, false)] })
        .unwrap();
    state
        .apply(Event::WindowOpenedOrChanged { window: win(10, Some(1), false, true, Some((0, 0))) })
        .unwrap();
    let v = state.project().unwrap();
    assert_eq!(v.outputs.len(), 1);
    assert_eq!(v.outputs[0].name, "eDP-1");
    assert_eq!(v.outputs[0].workspaces.len(), 1);
    let w = &v.outputs[0].workspaces[0];
    assert_eq!(w.id, 1);
    assert!(w.is_active);
    assert_eq!(w.columns.len(), 1);
    let c = &w.columns[0];
    assert_eq!(c.index, 0);
    assert_eq!(c.num_windows, 1);
    assert!(c.has_focused_window);
    assert_eq!(c.windows.len(), 1);
    assert_eq!(c.windows[0].id, 10);
    assert_eq!(c.windows[0].column, 0);
    assert!(c.windows[0].is_focused);
}

#[test]
fn floating_window_never_projected() {
    // Scenario: a floating window appears under no output, whatever else it carries.
    let mut state = State::new();
    state
        .apply(Event::WorkspacesChanged { workspaces: vec![ws(1, 1, Some("A"), true, false)] })
        .unwrap();
    state
        .apply(Event::WindowOpenedOrChanged { window: win(10, Some(1), true, true, Some((0, 0))) })
        .unwrap();
    let v = state.project().unwrap();
    assert!(!tree_holds_window(&v, 10));
    assert_eq!(v.outputs[0].workspaces[0].columns.len(), 0);
}

#[test]
fn window_without_workspace_never_projected() {
    let mut state = State::new();
    state
        .apply(Event::WorkspacesChanged { workspaces: vec![ws(1, 1, Some("A"), true, false)] })
        .unwrap();
    state.apply(Event::WindowOpenedOrChanged { window: win(10, None, false, false, None) }).unwrap();
    let v = state.project().unwrap();
    assert!(!tree_holds_window(&v, 10));
}

#[test]
fn workspace_without_output_dropped() {
    let mut state = State::new();
    state
        .apply(Event::WorkspacesChanged {
            workspaces: vec![ws(1, 1, Some("A"), true, false), ws(2, 2, None, false, false)],
        })
        .unwrap();
    let v = state.project().unwrap();
    assert_eq!(v.outputs.len(), 1);
    assert_eq!(v.outputs[0].workspaces.len(), 1);
    assert_eq!(v.outputs[0].workspaces[0].id, 1);
}

#[test]
fn closed_window_absent_from_projection() {
    let mut state = State::new();
    state
        .apply(Event::WorkspacesChanged { workspaces: vec![ws(1, 1, Some("A"), true, false)] })
        .unwrap();
    state
        .apply(Event::WindowOpenedOrChanged { window: win(10, Some(1), false, false, Some((0, 0))) })
        .unwrap();
    state
        .apply(Event::WindowOpenedOrChanged { window: win(11, Some(1), false, false, Some((0, 1))) })
        .unwrap();
    state.apply(Event::WindowClosed { id: 10 }).unwrap();
    let v = state.project().unwrap();
    assert!(!tree_holds_window(&v, 10));
    assert!(tree_holds_window(&v, 11));
    assert_eq!(v.outputs[0].workspaces[0].columns[0].num_windows, 1);
}

#[test]
fn projection_is_deterministic() {
    let mut state = State::new();
    state
        .apply(Event::WorkspacesChanged {
            workspaces: vec![
                ws(3, 2, Some("B"), false, false),
                ws(1, 1, Some("A"), true, false),
                ws(2, 1, Some("B"), true, true),
            ],
        })
        .unwrap();
    state
        .apply(Event::WindowsChanged {
            windows: vec![
                win(10, Some(1), false, false, Some((1, 0))),
                win(11, Some(2), false, true, Some((0, 0))),
                win(12, Some(1), false, false, Some((1, 1))),
            ],
        })
        .unwrap();
    let a = state.project().unwrap();
    let b = state.project().unwrap();
    assert!(trees_equal(&a, &b));
}

#[test]
fn workspaces_and_columns_come_out_sorted() {
    let mut state = State::new();
    state
        .apply(Event::WorkspacesChanged {
            workspaces: vec![
                ws(5, 2, Some("A"), false, false),
                ws(2, 1, Some("A"), true, false),
                ws(9, 3, Some("A"), false, false),
            ],
        })
        .unwrap();
    state
        .apply(Event::WindowsChanged {
            windows: vec![
                win(10, Some(2), false, false, Some((4, 0))),
                win(11, Some(2), false, false, Some((1, 0))),
                win(12, Some(2), false, true, Some((4, 1))),
            ],
        })
        .unwrap();
    let v = state.project().unwrap();
    let ids: Vec<u64> = v.outputs[0].workspaces.iter().map(|w| w.id).collect();
    assert_eq!(ids, vec![2, 5, 9]);
    let wsv = &v.outputs[0].workspaces[0];
    let cols: Vec<usize> = wsv.columns.iter().map(|c| c.index).collect();
    assert_eq!(cols, vec![1, 4]);
    // Windows of column 4 keep the model's order, and the aggregates follow.
    let c4 = &wsv.columns[1];
    assert_eq!(c4.num_windows, 2);
    assert!(c4.has_focused_window);
    let entries: Vec<u64> = c4.windows.iter().map(|e| e.id).collect();
    assert_eq!(entries, vec![10, 12]);
    let c1 = &wsv.columns[0];
    assert!(!c1.has_focused_window);
    assert_eq!(c1.num_windows, 1);
}

#[test]
fn one_bucket_per_output_name() {
    let mut state = State::new();
    state
        .apply(Event::WorkspacesChanged {
            workspaces: vec![
                ws(1, 1, Some("A"), true, false),
                ws(2, 1, Some("B"), true, false),
                ws(3, 2, Some("A"), false, false),
            ],
        })
        .unwrap();
    let v = state.project().unwrap();
    assert_eq!(v.outputs.len(), 2);
    let names: Vec<&str> = v.outputs.iter().map(|o| o.name.as_str()).collect();
    assert_eq!(names, vec!["A", "B"]);
    assert_eq!(v.outputs[0].workspaces.len(), 2);
    assert_eq!(v.outputs[1].workspaces.len(), 1);
}

#[test]
fn unresolved_workspace_is_an_error() {
    let mut state = State::new();
    state
        .apply(Event::WorkspacesChanged { workspaces: vec![ws(1, 1, Some("A"), true, false)] })
        .unwrap();
    state
        .apply(Event::WindowOpenedOrChanged { window: win(10, Some(9), false, false, Some((0, 0))) })
        .unwrap();
    assert_eq!(state.project().unwrap_err(), ProjectError::WorkspaceNotFound);
}

#[test]
fn workspace_without_output_cannot_own_tiled_window() {
    // The owning workspace exists but sits under no bucket: an error, as the
    // window cannot be rendered anywhere.
    let mut state = State::new();
    state
        .apply(Event::WorkspacesChanged { workspaces: vec![ws(1, 1, None, true, false)] })
        .unwrap();
    state
        .apply(Event::WindowOpenedOrChanged { window: win(10, Some(1), false, false, Some((0, 0))) })
        .unwrap();
    assert_eq!(state.project().unwrap_err(), ProjectError::WorkspaceNotFound);
}

#[test]
fn missing_tile_position_is_an_error() {
    let mut state = State::new();
    state
        .apply(Event::WorkspacesChanged { workspaces: vec![ws(1, 1, Some("A"), true, false)] })
        .unwrap();
    state
        .apply(Event::WindowOpenedOrChanged { window: win(10, Some(1), false, false, None) })
        .unwrap();
    assert_eq!(state.project().unwrap_err(), ProjectError::MissingTilePosition);
}

#[test]
fn empty_model_projects_to_empty_tree() {
    let state = State::new();
    let v = state.project().unwrap();
    assert_eq!(v.outputs.len(), 0);
}
