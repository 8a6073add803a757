//! The flat entity model: workspace and window records, the event type that
//! drives them, and the invariants the reducer maintains.

use vstd::prelude::*;

verus! {

/// A tile position inside a workspace's scrolling layout: column and row.
#[derive(Clone, Copy, PartialEq, Eq, Structural, Debug)]
pub struct TilePos {
    pub col: usize,
    pub row: usize,
}

/// One workspace record of the flat entity model.
#[derive(Debug)]
pub struct Workspace {
    /// Opaque identifier, stable for the workspace's lifetime.
    pub id: u64,
    /// Small ordinal position; not unique across outputs.
    pub idx: u8,
    /// Name of the physical display this workspace is assigned to, if any.
    pub output: Option<String>,
    /// True if this is the displayed workspace on its output.
    pub is_active: bool,
    /// True if this workspace holds input focus.
    pub is_focused: bool,
    /// Reference to a window, not an ownership relation.
    pub active_window_id: Option<u64>,
}

/// One window record of the flat entity model.
#[derive(Clone, Copy, Debug)]
pub struct Window {
    /// Opaque identifier.
    pub id: u64,
    /// Owning workspace, if assigned.
    pub workspace_id: Option<u64>,
    /// Floating windows are excluded from the hierarchical projection.
    pub is_floating: bool,
    /// True if this window holds input focus.
    pub is_focused: bool,
    /// Tile position; expected for any placed non-floating window.
    pub pos: Option<TilePos>,
}

/// A change of one window's tile position.
#[derive(Clone, Copy, Debug)]
pub struct LayoutChange {
    pub id: u64,
    pub pos: Option<TilePos>,
}

/// One event of the compositor's stream, reduced to what the model reads.
/// Kinds that never change the model are collapsed into `Other`.
#[allow(inconsistent_fields)]
pub enum Event {
    WorkspacesChanged { workspaces: Vec<Workspace> },
    WorkspaceActivated { id: u64, focused: bool },
    WorkspaceActiveWindowChanged { workspace_id: u64, active_window_id: Option<u64> },
    WindowsChanged { windows: Vec<Window> },
    WindowOpenedOrChanged { window: Window },
    WindowClosed { id: u64 },
    WindowFocusChanged { id: Option<u64> },
    WindowLayoutsChanged { changes: Vec<LayoutChange> },
    Other,
}

/// The flat authoritative state: workspaces and windows.
pub struct State {
    pub workspaces: Vec<Workspace>,
    pub windows: Vec<Window>,
}

impl State {
    /// The empty model, before any event has been applied.
    pub fn new() -> (s: State)
        ensures
            s.workspaces@ == Seq::<Workspace>::empty(),
            s.windows@ == Seq::<Window>::empty(),
    {
        State { workspaces: Vec::new(), windows: Vec::new() }
    }
}

/// The name of a workspace's optional output, as a character sequence.
pub open spec fn out_name(o: Option<String>) -> Option<Seq<char>> {
    match o {
        Some(s) => Some(s@),
        None => None,
    }
}

/// At most one workspace in the whole model holds input focus.
pub open spec fn at_most_one_focused_workspace(ws: Seq<Workspace>) -> bool {
    forall|i: int, j: int|
        0 <= i < ws.len() && 0 <= j < ws.len() && ws[i].is_focused && ws[j].is_focused ==> i == j
}

/// Among workspaces assigned to the same output, at most one is active.
pub open spec fn active_exclusive_per_output(ws: Seq<Workspace>) -> bool {
    forall|i: int, j: int|
        0 <= i < ws.len() && 0 <= j < ws.len() && ws[i].output is Some
            && out_name(ws[i].output) == out_name(ws[j].output) && ws[i].is_active
            && ws[j].is_active ==> i == j
}

/// At most one window in the whole model holds input focus.
pub open spec fn at_most_one_focused_window(wins: Seq<Window>) -> bool {
    forall|i: int, j: int|
        0 <= i < wins.len() && 0 <= j < wins.len() && wins[i].is_focused && wins[j].is_focused
            ==> i == j
}

/// No two workspace records share an identifier.
pub open spec fn unique_workspace_ids(ws: Seq<Workspace>) -> bool {
    forall|i: int, j: int|
        0 <= i < ws.len() && 0 <= j < ws.len() && ws[i].id == ws[j].id ==> i == j
}

/// No two window records share an identifier.
pub open spec fn unique_window_ids(wins: Seq<Window>) -> bool {
    forall|i: int, j: int|
        0 <= i < wins.len() && 0 <= j < wins.len() && wins[i].id == wins[j].id ==> i == j
}

} // verus!
