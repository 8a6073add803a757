//! The projected output -> workspace -> column -> window tree, and its
//! mathematical model: each executable node has a ghost counterpart whose
//! collections are sequences.

use vstd::prelude::*;

verus! {

/// A window entry inside a projected column.
#[derive(Clone, Copy, PartialEq, Eq, Structural, Debug)]
pub struct WindowEntry {
    pub id: u64,
    pub column: usize,
    pub is_focused: bool,
}

/// A column of a projected workspace: the windows grouped under one column
/// index, with derived aggregates.
#[derive(Debug)]
pub struct ColumnView {
    pub index: usize,
    pub windows: Vec<WindowEntry>,
    pub num_windows: usize,
    pub has_focused_window: bool,
}

/// A workspace of a projected output, columns in ascending index order.
#[derive(Debug)]
pub struct WorkspaceView {
    pub id: u64,
    pub index: u8,
    pub columns: Vec<ColumnView>,
    pub is_active: bool,
}

/// One output bucket of the projection, workspaces in ascending id order.
#[derive(Debug)]
pub struct OutputView {
    pub name: String,
    pub workspaces: Vec<WorkspaceView>,
}

/// The assembled projection: one bucket per output name, in order of first
/// appearance in the workspace list.
#[derive(Debug)]
pub struct OutputsView {
    pub outputs: Vec<OutputView>,
}

/// Ghost model of a projected column.
pub struct ColumnModel {
    pub index: usize,
    pub windows: Seq<WindowEntry>,
    pub num_windows: int,
    pub has_focused_window: bool,
}

/// Ghost model of a projected workspace.
pub struct WorkspaceModel {
    pub id: u64,
    pub index: u8,
    pub columns: Seq<ColumnModel>,
    pub is_active: bool,
}

/// Ghost model of one output bucket.
pub struct OutputModel {
    pub name: Seq<char>,
    pub workspaces: Seq<WorkspaceModel>,
}

impl ColumnView {
    /// The ghost model of this column.
    pub open spec fn deep(self) -> ColumnModel {
        ColumnModel {
            index: self.index,
            windows: self.windows@,
            num_windows: self.num_windows as int,
            has_focused_window: self.has_focused_window,
        }
    }
}

impl WorkspaceView {
    /// The ghost model of this workspace.
    pub open spec fn deep(self) -> WorkspaceModel {
        WorkspaceModel {
            id: self.id,
            index: self.index,
            columns: self.columns@.map_values(|c: ColumnView| c.deep()),
            is_active: self.is_active,
        }
    }
}

impl OutputView {
    /// The ghost model of this output bucket.
    pub open spec fn deep(self) -> OutputModel {
        OutputModel {
            name: self.name@,
            workspaces: self.workspaces@.map_values(|w: WorkspaceView| w.deep()),
        }
    }
}

impl OutputsView {
    /// The ghost model of the whole tree.
    pub open spec fn deep(self) -> Seq<OutputModel> {
        self.outputs@.map_values(|o: OutputView| o.deep())
    }
}

/// The ghost models of a sequence of output buckets.
pub open spec fn deep_outputs(s: Seq<OutputView>) -> Seq<OutputModel> {
    s.map_values(|o: OutputView| o.deep())
}

/// The ghost models of a sequence of workspace nodes.
pub open spec fn deep_workspaces(s: Seq<WorkspaceView>) -> Seq<WorkspaceModel> {
    s.map_values(|w: WorkspaceView| w.deep())
}

/// The ghost models of a sequence of columns.
pub open spec fn deep_columns(s: Seq<ColumnView>) -> Seq<ColumnModel> {
    s.map_values(|c: ColumnView| c.deep())
}

} // verus!
