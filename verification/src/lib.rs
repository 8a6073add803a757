//! In-memory model of a scrolling-tile compositor's outputs, workspaces and
//! windows, kept consistent under an incremental event stream, together with a
//! projector that reshapes the flat model into a nested
//! output -> workspace -> column -> window view.

mod laws;
mod model;
mod projector;
mod reducer;
mod seqs;
mod view;

pub use laws::lemma_activate_keeps_exclusivity;
pub use laws::lemma_close_removes_window;
pub use laws::lemma_closed_window_not_projected;
pub use laws::lemma_focus_change_exclusive;
pub use laws::lemma_buckets_wf;
pub use laws::lemma_project_ok_iff;
pub use laws::lemma_projection_deterministic;
pub use laws::lemma_skipped_window_not_projected;
pub use laws::lemma_upsert_keeps_focus_exclusive;
pub use laws::lemma_projection_well_formed;
pub use laws::placeable;
pub use laws::column_wf;
pub use laws::columns_sorted;
pub use laws::output_wf;
pub use laws::tree_has_window_id;
pub use laws::tree_wf;
pub use laws::workspace_wf;
pub use laws::ws_ids_sorted;
pub use model::Event;
pub use model::LayoutChange;
pub use model::State;
pub use model::TilePos;
pub use model::Window;
pub use model::Workspace;
pub use model::active_exclusive_per_output;
pub use model::at_most_one_focused_window;
pub use model::at_most_one_focused_workspace;
pub use model::out_name;
pub use model::unique_window_ids;
pub use model::unique_workspace_ids;
pub use projector::ProjectError;
pub use projector::project_spec;
pub use reducer::ReduceError;
pub use reducer::reduced;
pub use view::ColumnView;
pub use view::OutputView;
pub use view::OutputsView;
pub use view::WindowEntry;
pub use view::WorkspaceView;
