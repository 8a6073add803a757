//! The library's stated guarantees, proved once and for all over the spec
//! functions that the reducer's and projector's contracts use.

use vstd::prelude::*;

use crate::model::Window;
use crate::model::Workspace;
use crate::model::active_exclusive_per_output;
use crate::model::at_most_one_focused_window;
use crate::model::at_most_one_focused_workspace;
use crate::model::out_name;
use crate::model::unique_window_ids;
use crate::model::unique_workspace_ids;
use crate::projector::add_to_columns;
use crate::projector::add_workspace;
use crate::projector::buckets;
use crate::projector::column_with_window;
use crate::projector::insert_workspace;
use crate::projector::new_column;
use crate::projector::place_windows;
use crate::projector::placed;
use crate::projector::project_spec;
use crate::reducer::keeps_id;
use crate::reducer::windows_after_close;
use crate::reducer::windows_after_focus;
use crate::reducer::windows_after_upsert;
use crate::reducer::workspaces_after_activate;
use crate::reducer::ws_has_id;
use crate::seqs::first_where;
use crate::seqs::lemma_first_where_props;
use crate::view::ColumnModel;
use crate::view::OutputModel;
use crate::view::WorkspaceModel;

verus! {

/// A "workspace activated" event whose target is present keeps per-output
/// activity exclusive, makes the target's focus the only one when it takes
/// focus, and never grows the number of focused workspaces.
///
/// Exclusivity beforehand is assumed: a full workspace replace installs the
/// upstream list verbatim, so only upstream guarantees it there.
pub proof fn lemma_activate_keeps_exclusivity(ws: Seq<Workspace>, id: u64, focused: bool)
    requires
        first_where(ws, ws_has_id(id)) >= 0,
        unique_workspace_ids(ws),
        active_exclusive_per_output(ws),
    ensures
        active_exclusive_per_output(workspaces_after_activate(ws, id, focused)),
        focused ==> at_most_one_focused_workspace(workspaces_after_activate(ws, id, focused)),
        at_most_one_focused_workspace(ws) ==> at_most_one_focused_workspace(
            workspaces_after_activate(ws, id, focused),
        ),
{
    let k = first_where(ws, ws_has_id(id));
    lemma_first_where_props(ws, ws_has_id(id));
    let after = workspaces_after_activate(ws, id, focused);
    assert forall|m: int| 0 <= m < ws.len() implies after[m].id == ws[m].id && after[m].output
        == ws[m].output && after[m].is_focused == (if m == k {
        focused
    } else if focused {
        false
    } else {
        ws[m].is_focused
    }) && after[m].is_active == (if m == k {
        true
    } else if ws[k].output is Some && out_name(ws[m].output) == out_name(ws[k].output) {
        false
    } else {
        ws[m].is_active
    }) by {
        assert(m != k ==> ws[m].id != id);
    }
    assert(after.len() == ws.len());
    assert forall|i: int, j: int|
        0 <= i < after.len() && 0 <= j < after.len() && after[i].output is Some && out_name(
            after[i].output,
        ) == out_name(after[j].output) && after[i].is_active && after[j].is_active implies i
        == j by {
        if i != j {
            if i == k {
                assert(ws[k].output is Some);
                assert(!after[j].is_active);
            } else if j == k {
                assert(ws[k].output is Some);
                assert(!after[i].is_active);
            } else {
                assert(ws[i].is_active && ws[j].is_active);
            }
        }
    }
}

/// A "window opened-or-changed" event leaves at most one focused window: a
/// focused upsert clears every other focus first, and an unfocused one never
/// adds a focus.
pub proof fn lemma_upsert_keeps_focus_exclusive(wins: Seq<Window>, window: Window)
    requires
        window.is_focused || at_most_one_focused_window(wins),
    ensures
        at_most_one_focused_window(windows_after_upsert(wins, window)),
{
    let after = windows_after_upsert(wins, window);
    let k = first_where(wins, crate::reducer::win_has_id(window.id));
    lemma_first_where_props(wins, crate::reducer::win_has_id(window.id));
    let base = crate::reducer::clear_window_focus(wins);
    if window.is_focused {
        let t: int = if k >= 0 {
            k
        } else {
            wins.len() as int
        };
        assert forall|m: int| 0 <= m < after.len() && after[m].is_focused implies m == t by {
            if m != t {
                assert(after[m] == base[m]);
                assert(!base[m].is_focused);
            }
        }
    } else {
        assert forall|i: int, j: int|
            0 <= i < after.len() && 0 <= j < after.len() && after[i].is_focused
                && after[j].is_focused implies i == j by {
            lemma_first_where_props(wins, crate::reducer::win_has_id(window.id));
            assert forall|m: int|
                0 <= m < after.len() && after[m].is_focused implies 0 <= m < wins.len()
                    && wins[m].is_focused by {
                if k >= 0 {
                    if m == k {
                        assert(after[m] == window);
                    } else {
                        assert(after[m] == wins[m]);
                    }
                } else {
                    if m < wins.len() {
                        assert(after[m] == wins[m]);
                    } else {
                        assert(after[m] == window);
                    }
                }
            }
        }
    }
}

/// A "window focus changed" event leaves at most one focused window, whatever
/// the model held before.
pub proof fn lemma_focus_change_exclusive(wins: Seq<Window>, id: Option<u64>)
    ensures
        at_most_one_focused_window(windows_after_focus(wins, id)),
{
    let after = windows_after_focus(wins, id);
    match id {
        None => {},
        Some(i) => {
            let cleared = crate::reducer::clear_window_focus(wins);
            let k = first_where(cleared, crate::reducer::win_has_id(i));
            lemma_first_where_props(cleared, crate::reducer::win_has_id(i));
            assert forall|m: int| 0 <= m < after.len() && after[m].is_focused implies m == k by {
                if m != k {
                    assert(after[m] == cleared[m]);
                    assert(!cleared[m].is_focused);
                }
            }
        },
    }
}

/// A closed window is gone from the model: no later record carries its id.
pub proof fn lemma_close_removes_window(wins: Seq<Window>, id: u64)
    ensures
        forall|j: int|
            0 <= j < windows_after_close(wins, id).len() ==> windows_after_close(wins, id)[j].id
                != id,
{
    assert forall|j: int| 0 <= j < windows_after_close(wins, id).len() implies windows_after_close(
        wins,
        id,
    )[j].id != id by {
        wins.lemma_filter_pred(keeps_id(id), j);
    }
}

/// Whether some window entry of the column carries `x`.
pub open spec fn column_has_window_id(c: ColumnModel, x: u64) -> bool {
    exists|e: int| 0 <= e < c.windows.len() && c.windows[e].id == x
}

/// Whether some column of the workspace node holds a window entry carrying `x`.
pub open spec fn workspace_has_window_id(w: WorkspaceModel, x: u64) -> bool {
    exists|ci: int| 0 <= ci < w.columns.len() && column_has_window_id(w.columns[ci], x)
}

/// Whether some workspace of the bucket holds a window entry carrying `x`.
pub open spec fn output_has_window_id(o: OutputModel, x: u64) -> bool {
    exists|wi: int| 0 <= wi < o.workspaces.len() && workspace_has_window_id(o.workspaces[wi], x)
}

/// Whether any column of the projected tree holds a window entry carrying `x`.
pub open spec fn tree_has_window_id(outs: Seq<OutputModel>, x: u64) -> bool {
    exists|oi: int| 0 <= oi < outs.len() && output_has_window_id(outs[oi], x)
}

/// Every workspace node of the bucket still has an empty column list.
pub open spec fn output_columns_empty(o: OutputModel) -> bool {
    forall|wi: int| 0 <= wi < o.workspaces.len() ==> o.workspaces[wi].columns.len() == 0
}

/// Every workspace node of the tree still has an empty column list.
pub open spec fn all_columns_empty(outs: Seq<OutputModel>) -> bool {
    forall|oi: int| 0 <= oi < outs.len() ==> output_columns_empty(outs[oi])
}

proof fn lemma_insert_workspace_columns_empty(wss: Seq<WorkspaceModel>, wm: WorkspaceModel)
    requires
        forall|q: int| 0 <= q < wss.len() ==> wss[q].columns.len() == 0,
        wm.columns.len() == 0,
    ensures
        forall|q: int|
            0 <= q < insert_workspace(wss, wm).len() ==> insert_workspace(wss, wm)[q].columns.len()
                == 0,
    decreases wss.len(),
{
    let res = insert_workspace(wss, wm);
    if wss.len() > 0 && wm.id > wss[0].id {
        lemma_insert_workspace_columns_empty(wss.drop_first(), wm);
    }
    assert forall|q: int| 0 <= q < res.len() implies res[q].columns.len() == 0 by {
        if wss.len() == 0 {
            assert(res[q] == wm);
        } else if wm.id < wss[0].id {
            if q == 0 {
                assert(res[q] == wm);
            } else {
                assert(res[q] == wss[q - 1]);
            }
        } else if wm.id == wss[0].id {
            if q == 0 {
                assert(res[q] == wm);
            } else {
                assert(res[q] == wss.drop_first()[q - 1]);
                assert(res[q] == wss[q]);
            }
        } else {
            if q == 0 {
                assert(res[q] == wss[0]);
            } else {
                assert(res[q] == insert_workspace(wss.drop_first(), wm)[q - 1]);
            }
        }
    }
}

proof fn lemma_add_workspace_columns_empty(outs: Seq<OutputModel>, w: Workspace)
    requires
        all_columns_empty(outs),
    ensures
        all_columns_empty(add_workspace(outs, w)),
{
    let after = add_workspace(outs, w);
    match w.output {
        None => {},
        Some(name) => {
            let k = first_where(outs, crate::projector::output_has_name(name@));
            crate::seqs::lemma_first_where_props(
                outs,
                crate::projector::output_has_name(name@),
            );
            if k >= 0 {
                assert(output_columns_empty(outs[k]));
                lemma_insert_workspace_columns_empty(
                    outs[k].workspaces,
                    crate::projector::workspace_node(w),
                );
                assert forall|oi: int| 0 <= oi < after.len() implies output_columns_empty(
                    after[oi],
                ) by {
                    if oi != k {
                        assert(after[oi] == outs[oi]);
                    }
                }
            } else {
                assert forall|oi: int| 0 <= oi < after.len() implies output_columns_empty(
                    after[oi],
                ) by {
                    if oi < outs.len() {
                        assert(after[oi] == outs[oi]);
                    }
                }
            }
        },
    }
}

/// The first projection phase places no window anywhere.
pub proof fn lemma_buckets_columns_empty(ws: Seq<Workspace>)
    ensures
        all_columns_empty(buckets(ws)),
    decreases ws.len(),
{
    if ws.len() > 0 {
        lemma_buckets_columns_empty(ws.drop_last());
        lemma_add_workspace_columns_empty(buckets(ws.drop_last()), ws.last());
    }
}

proof fn lemma_add_to_columns_ids(cols: Seq<ColumnModel>, ci: usize, w: Window, x: u64)
    requires
        w.id != x,
        forall|q: int| 0 <= q < cols.len() ==> !column_has_window_id(cols[q], x),
    ensures
        forall|q: int|
            0 <= q < add_to_columns(cols, ci, w).len() ==> !column_has_window_id(
                add_to_columns(cols, ci, w)[q],
                x,
            ),
    decreases cols.len(),
{
    let after = add_to_columns(cols, ci, w);
    assert(!column_has_window_id(new_column(ci, w), x)) by {
        let c = new_column(ci, w);
        assert forall|e: int| 0 <= e < c.windows.len() implies c.windows[e].id != x by {
            assert(c.windows[0].id == w.id);
        }
    }
    if cols.len() > 0 && ci > cols[0].index {
        assert(forall|q: int|
            0 <= q < cols.drop_first().len() ==> cols.drop_first()[q] == cols[q + 1]);
        lemma_add_to_columns_ids(cols.drop_first(), ci, w, x);
    }
    assert forall|q: int| 0 <= q < after.len() implies !column_has_window_id(after[q], x) by {
        if cols.len() == 0 {
            assert(after[q] == new_column(ci, w));
        } else if ci < cols[0].index {
            if q == 0 {
                assert(after[q] == new_column(ci, w));
            } else {
                assert(after[q] == cols[q - 1]);
            }
        } else if ci == cols[0].index {
            if q == 0 {
                assert(after[q] == column_with_window(cols[0], w));
                let cw = column_with_window(cols[0], w);
                assert forall|e: int| 0 <= e < cw.windows.len() implies cw.windows[e].id != x by {
                    if e < cols[0].windows.len() {
                        assert(!column_has_window_id(cols[0], x));
                    } else {
                        assert(cw.windows[e].id == w.id);
                    }
                }
                assert(!column_has_window_id(cw, x));
            } else {
                assert(after[q] == cols.drop_first()[q - 1]);
                assert(after[q] == cols[q]);
            }
        } else {
            if q == 0 {
                assert(after[q] == cols[0]);
            } else {
                assert(after[q] == add_to_columns(cols.drop_first(), ci, w)[q - 1]);
            }
        }
    }
}

proof fn lemma_placed_ids(
    outs: Seq<OutputModel>,
    oi: int,
    wi: int,
    ci: usize,
    w: Window,
    x: u64,
)
    requires
        !tree_has_window_id(outs, x),
        w.id != x,
        0 <= oi < outs.len(),
        0 <= wi < outs[oi].workspaces.len(),
    ensures
        !tree_has_window_id(placed(outs, oi, wi, ci, w), x),
{
    let after = placed(outs, oi, wi, ci, w);
    assert(!output_has_window_id(outs[oi], x));
    assert(!workspace_has_window_id(outs[oi].workspaces[wi], x));
    assert forall|q: int|
        0 <= q < outs[oi].workspaces[wi].columns.len() implies !column_has_window_id(
        outs[oi].workspaces[wi].columns[q],
        x,
    ) by {}
    lemma_add_to_columns_ids(outs[oi].workspaces[wi].columns, ci, w, x);
    assert forall|oi2: int| 0 <= oi2 < after.len() implies !output_has_window_id(
        after[oi2],
        x,
    ) by {
        if oi2 == oi {
            assert forall|wi2: int| 0 <= wi2 < after[oi].workspaces.len()
                implies !workspace_has_window_id(after[oi].workspaces[wi2], x) by {
                if wi2 == wi {
                } else {
                    assert(after[oi].workspaces[wi2] == outs[oi].workspaces[wi2]);
                    assert(!workspace_has_window_id(outs[oi].workspaces[wi2], x));
                }
            }
        } else {
            assert(after[oi2] == outs[oi2]);
            assert(!output_has_window_id(outs[oi2], x));
        }
    }
}

/// Placing windows introduces no window entry whose id belongs only to
/// floating, unassigned or absent windows.
pub proof fn lemma_place_windows_ids(
    outs: Seq<OutputModel>,
    wins: Seq<Window>,
    x: u64,
    v: Seq<OutputModel>,
)
    requires
        place_windows(outs, wins) == Ok::<Seq<OutputModel>, crate::projector::ProjectError>(v),
        !tree_has_window_id(outs, x),
        forall|j: int|
            0 <= j < wins.len() ==> wins[j].is_floating || wins[j].workspace_id is None
                || wins[j].id != x,
    ensures
        !tree_has_window_id(v, x),
    decreases wins.len(),
{
    if wins.len() == 0 {
    } else {
        let w = wins[0];
        let rest = wins.drop_first();
        assert(forall|j: int| 0 <= j < rest.len() ==> rest[j] == wins[j + 1]);
        if w.is_floating {
            lemma_place_windows_ids(outs, rest, x, v);
        } else {
            match w.workspace_id {
                None => {
                    lemma_place_windows_ids(outs, rest, x, v);
                },
                Some(wid) => {
                    match crate::projector::find_workspace_slot(outs, wid) {
                        None => {},
                        Some(slot) => {
                            match w.pos {
                                None => {},
                                Some(p) => {
                                    crate::seqs::lemma_first_where_props(
                                        outs,
                                        crate::projector::output_contains_ws(wid),
                                    );
                                    crate::seqs::lemma_first_where_props(
                                        outs[slot.0].workspaces,
                                        crate::projector::ws_model_has_id(wid),
                                    );
                                    lemma_placed_ids(outs, slot.0, slot.1, p.col, w, x);
                                    lemma_place_windows_ids(
                                        placed(outs, slot.0, slot.1, p.col, w),
                                        rest,
                                        x,
                                        v,
                                    );
                                },
                            }
                        },
                    }
                },
            }
        }
    }
}

/// Closing a window removes it from every later projection: after a "window
/// closed" event, no column of a successfully projected tree carries its id.
pub proof fn lemma_closed_window_not_projected(
    ws: Seq<Workspace>,
    wins: Seq<Window>,
    id: u64,
    v: Seq<OutputModel>,
)
    requires
        project_spec(ws, windows_after_close(wins, id)) == Ok::<
            Seq<OutputModel>,
            crate::projector::ProjectError,
        >(v),
    ensures
        !tree_has_window_id(v, id),
{
    lemma_buckets_columns_empty(ws);
    assert(!tree_has_window_id(buckets(ws), id)) by {
        assert forall|oi: int| 0 <= oi < buckets(ws).len() implies !output_has_window_id(
            buckets(ws)[oi],
            id,
        ) by {
            assert(output_columns_empty(buckets(ws)[oi]));
        }
    }
    lemma_close_removes_window(wins, id);
    lemma_place_windows_ids(buckets(ws), windows_after_close(wins, id), id, v);
}

/// A floating or workspace-less window never appears in any projected column,
/// regardless of its other fields, as long as window ids are unique.
pub proof fn lemma_skipped_window_not_projected(
    ws: Seq<Workspace>,
    wins: Seq<Window>,
    j: int,
    v: Seq<OutputModel>,
)
    requires
        project_spec(ws, wins) == Ok::<Seq<OutputModel>, crate::projector::ProjectError>(v),
        unique_window_ids(wins),
        0 <= j < wins.len(),
        wins[j].is_floating || wins[j].workspace_id is None,
    ensures
        !tree_has_window_id(v, wins[j].id),
{
    lemma_buckets_columns_empty(ws);
    assert(!tree_has_window_id(buckets(ws), wins[j].id)) by {
        assert forall|oi: int| 0 <= oi < buckets(ws).len() implies !output_has_window_id(
            buckets(ws)[oi],
            wins[j].id,
        ) by {
            assert(output_columns_empty(buckets(ws)[oi]));
        }
    }
    lemma_place_windows_ids(buckets(ws), wins, wins[j].id, v);
}


/// Whether window `w` can be placed against the buckets: floating or
/// unassigned windows always can; a tiled, assigned one needs its workspace
/// under some bucket and a tile position.
pub open spec fn placeable(outs: Seq<OutputModel>, w: Window) -> bool {
    w.is_floating || match w.workspace_id {
        None => true,
        Some(wid) => crate::projector::find_workspace_slot(outs, wid) is Some && w.pos is Some,
    }
}

proof fn lemma_first_where_same_ws_ids(a: Seq<WorkspaceModel>, b: Seq<WorkspaceModel>, id: u64)
    requires
        a.len() == b.len(),
        forall|j: int| 0 <= j < a.len() ==> a[j].id == b[j].id,
    ensures
        first_where(a, crate::projector::ws_model_has_id(id)) == first_where(
            b,
            crate::projector::ws_model_has_id(id),
        ),
    decreases a.len(),
{
    if a.len() > 0 {
        assert(forall|j: int| 0 <= j < a.drop_first().len() ==> a.drop_first()[j] == a[j + 1]);
        assert(forall|j: int| 0 <= j < b.drop_first().len() ==> b.drop_first()[j] == b[j + 1]);
        lemma_first_where_same_ws_ids(a.drop_first(), b.drop_first(), id);
    }
}

proof fn lemma_first_where_same_contains(a: Seq<OutputModel>, b: Seq<OutputModel>, id: u64)
    requires
        a.len() == b.len(),
        forall|j: int|
            0 <= j < a.len() ==> first_where(a[j].workspaces, crate::projector::ws_model_has_id(id))
                == first_where(b[j].workspaces, crate::projector::ws_model_has_id(id)),
    ensures
        first_where(a, crate::projector::output_contains_ws(id)) == first_where(
            b,
            crate::projector::output_contains_ws(id),
        ),
    decreases a.len(),
{
    if a.len() > 0 {
        assert(forall|j: int| 0 <= j < a.drop_first().len() ==> a.drop_first()[j] == a[j + 1]);
        assert(forall|j: int| 0 <= j < b.drop_first().len() ==> b.drop_first()[j] == b[j + 1]);
        lemma_first_where_same_contains(a.drop_first(), b.drop_first(), id);
    }
}

/// Placing a window moves no workspace: every later lookup lands on the same
/// slot.
proof fn lemma_placed_same_slots(
    outs: Seq<OutputModel>,
    oi: int,
    wi: int,
    ci: usize,
    w: Window,
    id: u64,
)
    requires
        0 <= oi < outs.len(),
        0 <= wi < outs[oi].workspaces.len(),
    ensures
        crate::projector::find_workspace_slot(placed(outs, oi, wi, ci, w), id)
            == crate::projector::find_workspace_slot(outs, id),
{
    let after = placed(outs, oi, wi, ci, w);
    assert forall|j: int| 0 <= j < after.len() implies first_where(
        after[j].workspaces,
        crate::projector::ws_model_has_id(id),
    ) == first_where(outs[j].workspaces, crate::projector::ws_model_has_id(id)) by {
        if j == oi {
            assert(after[j].workspaces.len() == outs[j].workspaces.len());
            assert forall|q: int| 0 <= q < after[j].workspaces.len()
                implies after[j].workspaces[q].id == outs[j].workspaces[q].id by {}
            lemma_first_where_same_ws_ids(after[j].workspaces, outs[j].workspaces, id);
        } else {
            assert(after[j] == outs[j]);
        }
    }
    lemma_first_where_same_contains(after, outs, id);
    let oi2 = first_where(outs, crate::projector::output_contains_ws(id));
    if oi2 >= 0 {
        crate::seqs::lemma_first_where_props(outs, crate::projector::output_contains_ws(id));
    }
}

proof fn lemma_placeable_shift(outs: Seq<OutputModel>, wins: Seq<Window>)
    requires
        wins.len() > 0,
    ensures
        (forall|j: int| 0 <= j < wins.len() ==> placeable(outs, wins[j])) <==> (placeable(
            outs,
            wins[0],
        ) && forall|j: int|
            0 <= j < wins.drop_first().len() ==> placeable(outs, wins.drop_first()[j])),
{
    let rest = wins.drop_first();
    assert(forall|j: int| 0 <= j < rest.len() ==> rest[j] == wins[j + 1]);
    if placeable(outs, wins[0]) && (forall|j: int|
        0 <= j < rest.len() ==> placeable(outs, rest[j])) {
        assert forall|j: int| 0 <= j < wins.len() implies placeable(outs, wins[j]) by {
            if j > 0 {
                assert(placeable(outs, rest[j - 1]));
            }
        }
    }
}

proof fn lemma_place_windows_ok_iff(outs: Seq<OutputModel>, wins: Seq<Window>)
    ensures
        place_windows(outs, wins) is Ok <==> forall|j: int|
            0 <= j < wins.len() ==> placeable(outs, wins[j]),
    decreases wins.len(),
{
    if wins.len() > 0 {
        let w = wins[0];
        let rest = wins.drop_first();
        assert(forall|j: int| 0 <= j < rest.len() ==> rest[j] == wins[j + 1]);
        lemma_placeable_shift(outs, wins);
        if w.is_floating {
            lemma_place_windows_ok_iff(outs, rest);
        } else {
            match w.workspace_id {
                None => {
                    lemma_place_windows_ok_iff(outs, rest);
                },
                Some(wid) => {
                    match crate::projector::find_workspace_slot(outs, wid) {
                        None => {
                            assert(!placeable(outs, w));
                        },
                        Some(slot) => {
                            match w.pos {
                                None => {
                                    assert(!placeable(outs, w));
                                },
                                Some(p) => {
                                    crate::seqs::lemma_first_where_props(
                                        outs,
                                        crate::projector::output_contains_ws(wid),
                                    );
                                    crate::seqs::lemma_first_where_props(
                                        outs[slot.0].workspaces,
                                        crate::projector::ws_model_has_id(wid),
                                    );
                                    let next = placed(outs, slot.0, slot.1, p.col, w);
                                    lemma_place_windows_ok_iff(next, rest);
                                    assert(placeable(outs, w));
                                    assert forall|j: int| 0 <= j < rest.len() implies placeable(
                                        next,
                                        rest[j],
                                    ) == placeable(outs, rest[j]) by {
                                        match rest[j].workspace_id {
                                            None => {},
                                            Some(rid) => {
                                                lemma_placed_same_slots(
                                                    outs,
                                                    slot.0,
                                                    slot.1,
                                                    p.col,
                                                    w,
                                                    rid,
                                                );
                                            },
                                        }
                                    }
                                },
                            }
                        },
                    }
                },
            }
        }
    }
}

/// Success of the projection is owed exactly when every window of the model
/// is placeable against the first phase's buckets: floating or unassigned, or
/// assigned to a workspace under some bucket and holding a tile position.
pub proof fn lemma_project_ok_iff(ws: Seq<Workspace>, wins: Seq<Window>)
    ensures
        project_spec(ws, wins) is Ok <==> forall|j: int|
            0 <= j < wins.len() ==> placeable(buckets(ws), wins[j]),
{
    lemma_place_windows_ok_iff(buckets(ws), wins);
}


/// Projection is deterministic: it is a function of the model snapshot alone,
/// so two projections of one unmodified model are the same value.
pub proof fn lemma_projection_deterministic(
    ws: Seq<Workspace>,
    wins: Seq<Window>,
    a: Result<Seq<OutputModel>, crate::projector::ProjectError>,
    b: Result<Seq<OutputModel>, crate::projector::ProjectError>,
)
    requires
        a == project_spec(ws, wins),
        b == project_spec(ws, wins),
    ensures
        a == b,
{
}


/// Workspace nodes in strictly ascending id order.
pub open spec fn ws_ids_sorted(wss: Seq<WorkspaceModel>) -> bool {
    forall|i: int, j: int| 0 <= i < j < wss.len() ==> wss[i].id < wss[j].id
}

/// Columns in strictly ascending index order.
pub open spec fn columns_sorted(cols: Seq<ColumnModel>) -> bool {
    forall|i: int, j: int| 0 <= i < j < cols.len() ==> cols[i].index < cols[j].index
}

/// The column's aggregates agree with its window list, and every entry
/// carries the column's own index.
pub open spec fn column_wf(c: ColumnModel) -> bool {
    c.num_windows == c.windows.len() && (c.has_focused_window <==> exists|e: int|
        0 <= e < c.windows.len() && c.windows[e].is_focused) && (forall|e: int|
        0 <= e < c.windows.len() ==> c.windows[e].column == c.index)
}

/// The workspace node's columns are sorted and each is consistent.
pub open spec fn workspace_wf(w: WorkspaceModel) -> bool {
    columns_sorted(w.columns) && forall|ci: int|
        0 <= ci < w.columns.len() ==> column_wf(w.columns[ci])
}

/// The bucket's workspaces ascend by id and each is well formed.
pub open spec fn output_wf(o: OutputModel) -> bool {
    ws_ids_sorted(o.workspaces) && forall|wi: int|
        0 <= wi < o.workspaces.len() ==> workspace_wf(o.workspaces[wi])
}

/// Every bucket of the tree is well formed.
pub open spec fn tree_wf(outs: Seq<OutputModel>) -> bool {
    forall|oi: int| 0 <= oi < outs.len() ==> output_wf(outs[oi])
}

spec fn ws_id_at_least(id: u64) -> spec_fn(WorkspaceModel) -> bool {
    |w: WorkspaceModel| w.id >= id
}

spec fn col_index_at_least(ci: usize) -> spec_fn(ColumnModel) -> bool {
    |c: ColumnModel| c.index >= ci
}

proof fn lemma_insert_workspace_wf(wss: Seq<WorkspaceModel>, wm: WorkspaceModel)
    requires
        ws_ids_sorted(wss),
        forall|q: int| 0 <= q < wss.len() ==> workspace_wf(wss[q]),
        workspace_wf(wm),
    ensures
        ws_ids_sorted(insert_workspace(wss, wm)),
        forall|q: int|
            0 <= q < insert_workspace(wss, wm).len() ==> workspace_wf(insert_workspace(wss, wm)[q]),
{
    let res = insert_workspace(wss, wm);
    let found = first_where(wss, ws_id_at_least(wm.id));
    lemma_first_where_props(wss, ws_id_at_least(wm.id));
    let p: int = if found >= 0 {
        found
    } else {
        wss.len() as int
    };
    crate::projector::lemma_insert_workspace_at(wss, wm, p);
    if p < wss.len() && wss[p].id == wm.id {
        assert(res =~= wss.update(p, wm));
        assert forall|i: int, j: int| 0 <= i < j < res.len() implies res[i].id < res[j].id by {
            assert(res[i].id == wss[i].id && res[j].id == wss[j].id);
        }
    } else {
        assert(res =~= wss.insert(p, wm));
        wss.insert_ensures(p, wm);
        assert forall|i: int, j: int| 0 <= i < j < res.len() implies res[i].id < res[j].id by {
            if j < p {
                assert(res[i] == wss[i] && res[j] == wss[j]);
            } else if j == p {
                assert(res[j] == wm && res[i] == wss[i]);
            } else if i < p {
                assert(res[i] == wss[i] && res[j] == wss[j - 1]);
                assert(p < wss.len() ==> wss[p].id > wm.id);
            } else if i == p {
                assert(res[i] == wm && res[j] == wss[j - 1]);
            } else {
                assert(res[i] == wss[i - 1] && res[j] == wss[j - 1]);
            }
        }
        assert forall|q: int| 0 <= q < res.len() implies workspace_wf(res[q]) by {
            if q < p {
                assert(res[q] == wss[q]);
            } else if q == p {
                assert(res[q] == wm);
            } else {
                assert(res[q] == wss[q - 1]);
            }
        }
    }
}

proof fn lemma_add_to_columns_wf(cols: Seq<ColumnModel>, ci: usize, w: Window)
    requires
        columns_sorted(cols),
        forall|q: int| 0 <= q < cols.len() ==> column_wf(cols[q]),
    ensures
        columns_sorted(add_to_columns(cols, ci, w)),
        forall|q: int|
            0 <= q < add_to_columns(cols, ci, w).len() ==> column_wf(add_to_columns(cols, ci, w)[q]),
{
    let res = add_to_columns(cols, ci, w);
    let found = first_where(cols, col_index_at_least(ci));
    lemma_first_where_props(cols, col_index_at_least(ci));
    let p: int = if found >= 0 {
        found
    } else {
        cols.len() as int
    };
    crate::projector::lemma_add_to_columns_at(cols, ci, w, p);
    assert(column_wf(new_column(ci, w))) by {
        let c = new_column(ci, w);
        if w.is_focused {
            assert(c.windows[0].is_focused);
        }
    }
    if p < cols.len() && cols[p].index == ci {
        let cw = column_with_window(cols[p], w);
        assert(column_wf(cw)) by {
            assert(column_wf(cols[p]));
            assert(cw.windows[cols[p].windows.len() as int] == crate::projector::window_entry(
                w,
                cols[p].index,
            ));
            if cw.has_focused_window {
                if cols[p].has_focused_window {
                    let e = choose|e: int|
                        0 <= e < cols[p].windows.len() && cols[p].windows[e].is_focused;
                    assert(cw.windows[e].is_focused);
                } else {
                    assert(cw.windows[cols[p].windows.len() as int].is_focused);
                }
            }
            if exists|e: int| 0 <= e < cw.windows.len() && cw.windows[e].is_focused {
                let e = choose|e: int| 0 <= e < cw.windows.len() && cw.windows[e].is_focused;
                if e < cols[p].windows.len() {
                    assert(cols[p].windows[e].is_focused);
                } else {
                    assert(w.is_focused);
                }
            }
        }
        assert(res =~= cols.update(p, cw));
        assert forall|i: int, j: int| 0 <= i < j < res.len() implies res[i].index < res[j].index by {
            assert(res[i].index == cols[i].index && res[j].index == cols[j].index);
        }
    } else {
        assert(res =~= cols.insert(p, new_column(ci, w)));
        cols.insert_ensures(p, new_column(ci, w));
        assert forall|i: int, j: int| 0 <= i < j < res.len() implies res[i].index < res[j].index by {
            if j < p {
                assert(res[i] == cols[i] && res[j] == cols[j]);
            } else if j == p {
                assert(res[j] == new_column(ci, w) && res[i] == cols[i]);
            } else if i < p {
                assert(res[i] == cols[i] && res[j] == cols[j - 1]);
                assert(p < cols.len() ==> cols[p].index > ci);
            } else if i == p {
                assert(res[i] == new_column(ci, w) && res[j] == cols[j - 1]);
            } else {
                assert(res[i] == cols[i - 1] && res[j] == cols[j - 1]);
            }
        }
        assert forall|q: int| 0 <= q < res.len() implies column_wf(res[q]) by {
            if q < p {
                assert(res[q] == cols[q]);
            } else if q == p {
                assert(res[q] == new_column(ci, w));
            } else {
                assert(res[q] == cols[q - 1]);
            }
        }
    }
}

proof fn lemma_placed_wf(outs: Seq<OutputModel>, oi: int, wi: int, ci: usize, w: Window)
    requires
        tree_wf(outs),
        0 <= oi < outs.len(),
        0 <= wi < outs[oi].workspaces.len(),
    ensures
        tree_wf(placed(outs, oi, wi, ci, w)),
{
    let after = placed(outs, oi, wi, ci, w);
    assert(output_wf(outs[oi]));
    assert(workspace_wf(outs[oi].workspaces[wi]));
    lemma_add_to_columns_wf(outs[oi].workspaces[wi].columns, ci, w);
    assert forall|oi2: int| 0 <= oi2 < after.len() implies output_wf(after[oi2]) by {
        if oi2 == oi {
            assert forall|i: int, j: int|
                0 <= i < j < after[oi].workspaces.len() implies after[oi].workspaces[i].id
                < after[oi].workspaces[j].id by {
                assert(after[oi].workspaces[i].id == outs[oi].workspaces[i].id);
                assert(after[oi].workspaces[j].id == outs[oi].workspaces[j].id);
            }
            assert forall|wi2: int| 0 <= wi2 < after[oi].workspaces.len() implies workspace_wf(
                after[oi].workspaces[wi2],
            ) by {
                if wi2 != wi {
                    assert(after[oi].workspaces[wi2] == outs[oi].workspaces[wi2]);
                    assert(workspace_wf(outs[oi].workspaces[wi2]));
                }
            }
        } else {
            assert(after[oi2] == outs[oi2]);
            assert(output_wf(outs[oi2]));
        }
    }
}

proof fn lemma_add_workspace_wf(outs: Seq<OutputModel>, w: Workspace)
    requires
        tree_wf(outs),
    ensures
        tree_wf(add_workspace(outs, w)),
{
    let after = add_workspace(outs, w);
    let node = crate::projector::workspace_node(w);
    assert(workspace_wf(node));
    match w.output {
        None => {},
        Some(name) => {
            let k = first_where(outs, crate::projector::output_has_name(name@));
            crate::seqs::lemma_first_where_props(
                outs,
                crate::projector::output_has_name(name@),
            );
            if k >= 0 {
                assert(output_wf(outs[k]));
                lemma_insert_workspace_wf(outs[k].workspaces, node);
                assert forall|oi: int| 0 <= oi < after.len() implies output_wf(after[oi]) by {
                    if oi != k {
                        assert(after[oi] == outs[oi]);
                        assert(output_wf(outs[oi]));
                    }
                }
            } else {
                assert forall|oi: int| 0 <= oi < after.len() implies output_wf(after[oi]) by {
                    if oi < outs.len() {
                        assert(after[oi] == outs[oi]);
                        assert(output_wf(outs[oi]));
                    } else {
                        assert(after[oi].workspaces =~= seq![node]);
                    }
                }
            }
        },
    }
}

/// The first projection phase builds a well-formed tree.
pub proof fn lemma_buckets_wf(ws: Seq<Workspace>)
    ensures
        tree_wf(buckets(ws)),
    decreases ws.len(),
{
    if ws.len() > 0 {
        lemma_buckets_wf(ws.drop_last());
        lemma_add_workspace_wf(buckets(ws.drop_last()), ws.last());
    }
}

proof fn lemma_place_windows_wf(outs: Seq<OutputModel>, wins: Seq<Window>, v: Seq<OutputModel>)
    requires
        place_windows(outs, wins) == Ok::<Seq<OutputModel>, crate::projector::ProjectError>(v),
        tree_wf(outs),
    ensures
        tree_wf(v),
    decreases wins.len(),
{
    if wins.len() > 0 {
        let w = wins[0];
        let rest = wins.drop_first();
        if w.is_floating {
            lemma_place_windows_wf(outs, rest, v);
        } else {
            match w.workspace_id {
                None => {
                    lemma_place_windows_wf(outs, rest, v);
                },
                Some(wid) => {
                    match crate::projector::find_workspace_slot(outs, wid) {
                        None => {},
                        Some(slot) => {
                            match w.pos {
                                None => {},
                                Some(p) => {
                                    crate::seqs::lemma_first_where_props(
                                        outs,
                                        crate::projector::output_contains_ws(wid),
                                    );
                                    crate::seqs::lemma_first_where_props(
                                        outs[slot.0].workspaces,
                                        crate::projector::ws_model_has_id(wid),
                                    );
                                    lemma_placed_wf(outs, slot.0, slot.1, p.col, w);
                                    lemma_place_windows_wf(
                                        placed(outs, slot.0, slot.1, p.col, w),
                                        rest,
                                        v,
                                    );
                                },
                            }
                        },
                    }
                },
            }
        }
    }
}

/// A successfully projected tree is well formed: within each bucket the
/// workspaces ascend by id, within each workspace the columns ascend by
/// index, each column's aggregates agree with its window list, and every
/// window entry carries its column's index.
pub proof fn lemma_projection_well_formed(ws: Seq<Workspace>, wins: Seq<Window>, v: Seq<OutputModel>)
    requires
        project_spec(ws, wins) == Ok::<Seq<OutputModel>, crate::projector::ProjectError>(v),
    ensures
        tree_wf(v),
{
    lemma_buckets_wf(ws);
    lemma_place_windows_wf(buckets(ws), wins, v);
}

} // verus!
