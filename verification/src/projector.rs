//! The hierarchical projector: a pure function from the flat model to the
//! output -> workspace -> column -> window tree, stated as spec functions and
//! implemented by a verified two-phase pass.

use vstd::prelude::*;

use crate::model::State;
use crate::model::Window;
use crate::model::Workspace;
use crate::seqs::first_where;
use crate::seqs::lemma_first_where_found;
use crate::seqs::lemma_first_where_none;
use crate::view::ColumnModel;
use crate::view::ColumnView;
use crate::view::OutputModel;
use crate::view::OutputView;
use crate::view::OutputsView;
use crate::view::WindowEntry;
use crate::view::WorkspaceModel;
use crate::view::WorkspaceView;
use crate::view::deep_columns;
use crate::view::deep_outputs;
use crate::view::deep_workspaces;

verus! {

/// Why a model snapshot cannot be projected: it has desynchronized from
/// upstream truth.
#[derive(Clone, Copy, PartialEq, Eq, Structural, Debug)]
pub enum ProjectError {
    /// A non-floating window references a workspace that is not under any
    /// output bucket.
    WorkspaceNotFound,
    /// A non-floating, workspace-assigned window has no tile position.
    MissingTilePosition,
}

/// Picks the output bucket named `name`.
pub open spec fn output_has_name(name: Seq<char>) -> spec_fn(OutputModel) -> bool {
    |o: OutputModel| o.name == name
}

/// Picks the workspace node carrying `id`.
pub open spec fn ws_model_has_id(id: u64) -> spec_fn(WorkspaceModel) -> bool {
    |w: WorkspaceModel| w.id == id
}

/// Picks an output bucket holding a workspace node carrying `id`.
pub open spec fn output_contains_ws(id: u64) -> spec_fn(OutputModel) -> bool {
    |o: OutputModel| first_where(o.workspaces, ws_model_has_id(id)) >= 0
}

/// A fresh workspace node for the tree: same id, ordinal and activity, no
/// columns yet.
pub open spec fn workspace_node(w: Workspace) -> WorkspaceModel {
    WorkspaceModel { id: w.id, index: w.idx, columns: Seq::empty(), is_active: w.is_active }
}

/// Insertion into an id-sorted workspace list; an equal id is replaced.
pub open spec fn insert_workspace(wss: Seq<WorkspaceModel>, wm: WorkspaceModel) -> Seq<
    WorkspaceModel,
>
    decreases wss.len(),
{
    if wss.len() == 0 {
        seq![wm]
    } else if wm.id < wss[0].id {
        seq![wm] + wss
    } else if wm.id == wss[0].id {
        seq![wm] + wss.drop_first()
    } else {
        seq![wss[0]] + insert_workspace(wss.drop_first(), wm)
    }
}

/// One workspace added to the buckets: dropped when it has no output, else
/// inserted under its output's bucket, which is created on first use.
pub open spec fn add_workspace(outs: Seq<OutputModel>, w: Workspace) -> Seq<OutputModel> {
    match w.output {
        None => outs,
        Some(name) => {
            let wm = workspace_node(w);
            let k = first_where(outs, output_has_name(name@));
            if k >= 0 {
                outs.update(
                    k,
                    OutputModel {
                        name: outs[k].name,
                        workspaces: insert_workspace(outs[k].workspaces, wm),
                    },
                )
            } else {
                outs.push(OutputModel { name: name@, workspaces: seq![wm] })
            }
        },
    }
}

/// The output buckets of the first projection phase: every workspace with an
/// output, under its output's bucket, with no windows placed yet.
pub open spec fn buckets(ws: Seq<Workspace>) -> Seq<OutputModel>
    decreases ws.len(),
{
    if ws.len() == 0 {
        Seq::empty()
    } else {
        add_workspace(buckets(ws.drop_last()), ws.last())
    }
}

/// Where the workspace carrying `id` sits in the tree: bucket index and
/// workspace index, searching buckets in order.
pub open spec fn find_workspace_slot(outs: Seq<OutputModel>, id: u64) -> Option<(int, int)> {
    let oi = first_where(outs, output_contains_ws(id));
    if oi >= 0 {
        Some((oi, first_where(outs[oi].workspaces, ws_model_has_id(id))))
    } else {
        None
    }
}

/// The lightweight record of one window under its column.
pub open spec fn window_entry(w: Window, column: usize) -> WindowEntry {
    WindowEntry { id: w.id, column, is_focused: w.is_focused }
}

/// A column created on first use, holding its first window.
pub open spec fn new_column(ci: usize, w: Window) -> ColumnModel {
    ColumnModel {
        index: ci,
        windows: seq![window_entry(w, ci)],
        num_windows: 1,
        has_focused_window: w.is_focused,
    }
}

/// One more window appended to a column, aggregates updated.
pub open spec fn column_with_window(c: ColumnModel, w: Window) -> ColumnModel {
    ColumnModel {
        index: c.index,
        windows: c.windows.push(window_entry(w, c.index)),
        num_windows: c.windows.len() as int + 1,
        has_focused_window: c.has_focused_window || w.is_focused,
    }
}

/// One window grouped into an index-sorted column list: appended to its
/// column, which is created on first use.
pub open spec fn add_to_columns(cols: Seq<ColumnModel>, ci: usize, w: Window) -> Seq<ColumnModel>
    decreases cols.len(),
{
    if cols.len() == 0 {
        seq![new_column(ci, w)]
    } else if ci < cols[0].index {
        seq![new_column(ci, w)] + cols
    } else if ci == cols[0].index {
        seq![column_with_window(cols[0], w)] + cols.drop_first()
    } else {
        seq![cols[0]] + add_to_columns(cols.drop_first(), ci, w)
    }
}

/// The tree with window `w` placed under slot (`oi`, `wi`) in column `ci`.
pub open spec fn placed(outs: Seq<OutputModel>, oi: int, wi: int, ci: usize, w: Window) -> Seq<
    OutputModel,
>
    recommends
        0 <= oi < outs.len(),
        0 <= wi < outs[oi].workspaces.len(),
{
    let o = outs[oi];
    let wm = o.workspaces[wi];
    let wm2 = WorkspaceModel { columns: add_to_columns(wm.columns, ci, w), ..wm };
    outs.update(oi, OutputModel { workspaces: o.workspaces.update(wi, wm2), ..o })
}

/// The second projection phase: windows placed one by one, floating or
/// unassigned ones skipped. The first window whose workspace is under no
/// bucket, or which has no tile position, stops the projection with the
/// matching error.
pub open spec fn place_windows(outs: Seq<OutputModel>, wins: Seq<Window>) -> Result<
    Seq<OutputModel>,
    ProjectError,
>
    decreases wins.len(),
{
    if wins.len() == 0 {
        Ok(outs)
    } else {
        let w = wins[0];
        if w.is_floating {
            place_windows(outs, wins.drop_first())
        } else {
            match w.workspace_id {
                None => place_windows(outs, wins.drop_first()),
                Some(wid) => match find_workspace_slot(outs, wid) {
                    None => Err(ProjectError::WorkspaceNotFound),
                    Some((oi, wi)) => match w.pos {
                        None => Err(ProjectError::MissingTilePosition),
                        Some(p) => place_windows(placed(outs, oi, wi, p.col, w), wins.drop_first()),
                    },
                },
            }
        }
    }
}

/// The whole projection of a model snapshot.
pub open spec fn project_spec(ws: Seq<Workspace>, wins: Seq<Window>) -> Result<
    Seq<OutputModel>,
    ProjectError,
> {
    place_windows(buckets(ws), wins)
}

/// Where the recursion of `insert_workspace` lands, given the first position
/// `p` whose id is not below the inserted one.
pub(crate) proof fn lemma_insert_workspace_at(wss: Seq<WorkspaceModel>, wm: WorkspaceModel, p: int)
    requires
        0 <= p <= wss.len(),
        forall|q: int| 0 <= q < p ==> wss[q].id < wm.id,
        p < wss.len() ==> wss[p].id >= wm.id,
    ensures
        p < wss.len() && wss[p].id == wm.id ==> insert_workspace(wss, wm) =~= wss.update(p, wm),
        !(p < wss.len() && wss[p].id == wm.id) ==> insert_workspace(wss, wm) =~= wss.insert(p, wm),
    decreases p,
{
    if p == 0 {
        if wss.len() == 0 {
            assert(insert_workspace(wss, wm) =~= wss.insert(0, wm));
        }
    } else {
        lemma_insert_workspace_at(wss.drop_first(), wm, p - 1);
        assert(insert_workspace(wss, wm) == seq![wss[0]] + insert_workspace(
            wss.drop_first(),
            wm,
        ));
        if p < wss.len() && wss[p].id == wm.id {
            assert(wss.drop_first()[p - 1].id == wm.id);
            assert(seq![wss[0]] + wss.drop_first().update(p - 1, wm) =~= wss.update(p, wm));
        } else {
            assert(seq![wss[0]] + wss.drop_first().insert(p - 1, wm) =~= wss.insert(p, wm));
        }
    }
}

/// Where the recursion of `add_to_columns` lands, given the first position `p`
/// whose column index is not below `ci`.
pub(crate) proof fn lemma_add_to_columns_at(cols: Seq<ColumnModel>, ci: usize, w: Window, p: int)
    requires
        0 <= p <= cols.len(),
        forall|q: int| 0 <= q < p ==> cols[q].index < ci,
        p < cols.len() ==> cols[p].index >= ci,
    ensures
        p < cols.len() && cols[p].index == ci ==> add_to_columns(cols, ci, w) =~= cols.update(
            p,
            column_with_window(cols[p], w),
        ),
        !(p < cols.len() && cols[p].index == ci) ==> add_to_columns(cols, ci, w) =~= cols.insert(
            p,
            new_column(ci, w),
        ),
    decreases p,
{
    if p == 0 {
        if cols.len() == 0 {
            assert(add_to_columns(cols, ci, w) =~= cols.insert(0, new_column(ci, w)));
        }
    } else {
        lemma_add_to_columns_at(cols.drop_first(), ci, w, p - 1);
        assert(add_to_columns(cols, ci, w) == seq![cols[0]] + add_to_columns(
            cols.drop_first(),
            ci,
            w,
        ));
        if p < cols.len() && cols[p].index == ci {
            assert(cols.drop_first()[p - 1].index == ci);
            assert(seq![cols[0]] + cols.drop_first().update(
                p - 1,
                column_with_window(cols[p], w),
            ) =~= cols.update(p, column_with_window(cols[p], w)));
        } else {
            assert(seq![cols[0]] + cols.drop_first().insert(p - 1, new_column(ci, w)) =~= cols.insert(
                p,
                new_column(ci, w),
            ));
        }
    }
}

/// Inserts a workspace node into an id-sorted list, replacing an equal id.
fn insert_workspace_exec(wss: &mut Vec<WorkspaceView>, node: WorkspaceView)
    ensures
        deep_workspaces(final(wss)@) == insert_workspace(deep_workspaces(old(wss)@), node.deep()),
{
    let ghost orig = deep_workspaces(wss@);
    let mut p: usize = 0;
    while p < wss.len() && wss[p].id < node.id
        invariant
            p <= wss.len(),
            wss@ == old(wss)@,
            forall|q: int| 0 <= q < p ==> wss@[q].id < node.id,
        decreases wss.len() - p,
    {
        p += 1;
    }
    proof {
        lemma_insert_workspace_at(orig, node.deep(), p as int);
    }
    if p < wss.len() && wss[p].id == node.id {
        let ghost before = wss@;
        wss.remove(p);
        wss.insert(p, node);
        proof {
            assert(wss@ =~= before.update(p as int, node));
            assert(deep_workspaces(wss@) =~= orig.update(p as int, node.deep()));
        }
    } else {
        wss.insert(p, node);
        proof {
            assert(deep_workspaces(wss@) =~= orig.insert(p as int, node.deep()));
        }
    }
}

/// Index of the output bucket named `name`, if one exists.
fn find_bucket(outs: &Vec<OutputView>, name: &String) -> (r: Option<usize>)
    ensures
        match r {
            Some(k) => k < outs.len() && first_where(deep_outputs(outs@), output_has_name(name@))
                == k as int,
            None => first_where(deep_outputs(outs@), output_has_name(name@)) == -1,
        },
{
    let mut i: usize = 0;
    while i < outs.len()
        invariant
            i <= outs.len(),
            forall|j: int| 0 <= j < i ==> deep_outputs(outs@)[j].name != name@,
        decreases outs.len() - i,
    {
        if outs[i].name == *name {
            proof {
                lemma_first_where_found(deep_outputs(outs@), output_has_name(name@), i as int);
            }
            return Some(i);
        }
        proof {
            assert(deep_outputs(outs@)[i as int].name == outs@[i as int].name@);
        }
        i += 1;
    }
    proof {
        lemma_first_where_none(deep_outputs(outs@), output_has_name(name@));
    }
    None
}

/// Adds one workspace to the buckets, per `add_workspace`.
fn add_workspace_exec(outs: &mut Vec<OutputView>, w: &Workspace)
    ensures
        deep_outputs(final(outs)@) == add_workspace(deep_outputs(old(outs)@), *w),
{
    let ghost orig = deep_outputs(outs@);
    let node = WorkspaceView {
        id: w.id,
        index: w.idx,
        columns: Vec::new(),
        is_active: w.is_active,
    };
    proof {
        assert(node.deep().columns =~= Seq::<ColumnModel>::empty());
        assert(node.deep() == workspace_node(*w));
    }
    match &w.output {
        None => {},
        Some(name) => {
            match find_bucket(outs, name) {
                Some(k) => {
                    let ghost before = outs@;
                    let mut o = outs.remove(k);
                    insert_workspace_exec(&mut o.workspaces, node);
                    outs.insert(k, o);
                    proof {
                        assert(outs@ =~= before.update(k as int, o));
                        assert(o.deep() == OutputModel {
                            name: orig[k as int].name,
                            workspaces: insert_workspace(
                                orig[k as int].workspaces,
                                workspace_node(*w),
                            ),
                        });
                        assert(deep_outputs(outs@) =~= orig.update(k as int, o.deep()));
                    }
                },
                None => {
                    let mut ws_list: Vec<WorkspaceView> = Vec::new();
                    ws_list.push(node);
                    let bucket = OutputView { name: name.clone(), workspaces: ws_list };
                    outs.push(bucket);
                    proof {
                        assert(deep_workspaces(seq![node]) =~= seq![workspace_node(*w)]);
                        assert(deep_outputs(outs@) =~= orig.push(
                            OutputModel { name: name@, workspaces: seq![workspace_node(*w)] },
                        ));
                    }
                },
            }
        },
    }
}

/// Finds the bucket and workspace indices of the workspace carrying `id`.
fn find_slot_exec(outs: &Vec<OutputView>, id: u64) -> (r: Option<(usize, usize)>)
    ensures
        match r {
            Some(slot) => slot.0 < outs.len() && slot.1 < outs@[slot.0 as int].workspaces.len()
                && find_workspace_slot(deep_outputs(outs@), id) == Some(
                (slot.0 as int, slot.1 as int),
            ),
            None => find_workspace_slot(deep_outputs(outs@), id) is None,
        },
{
    let mut oi: usize = 0;
    while oi < outs.len()
        invariant
            oi <= outs.len(),
            forall|j: int| 0 <= j < oi ==> !#[trigger] output_contains_ws(id)(
                deep_outputs(outs@)[j],
            ),
        decreases outs.len() - oi,
    {
        let o = &outs[oi];
        let n = o.workspaces.len();
        let mut wi: usize = 0;
        while wi < n
            invariant
                wi <= n,
                oi < outs.len(),
                n == o.workspaces.len(),
                o == &outs[oi as int],
                forall|j: int| 0 <= j < oi ==> !#[trigger] output_contains_ws(id)(
                    deep_outputs(outs@)[j],
                ),
                forall|q: int| 0 <= q < wi ==> o.workspaces@[q].id != id,
            decreases n - wi,
        {
            if o.workspaces[wi].id == id {
                proof {
                    let deep = deep_outputs(outs@);
                    assert(deep[oi as int].workspaces == deep_workspaces(o.workspaces@));
                    lemma_first_where_found(
                        deep[oi as int].workspaces,
                        ws_model_has_id(id),
                        wi as int,
                    );
                    lemma_first_where_found(deep, output_contains_ws(id), oi as int);
                }
                return Some((oi, wi));
            }
            wi += 1;
        }
        proof {
            let deep = deep_outputs(outs@);
            assert(deep[oi as int].workspaces == deep_workspaces(o.workspaces@));
            lemma_first_where_none(deep[oi as int].workspaces, ws_model_has_id(id));
        }
        oi += 1;
    }
    proof {
        lemma_first_where_none(deep_outputs(outs@), output_contains_ws(id));
    }
    None
}

/// Appends one window to its column under slot (`oi`, `wi`), per `placed`.
fn place_window_exec(outs: &mut Vec<OutputView>, oi: usize, wi: usize, ci: usize, w: Window)
    requires
        oi < old(outs).len(),
        wi < old(outs)@[oi as int].workspaces.len(),
    ensures
        deep_outputs(final(outs)@) == placed(deep_outputs(old(outs)@), oi as int, wi as int, ci, w),
{
    let ghost orig = deep_outputs(outs@);
    let ghost before = outs@;
    let mut o = outs.remove(oi);
    let ghost ws_before = o.workspaces@;
    let mut wv = o.workspaces.remove(wi);
    add_column_to_exec(&mut wv.columns, ci, w);
    o.workspaces.insert(wi, wv);
    outs.insert(oi, o);
    proof {
        assert(o.workspaces@ =~= ws_before.update(wi as int, wv));
        assert(wv.deep() == WorkspaceModel {
            columns: add_to_columns(orig[oi as int].workspaces[wi as int].columns, ci, w),
            ..orig[oi as int].workspaces[wi as int]
        });
        assert(deep_workspaces(o.workspaces@) =~= orig[oi as int].workspaces.update(
            wi as int,
            wv.deep(),
        ));
        assert(outs@ =~= before.update(oi as int, o));
        assert(deep_outputs(outs@) =~= orig.update(oi as int, o.deep()));
    }
}

/// Appends one window to the column carrying index `ci` in an index-sorted
/// column list, creating the column on first use, per `add_to_columns`.
fn add_column_to_exec(cols: &mut Vec<ColumnView>, ci: usize, w: Window)
    ensures
        deep_columns(final(cols)@) == add_to_columns(deep_columns(old(cols)@), ci, w),
{
    let ghost orig = deep_columns(cols@);
    let mut p: usize = 0;
    while p < cols.len() && cols[p].index < ci
        invariant
            p <= cols.len(),
            cols@ == old(cols)@,
            forall|q: int| 0 <= q < p ==> cols@[q].index < ci,
        decreases cols.len() - p,
    {
        p += 1;
    }
    proof {
        lemma_add_to_columns_at(orig, ci, w, p as int);
    }
    if p < cols.len() && cols[p].index == ci {
        let ghost before = cols@;
        let mut c = cols.remove(p);
        c.windows.push(WindowEntry { id: w.id, column: c.index, is_focused: w.is_focused });
        c.num_windows = c.windows.len();
        c.has_focused_window = c.has_focused_window || w.is_focused;
        cols.insert(p, c);
        proof {
            assert(c.deep() == column_with_window(orig[p as int], w));
            assert(cols@ =~= before.update(p as int, c));
            assert(deep_columns(cols@) =~= orig.update(p as int, c.deep()));
        }
    } else {
        let mut wlist: Vec<WindowEntry> = Vec::new();
        wlist.push(WindowEntry { id: w.id, column: ci, is_focused: w.is_focused });
        let c = ColumnView {
            index: ci,
            windows: wlist,
            num_windows: 1,
            has_focused_window: w.is_focused,
        };
        cols.insert(p, c);
        proof {
            assert(c.deep() == new_column(ci, w));
            assert(deep_columns(cols@) =~= orig.insert(p as int, new_column(ci, w)));
        }
    }
}

impl State {
    /// Projects the model into the nested view: a pure function of the
    /// snapshot, per `project_spec`. `Err` arises exactly when a non-floating
    /// window references a workspace under no output bucket, or lacks a tile
    /// position.
    pub fn project(&self) -> (r: Result<OutputsView, ProjectError>)
        ensures
            match r {
                Ok(v) => project_spec(self.workspaces@, self.windows@) == Ok::<_, ProjectError>(
                    v.deep(),
                ),
                Err(e) => project_spec(self.workspaces@, self.windows@) == Err::<
                    Seq<OutputModel>,
                    _,
                >(e),
            },
    {
        let mut outs: Vec<OutputView> = Vec::new();
        proof {
            assert(self.workspaces@.take(0) =~= Seq::<Workspace>::empty());
            assert(deep_outputs(outs@) =~= Seq::<OutputModel>::empty());
        }
        let mut i: usize = 0;
        while i < self.workspaces.len()
            invariant
                i <= self.workspaces.len(),
                deep_outputs(outs@) == buckets(self.workspaces@.take(i as int)),
            decreases self.workspaces.len() - i,
        {
            add_workspace_exec(&mut outs, &self.workspaces[i]);
            proof {
                assert(self.workspaces@.take(i as int + 1).drop_last() =~= self.workspaces@.take(
                    i as int,
                ));
                assert(self.workspaces@.take(i as int + 1).last() == self.workspaces@[i as int]);
            }
            i += 1;
        }
        proof {
            assert(self.workspaces@.take(self.workspaces@.len() as int) =~= self.workspaces@);
        }
        let ghost all = buckets(self.workspaces@);
        let mut j: usize = 0;
        proof {
            assert(self.windows@.skip(0) =~= self.windows@);
        }
        while j < self.windows.len()
            invariant
                j <= self.windows.len(),
                all == buckets(self.workspaces@),
                place_windows(all, self.windows@) == place_windows(
                    deep_outputs(outs@),
                    self.windows@.skip(j as int),
                ),
            decreases self.windows.len() - j,
        {
            let w = self.windows[j];
            proof {
                assert(self.windows@.skip(j as int)[0] == w);
                assert(self.windows@.skip(j as int).drop_first() =~= self.windows@.skip(
                    j as int + 1,
                ));
            }
            if !w.is_floating {
                if let Some(wid) = w.workspace_id {
                    match find_slot_exec(&outs, wid) {
                        None => {
                            return Err(ProjectError::WorkspaceNotFound);
                        },
                        Some((oi, wi)) => {
                            match w.pos {
                                None => {
                                    return Err(ProjectError::MissingTilePosition);
                                },
                                Some(pos) => {
                                    place_window_exec(&mut outs, oi, wi, pos.col, w);
                                },
                            }
                        },
                    }
                }
            }
            j += 1;
        }
        proof {
            assert(self.windows@.skip(self.windows@.len() as int) =~= Seq::<Window>::empty());
        }
        Ok(OutputsView { outputs: outs })
    }
}

} // verus!
