//! The event reducer: one update rule per event kind, each stated as a spec
//! function over the model's sequences and implemented by a verified pass.

use vstd::prelude::*;

use crate::model::Event;
use crate::model::LayoutChange;
use crate::model::State;
use crate::model::Window;
use crate::model::Workspace;
use crate::model::out_name;
use crate::seqs::first_where;
use crate::seqs::lemma_first_where_found;
use crate::seqs::lemma_first_where_none;

verus! {

/// Why an event could not be applied: the model has desynchronized from
/// upstream truth and must be rebuilt by a full resync.
#[derive(Clone, Copy, PartialEq, Eq, Structural, Debug)]
pub enum ReduceError {
    /// A "workspace activated" event referenced an unknown workspace id.
    WorkspaceNotFound,
}

/// Picks the workspace record carrying `id`.
pub open spec fn ws_has_id(id: u64) -> spec_fn(Workspace) -> bool {
    |w: Workspace| w.id == id
}

/// Picks the window record carrying `id`.
pub open spec fn win_has_id(id: u64) -> spec_fn(Window) -> bool {
    |w: Window| w.id == id
}

/// Keeps every window but the one carrying `id`.
pub open spec fn keeps_id(id: u64) -> spec_fn(Window) -> bool {
    |w: Window| w.id != id
}

/// Every workspace with input focus cleared.
pub open spec fn clear_workspace_focus(ws: Seq<Workspace>) -> Seq<Workspace> {
    ws.map_values(|w: Workspace| Workspace { is_focused: false, ..w })
}

/// Every workspace on output `name`, other than the one carrying `id`,
/// deactivated.
pub open spec fn deactivate_other_workspaces_on(ws: Seq<Workspace>, id: u64, name: Seq<char>) -> Seq<
    Workspace,
> {
    ws.map_values(
        |w: Workspace|
            if w.id != id && out_name(w.output) == Some(name) {
                Workspace { is_active: false, ..w }
            } else {
                w
            },
    )
}

/// The workspace list after a "workspace activated" event whose target is
/// present: a global unfocus pass when the target takes focus, activation of
/// the first record carrying the target id, then deactivation of every other
/// workspace on the target's output.
pub open spec fn workspaces_after_activate(ws: Seq<Workspace>, id: u64, focused: bool) -> Seq<
    Workspace,
>
    recommends
        first_where(ws, ws_has_id(id)) >= 0,
{
    let k = first_where(ws, ws_has_id(id));
    let cleared = if focused {
        clear_workspace_focus(ws)
    } else {
        ws
    };
    let activated = cleared.update(
        k,
        Workspace { is_active: true, is_focused: focused, ..cleared[k] },
    );
    match out_name(ws[k].output) {
        Some(name) => deactivate_other_workspaces_on(activated, id, name),
        None => activated,
    }
}

/// The workspace list after a "workspace active-window changed" event: the
/// first record carrying `workspace_id` gets `active_window_id`; a missing
/// workspace is a no-op.
pub open spec fn workspaces_after_active_window(
    ws: Seq<Workspace>,
    workspace_id: u64,
    active_window_id: Option<u64>,
) -> Seq<Workspace> {
    let k = first_where(ws, ws_has_id(workspace_id));
    if k >= 0 {
        ws.update(k, Workspace { active_window_id, ..ws[k] })
    } else {
        ws
    }
}

/// Every window with input focus cleared.
pub open spec fn clear_window_focus(wins: Seq<Window>) -> Seq<Window> {
    wins.map_values(|w: Window| Window { is_focused: false, ..w })
}

/// The window list after a "window opened-or-changed" event: a global unfocus
/// pass when the incoming window holds focus, then replacement of the first
/// record with the same id, or an append.
pub open spec fn windows_after_upsert(wins: Seq<Window>, window: Window) -> Seq<Window> {
    let base = if window.is_focused {
        clear_window_focus(wins)
    } else {
        wins
    };
    let k = first_where(wins, win_has_id(window.id));
    if k >= 0 {
        base.update(k, window)
    } else {
        base.push(window)
    }
}

/// The window list after a "window closed" event: the record carrying `id` is
/// gone; a missing window is a no-op.
pub open spec fn windows_after_close(wins: Seq<Window>, id: u64) -> Seq<Window> {
    wins.filter(keeps_id(id))
}

/// The window list after a "window focus changed" event: a global unfocus
/// pass, then focus on the first record carrying `id`, if any.
pub open spec fn windows_after_focus(wins: Seq<Window>, id: Option<u64>) -> Seq<Window> {
    let cleared = clear_window_focus(wins);
    match id {
        Some(i) => {
            let k = first_where(cleared, win_has_id(i));
            if k >= 0 {
                cleared.update(k, Window { is_focused: true, ..cleared[k] })
            } else {
                cleared
            }
        },
        None => cleared,
    }
}

/// One tile-position change applied to the first window carrying its id;
/// unknown ids are ignored.
pub open spec fn window_with_pos(wins: Seq<Window>, change: LayoutChange) -> Seq<Window> {
    let k = first_where(wins, win_has_id(change.id));
    if k >= 0 {
        wins.update(k, Window { pos: change.pos, ..wins[k] })
    } else {
        wins
    }
}

/// The window list after a "window layouts changed" event: the changes applied
/// in order.
pub open spec fn windows_after_layouts(wins: Seq<Window>, changes: Seq<LayoutChange>) -> Seq<Window>
    decreases changes.len(),
{
    if changes.len() == 0 {
        wins
    } else {
        windows_after_layouts(window_with_pos(wins, changes[0]), changes.drop_first())
    }
}

/// The model after one event, or the error that makes it unrecoverable.
/// `Err` arises exactly when a "workspace activated" event names a workspace
/// that is not in the model.
pub open spec fn reduced(ws: Seq<Workspace>, wins: Seq<Window>, e: Event) -> Result<
    (Seq<Workspace>, Seq<Window>),
    ReduceError,
> {
    match e {
        Event::WorkspacesChanged { workspaces } => Ok((workspaces@, wins)),
        Event::WorkspaceActivated { id, focused } => if first_where(ws, ws_has_id(id)) >= 0 {
            Ok((workspaces_after_activate(ws, id, focused), wins))
        } else {
            Err(ReduceError::WorkspaceNotFound)
        },
        Event::WorkspaceActiveWindowChanged { workspace_id, active_window_id } => Ok(
            (workspaces_after_active_window(ws, workspace_id, active_window_id), wins),
        ),
        Event::WindowsChanged { windows } => Ok((ws, windows@)),
        Event::WindowOpenedOrChanged { window } => Ok((ws, windows_after_upsert(wins, window))),
        Event::WindowClosed { id } => Ok((ws, windows_after_close(wins, id))),
        Event::WindowFocusChanged { id } => Ok((ws, windows_after_focus(wins, id))),
        Event::WindowLayoutsChanged { changes } => Ok((ws, windows_after_layouts(wins, changes@))),
        Event::Other => Ok((ws, wins)),
    }
}

/// Index of the first workspace carrying `id`, if any.
fn find_workspace(ws: &Vec<Workspace>, id: u64) -> (r: Option<usize>)
    ensures
        match r {
            Some(k) => k < ws.len() && first_where(ws@, ws_has_id(id)) == k as int,
            None => first_where(ws@, ws_has_id(id)) == -1,
        },
{
    let mut i: usize = 0;
    while i < ws.len()
        invariant
            i <= ws.len(),
            forall|j: int| 0 <= j < i ==> ws@[j].id != id,
        decreases ws.len() - i,
    {
        if ws[i].id == id {
            proof {
                lemma_first_where_found(ws@, ws_has_id(id), i as int);
            }
            return Some(i);
        }
        i += 1;
    }
    proof {
        lemma_first_where_none(ws@, ws_has_id(id));
    }
    None
}

/// Index of the first window carrying `id`, if any.
fn find_window(wins: &Vec<Window>, id: u64) -> (r: Option<usize>)
    ensures
        match r {
            Some(k) => k < wins.len() && first_where(wins@, win_has_id(id)) == k as int,
            None => first_where(wins@, win_has_id(id)) == -1,
        },
{
    let mut i: usize = 0;
    while i < wins.len()
        invariant
            i <= wins.len(),
            forall|j: int| 0 <= j < i ==> wins@[j].id != id,
        decreases wins.len() - i,
    {
        if wins[i].id == id {
            proof {
                lemma_first_where_found(wins@, win_has_id(id), i as int);
            }
            return Some(i);
        }
        i += 1;
    }
    proof {
        lemma_first_where_none(wins@, win_has_id(id));
    }
    None
}

/// Clears `is_focused` on every workspace.
fn clear_workspace_focus_exec(ws: &mut Vec<Workspace>)
    ensures
        final(ws)@ == clear_workspace_focus(old(ws)@),
{
    let ghost orig = ws@;
    let mut i: usize = 0;
    while i < ws.len()
        invariant
            i <= ws.len(),
            ws@.len() == orig.len(),
            forall|j: int| 0 <= j < i ==> ws@[j] == (Workspace { is_focused: false, ..orig[j] }),
            forall|j: int| i <= j < orig.len() ==> ws@[j] == orig[j],
        decreases ws.len() - i,
    {
        let ghost before = ws@;
        let mut w = ws.remove(i);
        w.is_focused = false;
        ws.insert(i, w);
        proof {
            assert(ws@ =~= before.update(i as int, Workspace { is_focused: false, ..orig[i as int] }));
        }
        i += 1;
    }
    proof {
        assert(ws@ =~= clear_workspace_focus(orig));
    }
}

/// Clears `is_active` on every workspace on output `name` other than the one
/// carrying `id`.
fn deactivate_others_exec(ws: &mut Vec<Workspace>, id: u64, name: &String)
    ensures
        final(ws)@ == deactivate_other_workspaces_on(old(ws)@, id, name@),
{
    let ghost orig = ws@;
    let mut i: usize = 0;
    while i < ws.len()
        invariant
            i <= ws.len(),
            ws@.len() == orig.len(),
            forall|j: int|
                0 <= j < i ==> ws@[j] == (if orig[j].id != id && out_name(orig[j].output) == Some(
                    name@,
                ) {
                    Workspace { is_active: false, ..orig[j] }
                } else {
                    orig[j]
                }),
            forall|j: int| i <= j < orig.len() ==> ws@[j] == orig[j],
        decreases ws.len() - i,
    {
        let ghost before = ws@;
        let matches_output = match &ws[i].output {
            Some(o) => *o == *name,
            None => false,
        };
        if ws[i].id != id && matches_output {
            let mut w = ws.remove(i);
            w.is_active = false;
            ws.insert(i, w);
            proof {
                assert(ws@ =~= before.update(
                    i as int,
                    Workspace { is_active: false, ..orig[i as int] },
                ));
            }
        }
        i += 1;
    }
    proof {
        assert(ws@ =~= deactivate_other_workspaces_on(orig, id, name@));
    }
}

/// Clears `is_focused` on every window.
fn clear_window_focus_exec(wins: &mut Vec<Window>)
    ensures
        final(wins)@ == clear_window_focus(old(wins)@),
{
    let ghost orig = wins@;
    let mut i: usize = 0;
    while i < wins.len()
        invariant
            i <= wins.len(),
            wins@.len() == orig.len(),
            forall|j: int| 0 <= j < i ==> wins@[j] == (Window { is_focused: false, ..orig[j] }),
            forall|j: int| i <= j < orig.len() ==> wins@[j] == orig[j],
        decreases wins.len() - i,
    {
        let mut w = wins[i];
        w.is_focused = false;
        wins.set(i, w);
        i += 1;
    }
    proof {
        assert(wins@ =~= clear_window_focus(orig));
    }
}

impl State {
    /// Handles a "workspace activated" event.
    fn on_workspace_activated(&mut self, id: u64, focused: bool) -> (r: Result<(), ReduceError>)
        ensures
            match r {
                Ok(()) => first_where(old(self).workspaces@, ws_has_id(id)) >= 0
                    && final(self).workspaces@ == workspaces_after_activate(
                        old(self).workspaces@, id, focused)
                    && final(self).windows@ == old(self).windows@,
                Err(e) => e == ReduceError::WorkspaceNotFound
                    && first_where(old(self).workspaces@, ws_has_id(id)) == -1
                    && final(self).workspaces@ == old(self).workspaces@
                    && final(self).windows@ == old(self).windows@,
            },
    {
        let ghost orig = self.workspaces@;
        let k = match find_workspace(&self.workspaces, id) {
            Some(k) => k,
            None => {
                return Err(ReduceError::WorkspaceNotFound);
            },
        };
        if focused {
            clear_workspace_focus_exec(&mut self.workspaces);
        }
        let ghost cleared = self.workspaces@;
        let mut w = self.workspaces.remove(k);
        w.is_active = true;
        w.is_focused = focused;
        let target_output: Option<String> = match &w.output {
            Some(o) => Some(o.clone()),
            None => None,
        };
        self.workspaces.insert(k, w);
        proof {
            assert(cleared[k as int].output == orig[k as int].output);
            assert(self.workspaces@ =~= cleared.update(
                k as int,
                Workspace { is_active: true, is_focused: focused, ..cleared[k as int] },
            ));
        }
        match &target_output {
            Some(name) => {
                deactivate_others_exec(&mut self.workspaces, id, name);
                proof {
                    assert(out_name(orig[k as int].output) == Some(name@));
                }
            },
            None => {
                proof {
                    assert(out_name(orig[k as int].output) is None);
                }
            },
        }
        proof {
            assert(self.workspaces@ == workspaces_after_activate(orig, id, focused));
        }
        Ok(())
    }

    /// Handles a "workspace active-window changed" event.
    fn on_active_window_changed(&mut self, workspace_id: u64, active_window_id: Option<u64>)
        ensures
            final(self).workspaces@ == workspaces_after_active_window(
                old(self).workspaces@,
                workspace_id,
                active_window_id,
            ),
            final(self).windows@ == old(self).windows@,
    {
        let ghost orig = self.workspaces@;
        if let Some(k) = find_workspace(&self.workspaces, workspace_id) {
            let mut w = self.workspaces.remove(k);
            w.active_window_id = active_window_id;
            self.workspaces.insert(k, w);
            proof {
                assert(self.workspaces@ =~= orig.update(
                    k as int,
                    Workspace { active_window_id, ..orig[k as int] },
                ));
            }
        }
    }

    /// Handles a "window opened-or-changed" event.
    fn on_window_opened_or_changed(&mut self, window: Window)
        ensures
            final(self).windows@ == windows_after_upsert(old(self).windows@, window),
            final(self).workspaces@ == old(self).workspaces@,
    {
        let found = find_window(&self.windows, window.id);
        if window.is_focused {
            clear_window_focus_exec(&mut self.windows);
        }
        match found {
            Some(k) => {
                self.windows.set(k, window);
            },
            None => {
                self.windows.push(window);
            },
        }
    }

    /// Handles a "window closed" event.
    fn on_window_closed(&mut self, id: u64)
        ensures
            final(self).windows@ == windows_after_close(old(self).windows@, id),
            final(self).workspaces@ == old(self).workspaces@,
    {
        let ghost orig = self.windows@;
        let mut kept: Vec<Window> = Vec::new();
        let mut i: usize = 0;
        while i < self.windows.len()
            invariant
                i <= self.windows.len(),
                self.windows@ == orig,
                kept@ == orig.take(i as int).filter(keeps_id(id)),
            decreases self.windows.len() - i,
        {
            let w = self.windows[i];
            proof {
                assert(orig.take(i as int + 1).drop_last() =~= orig.take(i as int));
                assert(orig.take(i as int + 1).last() == orig[i as int]);
                reveal_with_fuel(Seq::filter, 2);
            }
            if w.id != id {
                kept.push(w);
            }
            i += 1;
        }
        proof {
            assert(orig.take(orig.len() as int) =~= orig);
        }
        self.windows = kept;
    }

    /// Handles a "window focus changed" event.
    fn on_window_focus_changed(&mut self, id: Option<u64>)
        ensures
            final(self).windows@ == windows_after_focus(old(self).windows@, id),
            final(self).workspaces@ == old(self).workspaces@,
    {
        clear_window_focus_exec(&mut self.windows);
        if let Some(target) = id {
            if let Some(k) = find_window(&self.windows, target) {
                let mut w = self.windows[k];
                w.is_focused = true;
                self.windows.set(k, w);
            }
        }
    }

    /// Handles a "window layouts changed" event.
    fn on_window_layouts_changed(&mut self, changes: Vec<LayoutChange>)
        ensures
            final(self).windows@ == windows_after_layouts(old(self).windows@, changes@),
            final(self).workspaces@ == old(self).workspaces@,
    {
        let ghost orig = self.windows@;
        let mut i: usize = 0;
        while i < changes.len()
            invariant
                i <= changes.len(),
                self.windows@ == windows_after_layouts(orig, changes@.take(i as int)),
                self.workspaces@ == old(self).workspaces@,
            decreases changes.len() - i,
        {
            let change = changes[i];
            let ghost before = self.windows@;
            if let Some(k) = find_window(&self.windows, change.id) {
                let mut w = self.windows[k];
                w.pos = change.pos;
                self.windows.set(k, w);
            }
            proof {
                assert(self.windows@ == window_with_pos(before, change));
                lemma_layouts_unfold_step(orig, changes@, i as int);
                assert(changes@.take(i as int + 1) =~= changes@.take(i as int).push(
                    changes@[i as int],
                ));
            }
            i += 1;
        }
        proof {
            assert(changes@.take(changes@.len() as int) =~= changes@);
        }
    }

    /// Applies one event to the model, per the rules of `reduced`. `Err` is
    /// returned exactly when a "workspace activated" event names a workspace
    /// that is not in the model; the model is then left unchanged so that the
    /// caller can abort and resync.
    pub fn apply(&mut self, event: Event) -> (r: Result<(), ReduceError>)
        ensures
            match r {
                Ok(()) => reduced(old(self).workspaces@, old(self).windows@, event) == Ok::<
                    _,
                    ReduceError,
                >((final(self).workspaces@, final(self).windows@)),
                Err(e) => reduced(old(self).workspaces@, old(self).windows@, event) == Err::<
                    (Seq<Workspace>, Seq<Window>),
                    _,
                >(e) && final(self).workspaces@ == old(self).workspaces@ && final(self).windows@
                    == old(self).windows@,
            },
    {
        match event {
            Event::WorkspacesChanged { workspaces } => {
                self.workspaces = workspaces;
                Ok(())
            },
            Event::WorkspaceActivated { id, focused } => self.on_workspace_activated(id, focused),
            Event::WorkspaceActiveWindowChanged { workspace_id, active_window_id } => {
                self.on_active_window_changed(workspace_id, active_window_id);
                Ok(())
            },
            Event::WindowsChanged { windows } => {
                self.windows = windows;
                Ok(())
            },
            Event::WindowOpenedOrChanged { window } => {
                self.on_window_opened_or_changed(window);
                Ok(())
            },
            Event::WindowClosed { id } => {
                self.on_window_closed(id);
                Ok(())
            },
            Event::WindowFocusChanged { id } => {
                self.on_window_focus_changed(id);
                Ok(())
            },
            Event::WindowLayoutsChanged { changes } => {
                self.on_window_layouts_changed(changes);
                Ok(())
            },
            Event::Other => Ok(()),
        }
    }
}

/// Peeling one more change off the front of a prefix of `changes`.
proof fn lemma_layouts_push(wins: Seq<Window>, changes: Seq<LayoutChange>, change: LayoutChange)
    ensures
        windows_after_layouts(wins, changes.push(change)) == window_with_pos(
            windows_after_layouts(wins, changes),
            change,
        ),
    decreases changes.len(),
{
    reveal_with_fuel(windows_after_layouts, 3);
    if changes.len() == 0 {
        assert(changes.push(change).drop_first() =~= Seq::<LayoutChange>::empty());
        assert(changes.push(change)[0] == change);
    } else {
        assert(changes.push(change)[0] == changes[0]);
        assert(changes.push(change).drop_first() =~= changes.drop_first().push(change));
        lemma_layouts_push(window_with_pos(wins, changes[0]), changes.drop_first(), change);
    }
}

/// Extending the applied prefix of `changes` by one entry.
proof fn lemma_layouts_unfold_step(wins: Seq<Window>, changes: Seq<LayoutChange>, i: int)
    requires
        0 <= i < changes.len(),
    ensures
        windows_after_layouts(wins, changes.take(i + 1)) == window_with_pos(
            windows_after_layouts(wins, changes.take(i)),
            changes[i],
        ),
{
    assert(changes.take(i + 1) =~= changes.take(i).push(changes[i]));
    lemma_layouts_push(wins, changes.take(i), changes[i]);
}

} // verus!
