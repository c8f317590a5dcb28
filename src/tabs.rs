//! The tab registry: one active buffer, the inactive buffers keyed by path,
//! the ordered tab list, and debounced persistence.
//!
//! Paths handed to the registry are canonical (the caller resolves symlinks
//! and relative parts), so identity is plain string equality.

use vstd::prelude::*;
use crate::buffer::Buffer;

verus! {

/// The path of a buffer as characters.
pub open spec fn path_of(b: Buffer) -> Option<Seq<char>> {
    match b.path {
        Some(p) => Some(p@),
        None => None,
    }
}

/// A buffer has a write pending: it is dirty or a save deadline is set.
pub open spec fn pending(b: Buffer) -> bool {
    b.dirty || b.save_deadline is Some
}

/// A save deadline that has passed at time `now`.
pub open spec fn due(b: Buffer, now: u64) -> bool {
    match b.save_deadline {
        Some(d) => d <= now,
        None => false,
    }
}

/// The number of buffers with a pending write among the first `n`.
pub open spec fn pending_in(v: Seq<Buffer>, n: int) -> nat
    decreases n,
{
    if n <= 0 || n > v.len() {
        0
    } else {
        pending_in(v, n - 1) + if pending(v[n - 1]) { 1nat } else { 0nat }
    }
}

/// No path appears twice in the tab list.
pub open spec fn tabs_distinct(t: Seq<String>) -> bool {
    forall|a: int, b: int| 0 <= a < b < t.len() ==> (#[trigger] t[a])@ != (#[trigger] t[b])@
}

/// A text snapshot handed to the writer: the file and what to write there.
#[derive(Debug)]
pub struct Snapshot {
    pub path: String,
    pub text: String,
}

/// Why an activation failed.
#[derive(Clone, Copy, Debug, PartialEq, Eq, Structural)]
pub enum OpenError {
    /// The file is not open and could not be loaded.
    LoadFailed,
}

/// The open buffers.
pub struct TabRegistry {
    /// The buffer being edited.
    pub active: Buffer,
    /// The other open buffers, each under its own distinct path.
    pub inactive: Vec<Buffer>,
    /// The tabs in display order.
    pub open_tabs: Vec<String>,
    /// The last file saved and when, in milliseconds.
    pub last_saved: Option<(String, u64)>,
}

impl TabRegistry {
    /// Every buffer keeps its cursor valid; inactive buffers have distinct
    /// paths, none equal to the active buffer's.
    pub open spec fn wf(&self) -> bool {
        &&& self.active.wf()
        &&& forall|i: int| 0 <= i < self.inactive@.len() ==> (#[trigger] self.inactive@[i]).wf()
            && self.inactive@[i].path is Some
        &&& forall|i: int, j: int|
            0 <= i < j < self.inactive@.len() ==> path_of(#[trigger] self.inactive@[i]) != path_of(
                #[trigger] self.inactive@[j],
            )
        &&& forall|i: int|
            0 <= i < self.inactive@.len() ==> path_of(#[trigger] self.inactive@[i]) != path_of(
                self.active,
            )
        &&& tabs_distinct(self.open_tabs@)
    }

    /// A registry holding one buffer, with a tab for it when it has a path.
    pub fn new(active: Buffer) -> (r: TabRegistry)
        requires
            active.wf(),
        ensures
            r.wf(),
            r.active == active,
            r.inactive@.len() == 0,
            active.path is Some ==> r.open_tabs@.len() == 1 && r.open_tabs@[0]@ == active.path->0@,
            active.path is None ==> r.open_tabs@.len() == 0,
    {
        let mut tabs: Vec<String> = Vec::new();
        match &active.path {
            Some(p) => tabs.push(p.clone()),
            None => {},
        }
        TabRegistry { active, inactive: Vec::new(), open_tabs: tabs, last_saved: None }
    }

    /// Number of buffers, active and inactive, with a pending write.
    pub fn pending_write_count(&self) -> (r: usize)
        ensures
            r == pending_total(self) || (r == usize::MAX && pending_total(self) > usize::MAX),
            r == 0 <==> pending_total(self) == 0,
    {
        let mut count: usize = if self.active.dirty || self.active.save_deadline.is_some() {
            1
        } else {
            0
        };
        let mut i: usize = 0;
        while i < self.inactive.len()
            invariant
                i <= self.inactive@.len(),
                count == (if pending(self.active) { 1nat } else { 0nat }) + pending_in(
                    self.inactive@,
                    i as int,
                ) || (count == usize::MAX && (if pending(self.active) { 1nat } else { 0nat }) + pending_in(
                    self.inactive@,
                    i as int,
                ) > usize::MAX),
                count == 0 <==> (if pending(self.active) { 1nat } else { 0nat }) + pending_in(
                    self.inactive@,
                    i as int,
                ) == 0,
            decreases self.inactive.len() - i,
        {
            let b = &self.inactive[i];
            if b.dirty || b.save_deadline.is_some() {
                count = count.saturating_add(1);
            }
            i = i + 1;
        }
        count
    }

    /// Index of the inactive buffer for `path`.
    pub fn find_inactive(&self, path: &String) -> (r: Option<usize>)
        ensures
            r matches Some(i) ==> i < self.inactive@.len() && path_of(self.inactive@[i as int])
                == Some(path@),
            r is None ==> forall|i: int|
                0 <= i < self.inactive@.len() ==> path_of(#[trigger] self.inactive@[i]) != Some(path@),
    {
        let mut i: usize = 0;
        while i < self.inactive.len()
            invariant
                i <= self.inactive@.len(),
                forall|k: int| 0 <= k < i ==> path_of(#[trigger] self.inactive@[k]) != Some(path@),
            decreases self.inactive.len() - i,
        {
            match &self.inactive[i].path {
                Some(p) => {
                    if *p == *path {
                        return Some(i);
                    }
                },
                None => {},
            }
            i = i + 1;
        }
        None
    }

    /// Whether `path` names the active buffer.
    pub fn is_active(&self, path: &String) -> (r: bool)
        ensures
            r == (path_of(self.active) == Some(path@)),
    {
        match &self.active.path {
            Some(p) => *p == *path,
            None => false,
        }
    }

    /// Re-arms the active buffer's save deadline at `now + delay`,
    /// replacing any earlier one.
    pub fn schedule_auto_save(&mut self, now: u64, delay: u64)
        ensures
            final(self).active.save_deadline == Some(
                if now + delay <= u64::MAX { (now + delay) as u64 } else { u64::MAX },
            ),
            final(self).active.save_deadline == debounce_step(old(self).active.save_deadline, SaveEvent::Edit(now), delay).0,
            final(self).active.rope == old(self).active.rope,
            final(self).active.cursor == old(self).active.cursor,
            final(self).active.dirty == old(self).active.dirty,
            final(self).active.path == old(self).active.path,
            final(self).active.viewport == old(self).active.viewport,
            final(self).inactive@ == old(self).inactive@,
            final(self).open_tabs@ == old(self).open_tabs@,
            final(self).last_saved == old(self).last_saved,
    {
        self.active.save_deadline = Some(now.saturating_add(delay));
    }

    /// Saves the active buffer if it has a path: clears its dirty flag and
    /// deadline, records the save time, and returns the snapshot to write.
    pub fn save_active(&mut self, now: u64) -> (r: Option<Snapshot>)
        requires
            old(self).wf(),
        ensures
            final(self).wf(),
            old(self).active.path is None <==> r is None,
            old(self).active.path is None ==> *final(self) == *old(self),
            r matches Some(snap) ==> {
                &&& Some(snap.path@) == path_of(old(self).active)
                &&& snap.text@ == old(self).active.text()
                &&& !final(self).active.dirty
                &&& final(self).active.save_deadline is None
                &&& final(self).active.text() == old(self).active.text()
                &&& final(self).active.cursor == old(self).active.cursor
                &&& final(self).active.viewport == old(self).active.viewport
                &&& final(self).active.path == old(self).active.path
                &&& final(self).inactive@ == old(self).inactive@
                &&& final(self).open_tabs@ == old(self).open_tabs@
                &&& final(self).last_saved matches Some(ls) && ls.0@ == snap.path@ && ls.1 == now
            },
    {
        let path = match &self.active.path {
            Some(p) => p.clone(),
            None => {
                return None;
            },
        };
        self.active.save_deadline = None;
        self.active.dirty = false;
        self.last_saved = Some((path.clone(), now));
        let text = self.active.contents();
        Some(Snapshot { path, text })
    }

    /// Saves inactive buffer `i`: clears its dirty flag and deadline and
    /// returns the snapshot to write.
    fn save_inactive(&mut self, i: usize) -> (r: Snapshot)
        requires
            old(self).wf(),
            i < old(self).inactive@.len(),
        ensures
            final(self).wf(),
            Some(r.path@) == path_of(old(self).inactive@[i as int]),
            r.text@ == old(self).inactive@[i as int].text(),
            final(self).active == old(self).active,
            final(self).inactive@.len() == old(self).inactive@.len(),
            !pending(final(self).inactive@[i as int]),
            final(self).inactive@[i as int].text() == old(self).inactive@[i as int].text(),
            path_of(final(self).inactive@[i as int]) == path_of(old(self).inactive@[i as int]),
            forall|k: int| 0 <= k < old(self).inactive@.len() && k != i ==> final(self).inactive@[k]
                == old(self).inactive@[k],
            final(self).open_tabs@ == old(self).open_tabs@,
            final(self).last_saved == old(self).last_saved,
    {
        let mut b = self.inactive.remove(i);
        b.save_deadline = None;
        b.dirty = false;
        let path = match &b.path {
            Some(p) => p.clone(),
            None => String::new(),
        };
        let text = b.contents();
        self.inactive.insert(i, b);
        proof {
            let old_v = old(self).inactive@;
            let new_v = self.inactive@;
            assert forall|k: int| 0 <= k < new_v.len() && k != i implies new_v[k] == old_v[k] by {}
            assert forall|a: int, c: int| 0 <= a < c < new_v.len() implies path_of(#[trigger] new_v[a]) != path_of(
                #[trigger] new_v[c],
            ) by {
                assert(path_of(new_v[a]) == path_of(old_v[a]));
                assert(path_of(new_v[c]) == path_of(old_v[c]));
            }
            assert forall|a: int| 0 <= a < new_v.len() implies path_of(#[trigger] new_v[a]) != path_of(
                self.active,
            ) by {
                assert(path_of(new_v[a]) == path_of(old_v[a]));
            }
        }
        Snapshot { path, text }
    }

    /// The periodic tick: every buffer whose save deadline has passed at
    /// `now` is saved (the active one only if it has a path), and the
    /// snapshots to write are returned.
    pub fn tick_saves(&mut self, now: u64) -> (r: Vec<Snapshot>)
        requires
            old(self).wf(),
        ensures
            final(self).wf(),
            final(self).inactive@.len() == old(self).inactive@.len(),
            forall|k: int| 0 <= k < old(self).inactive@.len() ==> (#[trigger] final(self).inactive@[k]).text()
                == old(self).inactive@[k].text() && path_of(final(self).inactive@[k]) == path_of(
                old(self).inactive@[k],
            ),
            forall|k: int| 0 <= k < old(self).inactive@.len() && due(old(self).inactive@[k], now)
                ==> !pending(#[trigger] final(self).inactive@[k]),
            forall|k: int| 0 <= k < old(self).inactive@.len() && !due(old(self).inactive@[k], now)
                ==> #[trigger] final(self).inactive@[k] == old(self).inactive@[k],
            due(old(self).active, now) && old(self).active.path is Some ==> !pending(final(self).active),
            !(due(old(self).active, now) && old(self).active.path is Some) ==> final(self).active
                == old(self).active,
            final(self).active.text() == old(self).active.text(),
            old(self).active.path is Some ==> final(self).active.save_deadline == debounce_step(
                old(self).active.save_deadline,
                SaveEvent::Tick(now),
                0,
            ).0 && (debounce_step(old(self).active.save_deadline, SaveEvent::Tick(now), 0).1 ==> r@.len() > 0
                && snap_views(r@)[0] == snapshot_of(old(self).active)),
            r@.len() == (if due(old(self).active, now) && old(self).active.path is Some { 1int } else { 0int })
                + due_in(old(self).inactive@, now, old(self).inactive@.len() as int),
            snap_views(r@) == (if due(old(self).active, now) && old(self).active.path is Some {
                seq![snapshot_of(old(self).active)]
            } else {
                Seq::empty()
            }) + due_snaps(old(self).inactive@, now, old(self).inactive@.len() as int),
            final(self).open_tabs@ == old(self).open_tabs@,
    {
        let mut out: Vec<Snapshot> = Vec::new();
        let active_due = match self.active.save_deadline {
            Some(d) => d <= now,
            None => false,
        };
        if active_due {
            if let Some(snap) = self.save_active(now) {
                out.push(snap);
            }
        }
        let ghost mid = self.inactive@;
        let ghost act = self.active;
        let mut i: usize = 0;
        while i < self.inactive.len()
            invariant
                self.open_tabs@ == old(self).open_tabs@,
                self.wf(),
                self.active == act,
                self.inactive@.len() == mid.len() == old(self).inactive@.len(),
                mid == old(self).inactive@,
                i <= mid.len(),
                out@.len() == (if due(old(self).active, now) && old(self).active.path is Some { 1int } else { 0int })
                    + due_in(mid, now, i as int),
                snap_views(out@) == (if due(old(self).active, now) && old(self).active.path is Some {
                    seq![snapshot_of(old(self).active)]
                } else {
                    Seq::empty()
                }) + due_snaps(mid, now, i as int),
                forall|k: int| 0 <= k < mid.len() ==> (#[trigger] self.inactive@[k]).text() == mid[k].text()
                    && path_of(self.inactive@[k]) == path_of(mid[k]),
                forall|k: int| 0 <= k < i && due(mid[k], now) ==> !pending(#[trigger] self.inactive@[k]),
                forall|k: int| 0 <= k < mid.len() && !(k < i && due(mid[k], now)) ==> #[trigger] self.inactive@[k]
                    == mid[k],
            decreases mid.len() - i,
        {
            let is_due = match self.inactive[i].save_deadline {
                Some(d) => d <= now,
                None => false,
            };
            if is_due {
                let ghost before = snap_views(out@);
                let snap = self.save_inactive(i);
                out.push(snap);
                proof {
                    assert(snap_views(out@) == before.push(snap_view(snap)));
                }
            }
            i = i + 1;
        }
        out
    }

    /// Saves every buffer with a pending write, the active one only if it
    /// has a path, and returns the snapshots to write.
    pub fn save_all(&mut self, now: u64) -> (r: Vec<Snapshot>)
        requires
            old(self).wf(),
        ensures
            final(self).wf(),
            pending(old(self).active) && old(self).active.path is Some ==> !pending(final(self).active),
            !(pending(old(self).active) && old(self).active.path is Some) ==> final(self).active == old(self).active,
            final(self).active.viewport == old(self).active.viewport,
            snap_views(r@) == all_pending_snaps(*old(self)),
            final(self).active.text() == old(self).active.text(),
            final(self).active.cursor == old(self).active.cursor,
            path_of(final(self).active) == path_of(old(self).active),
            final(self).inactive@.len() == old(self).inactive@.len(),
            forall|k: int| 0 <= k < old(self).inactive@.len() ==> (#[trigger] final(self).inactive@[k]).text()
                == old(self).inactive@[k].text() && path_of(final(self).inactive@[k]) == path_of(old(self).inactive@[k]),
            final(self).open_tabs@ == old(self).open_tabs@,
            forall|k: int| 0 <= k < old(self).inactive@.len() ==> !pending(#[trigger] final(self).inactive@[k])
                && final(self).inactive@[k].text() == old(self).inactive@[k].text(),
            r@.len() == (if pending(old(self).active) && old(self).active.path is Some { 1int } else { 0int })
                + pending_in(old(self).inactive@, old(self).inactive@.len() as int),
            snap_views(r@) == (if pending(old(self).active) && old(self).active.path is Some {
                seq![snapshot_of(old(self).active)]
            } else {
                Seq::empty()
            }) + pending_snaps(old(self).inactive@, old(self).inactive@.len() as int),
    {
        let mut out: Vec<Snapshot> = Vec::new();
        if self.active.dirty || self.active.save_deadline.is_some() {
            if let Some(snap) = self.save_active(now) {
                out.push(snap);
            }
        }
        let ghost mid = self.inactive@;
        let ghost act = self.active;
        let mut i: usize = 0;
        while i < self.inactive.len()
            invariant
                self.open_tabs@ == old(self).open_tabs@,
                self.wf(),
                self.active == act,
                self.inactive@.len() == mid.len() == old(self).inactive@.len(),
                mid == old(self).inactive@,
                i <= mid.len(),
                out@.len() == (if pending(old(self).active) && old(self).active.path is Some { 1int } else { 0int })
                    + pending_in(mid, i as int),
                snap_views(out@) == (if pending(old(self).active) && old(self).active.path is Some {
                    seq![snapshot_of(old(self).active)]
                } else {
                    Seq::empty()
                }) + pending_snaps(mid, i as int),
                forall|k: int| 0 <= k < mid.len() ==> (#[trigger] self.inactive@[k]).text() == mid[k].text()
                    && path_of(self.inactive@[k]) == path_of(mid[k]),
                forall|k: int| 0 <= k < i ==> !pending(#[trigger] self.inactive@[k]),
                forall|k: int| i <= k < mid.len() ==> #[trigger] self.inactive@[k] == mid[k],
            decreases mid.len() - i,
        {
            if self.inactive[i].dirty || self.inactive[i].save_deadline.is_some() {
                let ghost before = snap_views(out@);
                let snap = self.save_inactive(i);
                out.push(snap);
                proof {
                    assert(snap_views(out@) == before.push(snap_view(snap)));
                }
            }
            i = i + 1;
        }
        out
    }
}

impl TabRegistry {
    /// Whether the tab list holds `path`.
    pub fn has_tab(&self, path: &String) -> (r: bool)
        ensures
            r == exists|i: int| 0 <= i < self.open_tabs@.len() && (#[trigger] self.open_tabs@[i])@ == path@,
    {
        let mut i: usize = 0;
        while i < self.open_tabs.len()
            invariant
                i <= self.open_tabs@.len(),
                forall|k: int| 0 <= k < i ==> (#[trigger] self.open_tabs@[k])@ != path@,
            decreases self.open_tabs.len() - i,
        {
            if self.open_tabs[i] == *path {
                return true;
            }
            i = i + 1;
        }
        false
    }

    /// Makes the buffer for `path` active. It is taken from the inactive
    /// buffers if open there, else `loaded` (the file freshly read) is used;
    /// with neither, the registry is left as it was. The previous active
    /// buffer, if it has a path, joins the inactive buffers. The new active
    /// buffer's scroll margin is set to `scroll_off` and `path` gets a tab.
    /// Activating the active path changes nothing.
    pub fn activate(&mut self, path: String, loaded: Option<Buffer>, scroll_off: u16) -> (r: Result<(), OpenError>)
        requires
            old(self).wf(),
            loaded matches Some(b) ==> b.wf() && path_of(b) == Some(path@),
        ensures
            final(self).wf(),
            path_of(old(self).active) == Some(path@) ==> r is Ok && *final(self) == *old(self),
            r is Err ==> *final(self) == *old(self),
            r is Err <==> path_of(old(self).active) != Some(path@) && loaded is None && forall|i: int|
                0 <= i < old(self).inactive@.len() ==> path_of(#[trigger] old(self).inactive@[i]) != Some(path@),
            r is Ok ==> path_of(final(self).active) == Some(path@),
            r is Ok && path_of(old(self).active) != Some(path@) ==> {
                &&& exists|i: int| 0 <= i < final(self).open_tabs@.len() && (#[trigger] final(self).open_tabs@[i])@ == path@
                &&& forall|a: int, b: int| 0 <= a < final(self).open_tabs@.len() && 0 <= b < final(self).open_tabs@.len()
                    && (#[trigger] final(self).open_tabs@[a])@ == path@ && (#[trigger] final(self).open_tabs@[b])@ == path@ ==> a == b
                &&& final(self).active.viewport.scroll_off == scroll_off
                &&& (exists|i: int| 0 <= i < old(self).inactive@.len() && path_of(#[trigger] old(self).inactive@[i]) == Some(path@)
                    && final(self).active.text() == old(self).inactive@[i].text()
                    && final(self).active.cursor == old(self).inactive@[i].cursor)
                    || (loaded matches Some(b) && final(self).active.text() == b.text())
                &&& old(self).active.path is Some ==> exists|i: int| 0 <= i < final(self).inactive@.len() && #[trigger] final(self).inactive@[i] == old(self).active
            },
    {
        if self.is_active(&path) {
            return Ok(());
        }
        let found = self.find_inactive(&path);
        let mut next = match found {
            Some(i) => self.inactive.remove(i),
            None => match loaded {
                Some(b) => b,
                None => {
                    return Err(OpenError::LoadFailed);
                },
            },
        };
        let ghost removed = self.inactive@;
        proof {
            if let Some(i) = found {
                assert(removed == old(self).inactive@.remove(i as int));
                assert forall|k: int| 0 <= k < removed.len() implies path_of(#[trigger] removed[k]) != Some(path@) by {
                    if k < i {
                        assert(removed[k] == old(self).inactive@[k]);
                    } else {
                        assert(removed[k] == old(self).inactive@[k + 1]);
                    }
                }
            }
        }
        let ghost picked = next;
        proof {
            if let Some(i) = found {
                assert(picked == old(self).inactive@[i as int]);
            }
        }
        next.viewport.scroll_off = scroll_off;
        std::mem::swap(&mut self.active, &mut next);
        let prev = next;
        if prev.path.is_some() {
            self.inactive.push(prev);
        }
        proof {
            let v = self.inactive@;
            assert forall|a: int, c: int| 0 <= a < c < v.len() implies path_of(#[trigger] v[a]) != path_of(
                #[trigger] v[c],
            ) by {
                if let Some(i) = found {
                    if c < removed.len() {
                        let ia = if a < i { a } else { a + 1 };
                        let ic = if c < i { c } else { c + 1 };
                        assert(v[a] == old(self).inactive@[ia]);
                        assert(v[c] == old(self).inactive@[ic]);
                    } else {
                        let ia = if a < i { a } else { a + 1 };
                        assert(v[a] == old(self).inactive@[ia]);
                    }
                } else {
                    if c < removed.len() {
                    } else {
                        assert(v[a] == old(self).inactive@[a]);
                    }
                }
            }
            assert forall|a: int| 0 <= a < v.len() implies path_of(#[trigger] v[a]) != path_of(self.active) by {
                if a < removed.len() {
                    assert(v[a] == removed[a]);
                }
            }
            if old(self).active.path is Some {
                assert(v[v.len() - 1] == old(self).active);
            }
        }
        if !self.has_tab(&path) {
            self.open_tabs.push(path);
            proof {
                let t = self.open_tabs@;
                assert(t[t.len() - 1]@ == path@);
            }
        }
        Ok(())
    }

    /// Position of the active buffer's path in the tab list.
    pub fn active_tab_index(&self) -> (r: Option<usize>)
        ensures
            r matches Some(i) ==> i < self.open_tabs@.len() && path_of(self.active) == Some(self.open_tabs@[i as int]@),
            r is None ==> forall|i: int| 0 <= i < self.open_tabs@.len() ==> path_of(self.active) != Some(#[trigger] self.open_tabs@[i]@),
    {
        let mut i: usize = 0;
        while i < self.open_tabs.len()
            invariant
                i <= self.open_tabs@.len(),
                forall|k: int| 0 <= k < i ==> path_of(self.active) != Some(#[trigger] self.open_tabs@[k]@),
            decreases self.open_tabs.len() - i,
        {
            if self.is_active(&self.open_tabs[i]) {
                return Some(i);
            }
            i = i + 1;
        }
        None
    }

    /// The tab `delta` steps from the active one, cycling; none with at
    /// most one tab or when the active buffer has no tab.
    pub fn switch_relative(&self, delta: isize) -> (r: Option<String>)
        ensures
            self.open_tabs@.len() <= 1 ==> r is None,
            self.open_tabs@.len() > 1 && (exists|i: int| 0 <= i < self.open_tabs@.len() && path_of(self.active)
                == Some(#[trigger] self.open_tabs@[i]@)) ==> r is Some,
            r matches Some(p) ==> exists|i: int, j: int|
                0 <= i < self.open_tabs@.len() && path_of(self.active) == Some(#[trigger] self.open_tabs@[i]@)
                    && j == (i + delta) % (self.open_tabs@.len() as int) && p@ == #[trigger] self.open_tabs@[j]@,
    {
        if self.open_tabs.len() <= 1 {
            return None;
        }
        let idx = match self.active_tab_index() {
            Some(i) => i,
            None => {
                return None;
            },
        };
        let len = self.open_tabs.len() as i128;
        let sum = idx as i128 + delta as i128;
        let next = match sum.checked_rem_euclid(len) {
            Some(m) => m,
            None => {
                return None;
            },
        };
        let r = self.open_tabs[next as usize].clone();
        proof {
            assert(0 <= next < len);
            let i = idx as int;
            let j = next as int;
            assert(0 <= i < self.open_tabs@.len() && path_of(self.active) == Some(self.open_tabs@[i]@)
                && j == (i + delta) % (self.open_tabs@.len() as int) && r@ == self.open_tabs@[j]@);
        }
        Some(r)
    }
}

impl TabRegistry {
    /// Opens `path`: nothing when it is the active buffer; else the active
    /// buffer is saved if dirty (its snapshot is returned) and `path` is
    /// activated as `activate` does.
    pub fn open_file(&mut self, path: String, loaded: Option<Buffer>, scroll_off: u16, now: u64) -> (r: (
        Option<Snapshot>,
        Result<(), OpenError>,
    ))
        requires
            old(self).wf(),
            loaded matches Some(b) ==> b.wf() && path_of(b) == Some(path@),
        ensures
            final(self).wf(),
            path_of(old(self).active) == Some(path@) ==> r.0 is None && r.1 is Ok && *final(self) == *old(self),
            path_of(old(self).active) != Some(path@) ==> (r.0 is Some <==> old(self).active.dirty && old(
                self,
            ).active.path is Some),
            r.0 matches Some(snap) ==> Some(snap.path@) == path_of(old(self).active) && snap.text@ == old(
                self,
            ).active.text(),
            r.1 is Ok ==> path_of(final(self).active) == Some(path@),
            r.1 is Ok && path_of(old(self).active) != Some(path@) ==> {
                &&& final(self).active.viewport.scroll_off == scroll_off
                &&& (exists|i: int| 0 <= i < old(self).inactive@.len() && path_of(#[trigger] old(self).inactive@[i]) == Some(path@)
                    && final(self).active.text() == old(self).inactive@[i].text()
                    && final(self).active.cursor == old(self).inactive@[i].cursor)
                    || (loaded matches Some(b) && final(self).active.text() == b.text())
                &&& old(self).active.path is Some ==> exists|i: int| 0 <= i < final(self).inactive@.len()
                    && path_of(#[trigger] final(self).inactive@[i]) == path_of(old(self).active)
                    && final(self).inactive@[i].text() == old(self).active.text()
                    && final(self).inactive@[i].cursor == old(self).active.cursor
                    && !final(self).inactive@[i].dirty
                &&& exists|i: int| 0 <= i < final(self).open_tabs@.len() && (#[trigger] final(self).open_tabs@[i])@ == path@
            },
            r.1 is Err ==> {
                &&& path_of(final(self).active) == path_of(old(self).active)
                &&& final(self).active.text() == old(self).active.text()
                &&& final(self).active.cursor == old(self).active.cursor
                &&& final(self).active.viewport == old(self).active.viewport
                &&& final(self).inactive@ == old(self).inactive@
                &&& final(self).open_tabs@ == old(self).open_tabs@
            },
    {
        if self.is_active(&path) {
            return (None, Ok(()));
        }
        let snap = if self.active.dirty {
            self.save_active(now)
        } else {
            None
        };
        let res = self.activate(path, loaded, scroll_off);
        (snap, res)
    }

    /// Handles a change notice for `path`. When the file no longer exists,
    /// its tab closes and any inactive buffer for it is dropped; a change to
    /// an existing file keeps both. Returns whether the active buffer should
    /// be reloaded from disk: it is that file, it has no unsaved edits, and
    /// it was not itself saved to that path within the last 1200 ms before
    /// `now`.
    pub fn file_changed(&mut self, path: &String, exists: bool, now: u64) -> (r: bool)
        requires
            old(self).wf(),
        ensures
            final(self).wf(),
            final(self).active == old(self).active,
            exists ==> final(self).inactive@ == old(self).inactive@ && final(self).open_tabs@ == old(self).open_tabs@,
            !exists ==> forall|i: int| 0 <= i < final(self).inactive@.len() ==> path_of(#[trigger] final(self).inactive@[i])
                != Some(path@),
            !exists ==> forall|j: int| 0 <= j < old(self).inactive@.len() && path_of(#[trigger] old(self).inactive@[j]) != Some(path@)
                ==> exists|i: int| 0 <= i < final(self).inactive@.len() && final(self).inactive@[i] == old(self).inactive@[j],
            !exists ==> forall|i: int| 0 <= i < final(self).open_tabs@.len() ==> (#[trigger] final(self).open_tabs@[i])@
                != path@,
            !exists ==> forall|j: int| 0 <= j < old(self).open_tabs@.len() && (#[trigger] old(self).open_tabs@[j])@ != path@
                ==> exists|i: int| 0 <= i < final(self).open_tabs@.len() && final(self).open_tabs@[i]@ == old(self).open_tabs@[j]@,
            r == (path_of(old(self).active) == Some(path@) && !old(self).active.dirty && !recently_saved(
                old(self).last_saved,
                path@,
                now,
            )),
    {
        if !exists {
            let mut kept: Vec<String> = Vec::new();
            let mut i: usize = 0;
            while i < self.open_tabs.len()
                invariant
                    i <= self.open_tabs@.len(),
                    self.open_tabs@ == old(self).open_tabs@,
                    tabs_distinct(old(self).open_tabs@),
                    tabs_distinct(kept@),
                    forall|k: int| 0 <= k < kept@.len() ==> (#[trigger] kept@[k])@ != path@,
                    forall|k: int| 0 <= k < kept@.len() ==> exists|j: int| 0 <= j < i && (#[trigger] kept@[k])@ == old(self).open_tabs@[j]@,
                    forall|j: int| 0 <= j < i && (#[trigger] old(self).open_tabs@[j])@ != path@ ==> exists|k: int| 0 <= k < kept@.len() && kept@[k]@ == old(self).open_tabs@[j]@,
                decreases self.open_tabs.len() - i,
            {
                if self.open_tabs[i] != *path {
                    let ghost before = kept@;
                    let t = self.open_tabs[i].clone();
                    kept.push(t);
                    proof {
                        let tabs = old(self).open_tabs@;
                        assert forall|a: int, b: int| 0 <= a < b < kept@.len() implies (#[trigger] kept@[a])@ != (#[trigger] kept@[b])@ by {
                            if b == kept@.len() - 1 {
                                assert(kept@[a] == before[a]);
                                let j = choose|j: int| 0 <= j < i && (#[trigger] before[a])@ == tabs[j]@;
                                assert(tabs[j]@ != tabs[i as int]@);
                            } else {
                                assert(kept@[a] == before[a] && kept@[b] == before[b]);
                            }
                        }
                        assert forall|k: int| 0 <= k < kept@.len() implies exists|j: int| 0 <= j < i + 1 && (#[trigger] kept@[k])@ == tabs[j]@ by {
                            if k < before.len() {
                                assert(kept@[k] == before[k]);
                                let j = choose|j: int| 0 <= j < i && (#[trigger] before[k])@ == tabs[j]@;
                            } else {
                                assert(kept@[k]@ == tabs[i as int]@);
                            }
                        }
                        assert forall|j: int| 0 <= j < i + 1 && (#[trigger] tabs[j])@ != path@ implies exists|k: int| 0 <= k < kept@.len() && kept@[k]@ == tabs[j]@ by {
                            if j < i {
                                let k = choose|k: int| 0 <= k < before.len() && before[k]@ == tabs[j]@;
                                assert(kept@[k] == before[k]);
                            } else {
                                assert(kept@[kept@.len() - 1]@ == tabs[j]@);
                            }
                        }
                    }
                }
                i = i + 1;
            }
            let ghost kv = kept@;
            self.open_tabs = kept;
            proof {
                let tabs = old(self).open_tabs@;
                assert forall|j: int| 0 <= j < tabs.len() && (#[trigger] tabs[j])@ != path@ implies exists|k: int| 0 <= k < self.open_tabs@.len() && self.open_tabs@[k]@ == tabs[j]@ by {
                    let k = choose|k: int| 0 <= k < kv.len() && kv[k]@ == tabs[j]@;
                    assert(self.open_tabs@[k] == kv[k]);
                }
            }
            match self.find_inactive(path) {
                Some(i) => {
                    let ghost before = self.inactive@;
                    let _dropped = self.inactive.remove(i);
                    proof {
                        let v = self.inactive@;
                        assert(v == before.remove(i as int));
                        assert forall|k: int| 0 <= k < v.len() implies path_of(#[trigger] v[k]) != Some(path@) by {
                            if k < i {
                                assert(v[k] == before[k]);
                                assert(path_of(before[k]) != path_of(before[i as int]));
                            } else {
                                assert(v[k] == before[k + 1]);
                                assert(path_of(before[k + 1]) != path_of(before[i as int]));
                            }
                        }
                        assert forall|a: int, c: int| 0 <= a < c < v.len() implies path_of(#[trigger] v[a]) != path_of(
                            #[trigger] v[c],
                        ) by {
                            let ia = if a < i { a } else { a + 1 };
                            let ic = if c < i { c } else { c + 1 };
                            assert(v[a] == before[ia]);
                            assert(v[c] == before[ic]);
                        }
                        assert forall|a: int| 0 <= a < v.len() implies path_of(#[trigger] v[a]) != path_of(self.active) by {
                            let ia = if a < i { a } else { a + 1 };
                            assert(v[a] == before[ia]);
                        }
                        assert forall|a: int| 0 <= a < v.len() implies (#[trigger] v[a]).wf() && v[a].path is Some by {
                            let ia = if a < i { a } else { a + 1 };
                            assert(v[a] == before[ia]);
                        }
                        assert forall|j: int| 0 <= j < before.len() && path_of(#[trigger] before[j]) != Some(path@) implies exists|k: int| 0 <= k < v.len() && v[k] == before[j] by {
                            if j < i {
                                assert(v[j] == before[j]);
                            } else {
                                assert(j != i);
                                assert(v[j - 1] == before[j]);
                            }
                        }
                    }
                },
                None => {
                    proof {
                        let v = self.inactive@;
                        assert forall|j: int| 0 <= j < v.len() && path_of(#[trigger] v[j]) != Some(path@) implies exists|k: int| 0 <= k < v.len() && v[k] == v[j] by {}
                    }
                },
            }
        }
        if !self.is_active(path) || self.active.dirty {
            return false;
        }
        match &self.last_saved {
            Some((saved_path, saved_at)) => {
                let recent = *saved_at <= now && now - *saved_at <= 1200;
                !(recent && *saved_path == *path)
            },
            None => true,
        }
    }

    /// Replaces the active buffer's text with `text` as reloaded from its
    /// file, keeping its cursor (clamped to the new text) and viewport (with
    /// scroll margin `scroll_off`, scrolled to the cursor).
    pub fn reload_active(&mut self, text: &str, scroll_off: u16)
        requires
            old(self).wf(),
            old(self).active.path is Some,
        ensures
            final(self).wf(),
            final(self).active.text() == text@,
            final(self).active.path == old(self).active.path,
            !final(self).active.dirty,
            final(self).active.viewport.scroll_off == scroll_off,
            final(self).active.cursor.row == crate::buffer::clamped_row(text@, old(self).active.cursor.row as int),
            final(self).active.cursor.col == crate::buffer::clamped_col(
                text@,
                old(self).active.cursor.row as int,
                old(self).active.cursor.col as int,
            ),
            final(self).inactive@ == old(self).inactive@,
            final(self).open_tabs@ == old(self).open_tabs@,
    {
        let path = match &self.active.path {
            Some(p) => p.clone(),
            None => String::new(),
        };
        let mut fresh = Buffer::from_file(path, text);
        fresh.cursor = self.active.cursor;
        fresh.viewport = self.active.viewport;
        fresh.viewport.scroll_off = scroll_off;
        fresh.clamp_cursor();
        fresh.scroll_to_cursor();
        self.active = fresh;
    }
}

/// The last save was of `path` within 1200 ms before `now`.
pub open spec fn recently_saved(last: Option<(String, u64)>, path: Seq<char>, now: u64) -> bool {
    match last {
        Some(ls) => ls.1 <= now && now - ls.1 <= 1200 && ls.0@ == path,
        None => false,
    }
}

/// An event that the debounce of one buffer sees.
#[derive(Clone, Copy, Debug, PartialEq, Eq, Structural)]
pub enum SaveEvent {
    /// A content edit at this time: the deadline is re-armed.
    Edit(u64),
    /// A periodic tick at this time: a passed deadline is written and cleared.
    Tick(u64),
}

/// The deadline after `now + delay`, saturating.
pub open spec fn rearmed(now: u64, delay: u64) -> u64 {
    if now + delay <= u64::MAX { (now + delay) as u64 } else { u64::MAX }
}

/// One debounce step: the new deadline and whether a write is scheduled.
pub open spec fn debounce_step(deadline: Option<u64>, ev: SaveEvent, delay: u64) -> (Option<u64>, bool) {
    match ev {
        SaveEvent::Edit(t) => (Some(rearmed(t, delay)), false),
        SaveEvent::Tick(t) => match deadline {
            Some(d) => if d <= t { (None, true) } else { (deadline, false) },
            None => (None, false),
        },
    }
}

/// The deadline after a run of events.
pub open spec fn deadline_after(d: Option<u64>, evs: Seq<SaveEvent>, delay: u64) -> Option<u64>
    decreases evs.len(),
{
    if evs.len() == 0 {
        d
    } else {
        debounce_step(deadline_after(d, evs.drop_last(), delay), evs.last(), delay).0
    }
}

/// The number of writes a run of events schedules.
pub open spec fn writes(d: Option<u64>, evs: Seq<SaveEvent>, delay: u64) -> nat
    decreases evs.len(),
{
    if evs.len() == 0 {
        0
    } else {
        writes(d, evs.drop_last(), delay) + if debounce_step(
            deadline_after(d, evs.drop_last(), delay),
            evs.last(),
            delay,
        ).1 {
            1nat
        } else {
            0nat
        }
    }
}

/// Every tick of the run comes before the deadline then in force: the
/// edits follow each other faster than the debounce delay.
pub open spec fn rapid(d: Option<u64>, evs: Seq<SaveEvent>, delay: u64) -> bool {
    forall|i: int|
        0 <= i < evs.len() ==> match #[trigger] evs[i] {
            SaveEvent::Tick(t) => !(deadline_after(d, evs.take(i), delay) matches Some(dl) && dl <= t),
            SaveEvent::Edit(_) => true,
        }
}

/// The time of the last edit of a run.
pub open spec fn last_edit(evs: Seq<SaveEvent>) -> Option<u64>
    decreases evs.len(),
{
    if evs.len() == 0 {
        None
    } else if let SaveEvent::Edit(t) = evs.last() {
        Some(t)
    } else {
        last_edit(evs.drop_last())
    }
}

proof fn lemma_rapid_run(evs: Seq<SaveEvent>, delay: u64)
    requires
        rapid(None, evs, delay),
    ensures
        writes(None, evs, delay) == 0,
        deadline_after(None, evs, delay) == match last_edit(evs) {
            Some(t) => Some(rearmed(t, delay)),
            None => None::<u64>,
        },
    decreases evs.len(),
{
    if evs.len() > 0 {
        let init = evs.drop_last();
        assert forall|i: int| 0 <= i < init.len() implies match #[trigger] init[i] {
            SaveEvent::Tick(t) => !(deadline_after(None, init.take(i), delay) matches Some(dl) && dl <= t),
            SaveEvent::Edit(_) => true,
        } by {
            assert(init[i] == evs[i]);
            assert(init.take(i) == evs.take(i));
        }
        lemma_rapid_run(init, delay);
        let k = evs.len() - 1;
        assert(evs.take(k) == init);
        assert(evs[k] == evs.last());
    }
}

/// Debounce coalescing: a run of edits whose ticks all come before the
/// deadline then in force schedules no write, and the first tick at or
/// after the last edit's deadline schedules exactly one. Each step is what
/// the registry does to the active buffer: `schedule_auto_save` sets the
/// deadline `debounce_step` gives for an edit, and `tick_saves` the one it
/// gives for a tick, writing the buffer exactly when that step schedules a
/// write.
pub proof fn debounce_coalescing(evs: Seq<SaveEvent>, delay: u64, t: u64, now: u64)
    requires
        rapid(None, evs, delay),
        last_edit(evs) == Some(t),
        rearmed(t, delay) <= now,
    ensures
        writes(None, evs, delay) == 0,
        writes(None, evs.push(SaveEvent::Tick(now)), delay) == 1,
        deadline_after(None, evs.push(SaveEvent::Tick(now)), delay) is None,
{
    lemma_rapid_run(evs, delay);
    assert(evs.push(SaveEvent::Tick(now)).drop_last() == evs);
}

/// The number of buffers of the registry with a pending write.
pub open spec fn pending_total(t: &TabRegistry) -> nat {
    (if pending(t.active) { 1nat } else { 0nat }) + pending_in(t.inactive@, t.inactive@.len() as int)
}

/// A snapshot as characters: the path and the text.
pub open spec fn snap_view(s: Snapshot) -> (Seq<char>, Seq<char>) {
    (s.path@, s.text@)
}

/// The views of snapshots.
pub open spec fn snap_views(v: Seq<Snapshot>) -> Seq<(Seq<char>, Seq<char>)> {
    v.map_values(|s: Snapshot| snap_view(s))
}

/// The snapshot a buffer with a path saves to.
pub open spec fn snapshot_of(b: Buffer) -> (Seq<char>, Seq<char>) {
    (b.path->Some_0@, b.text())
}

/// The snapshots of the buffers among the first `n` whose deadline has
/// passed, in order.
pub open spec fn due_snaps(v: Seq<Buffer>, now: u64, n: int) -> Seq<(Seq<char>, Seq<char>)>
    decreases n,
{
    if n <= 0 || n > v.len() {
        Seq::empty()
    } else if due(v[n - 1], now) {
        due_snaps(v, now, n - 1).push(snapshot_of(v[n - 1]))
    } else {
        due_snaps(v, now, n - 1)
    }
}

/// The snapshots of the buffers among the first `n` with a pending write, in order.
pub open spec fn pending_snaps(v: Seq<Buffer>, n: int) -> Seq<(Seq<char>, Seq<char>)>
    decreases n,
{
    if n <= 0 || n > v.len() {
        Seq::empty()
    } else if pending(v[n - 1]) {
        pending_snaps(v, n - 1).push(snapshot_of(v[n - 1]))
    } else {
        pending_snaps(v, n - 1)
    }
}

/// The snapshots `save_all` writes: the active buffer's when it has a path
/// and a pending write, then every inactive buffer's with a pending write.
pub open spec fn all_pending_snaps(t: TabRegistry) -> Seq<(Seq<char>, Seq<char>)> {
    (if pending(t.active) && t.active.path is Some {
        seq![snapshot_of(t.active)]
    } else {
        Seq::empty()
    }) + pending_snaps(t.inactive@, t.inactive@.len() as int)
}

/// The number of buffers among the first `n` whose deadline has passed.
pub open spec fn due_in(v: Seq<Buffer>, now: u64, n: int) -> nat
    decreases n,
{
    if n <= 0 || n > v.len() {
        0
    } else {
        due_in(v, now, n - 1) + if due(v[n - 1], now) { 1nat } else { 0nat }
    }
}

} // verus!
