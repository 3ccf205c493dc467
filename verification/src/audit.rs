//! The audit trail: one entry for every operation that changes a task.
//!
//! Entries are only ever added at the end. None is changed or taken out, not
//! even when the task that it speaks of is deleted.

use vstd::prelude::*;
use crate::error::EngineError;
use crate::models::tasks::{
    history_views, plain_entry, status_entry, HistoryAction, TaskHistory, TaskHistoryView,
};
use crate::order::{count_wanted, is_ordered_selection, ordered_selection};
use crate::status::TaskStatus;

verus! {

/// Whether some entry has the identifier `id`.
pub open spec fn has_entry(entries: Seq<TaskHistoryView>, id: Seq<char>) -> bool {
    exists|i: int| 0 <= i < entries.len() && (#[trigger] entries[i]).id == id
}

/// No two entries share an identifier.
pub open spec fn entry_ids_unique(entries: Seq<TaskHistoryView>) -> bool {
    forall|i: int, j: int|
        0 <= i < j < entries.len() ==> (#[trigger] entries[i]).id != (#[trigger] entries[j]).id
}

/// The time of each entry as an ordering key.
pub open spec fn entry_keys(entries: Seq<TaskHistoryView>) -> Seq<u64> {
    Seq::new(entries.len(), |i: int| entries[i].created_at)
}

/// For each entry, whether it speaks of `task`.
pub open spec fn entries_of_task(entries: Seq<TaskHistoryView>, task: Seq<char>) -> Seq<bool> {
    Seq::new(entries.len(), |i: int| entries[i].task_id == task)
}

/// The number of entries that speak of `task`.
pub open spec fn entry_count(entries: Seq<TaskHistoryView>, task: Seq<char>) -> nat {
    count_wanted(entries_of_task(entries, task))
}

/// The entries at the places picked, the last place picked first.
pub open spec fn entries_at_reversed(entries: Seq<TaskHistoryView>, picked: Seq<usize>) -> Seq<
    TaskHistoryView,
> {
    Seq::new(picked.len(), |k: int| entries[picked[picked.len() - 1 - k] as int])
}

/// `result` is the history of `task`: the entries that speak of it, newest
/// first; of two entries of the same time, the one recorded later comes
/// first.
pub open spec fn is_history(
    result: Seq<TaskHistoryView>,
    entries: Seq<TaskHistoryView>,
    task: Seq<char>,
) -> bool {
    exists|picked: Seq<usize>| #[trigger]
        is_ordered_selection(picked, entry_keys(entries), entries_of_task(entries, task)) && result
            == entries_at_reversed(entries, picked)
}

/// One more entry counts for the task that it speaks of and for no other.
pub proof fn entry_count_after_push(
    entries: Seq<TaskHistoryView>,
    entry: TaskHistoryView,
    task: Seq<char>,
)
    ensures
        entry_count(entries.push(entry), task) == entry_count(entries, task) + if entry.task_id
            == task {
            1nat
        } else {
            0nat
        },
{
    let grown = entries_of_task(entries.push(entry), task);
    assert(grown.drop_last() =~= entries_of_task(entries, task));
    assert(grown.last() == (entry.task_id == task));
}

/// The entries of the audit trail, in the order in which they were recorded.
pub struct AuditTrail {
    entries: Vec<TaskHistory>,
}

impl View for AuditTrail {
    type V = Seq<TaskHistoryView>;

    closed spec fn view(&self) -> Seq<TaskHistoryView> {
        history_views(self.entries@)
    }
}

impl AuditTrail {
    /// The invariant of the trail: entry identifiers are unique.
    pub open spec fn wf(&self) -> bool {
        entry_ids_unique(self@)
    }

    /// An empty trail.
    pub fn new() -> (trail: AuditTrail)
        ensures
            trail@ == Seq::<TaskHistoryView>::empty(),
            trail.wf(),
    {
        let trail = AuditTrail { entries: Vec::new() };
        assert(trail@ =~= Seq::<TaskHistoryView>::empty());
        trail
    }

    /// The number of entries.
    pub fn len(&self) -> (n: usize)
        ensures
            n == self@.len(),
    {
        self.entries.len()
    }

    /// Whether an entry has the identifier `id`.
    pub fn contains(&self, id: &String) -> (found: bool)
        ensures
            found == has_entry(self@, id@),
    {
        let mut i: usize = 0;
        while i < self.entries.len()
            invariant
                i <= self.entries.len(),
                forall|k: int| 0 <= k < i ==> (#[trigger] self@[k]).id != id@,
            decreases self.entries.len() - i,
        {
            if self.entries[i].id == *id {
                assert(self@[i as int].id == id@);
                return true;
            }
            i += 1;
        }
        false
    }

    /// A copy of every entry, in the order in which they were recorded.
    pub fn all(&self) -> (result: Vec<TaskHistory>)
        ensures
            history_views(result@) == self@,
    {
        let mut result: Vec<TaskHistory> = Vec::new();
        let mut i: usize = 0;
        while i < self.entries.len()
            invariant
                i <= self.entries.len(),
                result.len() == i,
                forall|k: int| 0 <= k < i ==> (#[trigger] result[k])@ == self@[k],
            decreases self.entries.len() - i,
        {
            result.push(self.entries[i].duplicate());
            i += 1;
        }
        assert(history_views(result@) =~= self@);
        result
    }

    /// Adds `entry` at the end of the trail. An identifier that an entry
    /// already has is refused with `Storage`, and nothing changes.
    pub fn append(&mut self, entry: TaskHistory) -> (r: Result<(), EngineError>)
        requires
            old(self).wf(),
        ensures
            final(self).wf(),
            r.is_ok() == !has_entry(old(self)@, entry@.id),
            r is Ok ==> final(self)@ == old(self)@.push(entry@),
            r matches Err(e) ==> e == (EngineError::Storage { applied: false }) && final(self)@ == old(self)@,
    {
        if self.contains(&entry.id) {
            return Err(EngineError::Storage { applied: false });
        }
        let ghost before = self@;
        let ghost added = entry@;
        self.entries.push(entry);
        proof {
            assert(self@ =~= before.push(added));
            assert forall|i: int, j: int| 0 <= i < j < self@.len() implies (#[trigger] self@[i]).id
                != (#[trigger] self@[j]).id by {
                if j == before.len() {
                    assert(before[i].id != added.id);
                } else {
                    assert(self@[i] == before[i] && self@[j] == before[j]);
                }
            }
        }
        Ok(())
    }

    /// Records under the identifier `id` that `user_id` did `action` to
    /// `task_id` at `now`, naming no field.
    pub fn record(
        &mut self,
        id: String,
        task_id: &String,
        user_id: &String,
        action: HistoryAction,
        now: u64,
    ) -> (r: Result<(), EngineError>)
        requires
            old(self).wf(),
        ensures
            final(self).wf(),
            r.is_ok() == !has_entry(old(self)@, id@),
            r is Ok ==> final(self)@ == old(self)@.push(
                plain_entry(id@, task_id@, user_id@, action, now),
            ),
            r matches Err(e) ==> e == (EngineError::Storage { applied: false }) && final(self)@ == old(self)@,
    {
        self.append(
            TaskHistory {
                id,
                task_id: task_id.clone(),
                user_id: user_id.clone(),
                action,
                field_changed: None,
                old_value: None,
                new_value: None,
                created_at: now,
            },
        )
    }

    /// Records under the identifier `id` that `user_id` changed the status of
    /// `task_id` from `before` to `after` at `now`.
    pub fn record_status_change(
        &mut self,
        id: String,
        task_id: &String,
        user_id: &String,
        before: TaskStatus,
        after: TaskStatus,
        now: u64,
    ) -> (r: Result<(), EngineError>)
        requires
            old(self).wf(),
        ensures
            final(self).wf(),
            r.is_ok() == !has_entry(old(self)@, id@),
            r is Ok ==> final(self)@ == old(self)@.push(
                status_entry(id@, task_id@, user_id@, before, after, now),
            ),
            r matches Err(e) ==> e == (EngineError::Storage { applied: false }) && final(self)@ == old(self)@,
    {
        self.append(
            TaskHistory {
                id,
                task_id: task_id.clone(),
                user_id: user_id.clone(),
                action: HistoryAction::StatusChanged,
                field_changed: Some("status".to_owned()),
                old_value: Some(before.name()),
                new_value: Some(after.name()),
                created_at: now,
            },
        )
    }

    /// The history of `task_id`: its entries, newest first.
    pub fn history(&self, task_id: &String) -> (result: Vec<TaskHistory>)
        ensures
            is_history(history_views(result@), self@, task_id@),
            result.len() == entry_count(self@, task_id@),
    {
        let n = self.entries.len();
        let mut keys: Vec<u64> = Vec::new();
        let mut wanted: Vec<bool> = Vec::new();
        let mut i: usize = 0;
        while i < n
            invariant
                i <= n,
                n == self.entries.len(),
                keys.len() == i,
                wanted.len() == i,
                forall|k: int| 0 <= k < i ==> keys[k] == entry_keys(self@)[k],
                forall|k: int| 0 <= k < i ==> wanted[k] == entries_of_task(self@, task_id@)[k],
            decreases n - i,
        {
            keys.push(self.entries[i].created_at);
            wanted.push(self.entries[i].task_id == *task_id);
            i += 1;
        }
        assert(keys@ =~= entry_keys(self@));
        assert(wanted@ =~= entries_of_task(self@, task_id@));
        let picked = ordered_selection(&keys, &wanted);
        let total = picked.len();
        let mut result: Vec<TaskHistory> = Vec::new();
        let mut k: usize = 0;
        while k < total
            invariant
                k <= total,
                total == picked.len(),
                is_ordered_selection(picked@, keys@, wanted@),
                keys.len() == self.entries.len(),
                result.len() == k,
                forall|j: int|
                    0 <= j < k ==> (#[trigger] result[j])@ == self@[picked[total - 1 - j] as int],
            decreases total - k,
        {
            result.push(self.entries[picked[total - 1 - k]].duplicate());
            k += 1;
        }
        assert(history_views(result@) =~= entries_at_reversed(self@, picked@));
        result
    }
}

} // verus!
