//! Laws of the engine, proved of the state machine in `model`.

use vstd::prelude::*;
use crate::assignees::{
    assign_all, assign_all_facts, assign_all_rows, assign_one, has_rows_for, is_assigned,
    pair_count, pairs_unique, rows_without_task, rows_without_task_facts, rows_without_task_rows,
    system_actor, unassign_facts, assignment_position,
};
use crate::audit::{
    entries_at_reversed, entries_of_task, entry_count, entry_count_after_push, entry_ids_unique,
    entry_keys, has_entry, is_history,
};
use crate::date::Date;
use crate::directory::{is_member, members_of, members_of_holds_members};
use crate::error::EngineError;
use crate::model::{
    add_assignees_step, create_step, delete_step, due_flags, due_today, engine_wf, is_due_listing,
    kept_entries, kept_rows, kept_tasks, mutation_count, mutations_succeed, no_orphans,
    recorded_count, remove_assignee_step, requested_assignees, rows_after_create, run, status_step,
    update_entry, update_step, urgency_keys, Command, EngineView,
};
use crate::models::tasks::{
    apply_preserves_wf, plain_entry, status_entry, CreateTaskRequest, GetTasksQuery, HistoryAction,
    TaskAssigneeView, TaskHistoryView, TaskView, UpdateTaskRequest,
};
use crate::order::{
    comes_before, is_ordered_selection, lists, ordered_selection_injective,
    ordered_selection_unique, selection_ends_with_latest_position,
    selection_ignores_unwanted_position,
};
use crate::status::TaskStatus;
use crate::store::{
    deadline_keys, has_task, ids_unique, is_listing, page_of, passing, position_is_unique,
    position_of, push_keeps_ids, removal_keeps_store, replacement_keeps_ids, status_refusal,
    store_wf, task_of, tasks_at, update_refusal, with_status,
};

verus! {

/// The place of a task that exists is a place of the store and holds the
/// identifier of the task.
pub proof fn position_of_existing(tasks: Seq<TaskView>, id: Seq<char>)
    requires
        has_task(tasks, id),
    ensures
        0 <= position_of(tasks, id) < tasks.len(),
        tasks[position_of(tasks, id)].id == id,
{
}

/// Every task keeps a completion timestamp exactly while its status is
/// `completed`: a status write, accepted or refused, leaves that true of
/// every task. An accepted write leaves the task with the status written;
/// its completion timestamp is `now` where it entered `completed`, unset
/// where it left `completed`, and as it was in every other case.
pub proof fn status_write_keeps_completion_consistent(
    s: EngineView,
    task_id: Seq<char>,
    history_id: Seq<char>,
    status: Seq<char>,
    user: Seq<char>,
    now: u64,
)
    requires
        engine_wf(s),
    ensures
        engine_wf(status_step(s, task_id, history_id, status, user, now).state),
        forall|i: int|
            0 <= i < status_step(s, task_id, history_id, status, user, now).state.tasks.len() ==> (
            #[trigger] status_step(
                s,
                task_id,
                history_id,
                status,
                user,
                now,
            ).state.tasks[i]).completion_consistent(),
        status_step(s, task_id, history_id, status, user, now).result matches Ok(t) ==> {
            &&& Some(t.status) == TaskStatus::spec_parse(status)
            &&& t.completed_at == (if task_of(s.tasks, task_id).status == TaskStatus::Completed
                && t.status == TaskStatus::Completed {
                task_of(s.tasks, task_id).completed_at
            } else if t.status == TaskStatus::Completed {
                Some(now)
            } else {
                None::<u64>
            })
            &&& (task_of(s.tasks, task_id).status == TaskStatus::Completed) == (t.status
                == TaskStatus::Completed) ==> t.completed_at == task_of(
                s.tasks,
                task_id,
            ).completed_at
            &&& task_of(status_step(s, task_id, history_id, status, user, now).state.tasks, task_id)
                == t
        },
{
    let out = status_step(s, task_id, history_id, status, user, now);
    if status_refusal(s.tasks, task_id, status, s.policy).is_none() {
        position_of_existing(s.tasks, task_id);
        let i = position_of(s.tasks, task_id);
        let before = s.tasks[i];
        let next = TaskStatus::spec_parse(status).unwrap();
        let after = with_status(before, next, now);
        replacement_keeps_ids(s.tasks, i, after);
        let tasks = s.tasks.update(i, after);
        assert(before.wf());
        crate::status::completion_follows_the_status(
            before.status,
            before.completed_at,
            next,
            now,
        );
        assert forall|k: int| 0 <= k < tasks.len() implies (#[trigger] tasks[k]).wf() by {
            if k != i {
                assert(tasks[k] == s.tasks[k]);
            }
        }
        position_is_unique(tasks, task_id, i);
        if !has_entry(s.history, history_id) {
            push_keeps_entry_ids(
                s.history,
                status_entry(history_id, task_id, user, before.status, next, now),
            );
        }
        assert(engine_wf(out.state));
    }
    assert forall|i: int| 0 <= i < out.state.tasks.len() implies (#[trigger] out.state.tasks[i]).completion_consistent() by {
        assert(out.state.tasks[i].wf());
    }
}

/// One more entry under an identifier that no entry has keeps entry
/// identifiers unique.
pub proof fn push_keeps_entry_ids(entries: Seq<TaskHistoryView>, entry: TaskHistoryView)
    requires
        entry_ids_unique(entries),
        !has_entry(entries, entry.id),
    ensures
        entry_ids_unique(entries.push(entry)),
{
    let after = entries.push(entry);
    assert forall|i: int, j: int| 0 <= i < j < after.len() implies (#[trigger] after[i]).id != (
    #[trigger] after[j]).id by {
        if j == entries.len() {
            assert(entries[i].id != entry.id);
        } else {
            assert(after[i] == entries[i] && after[j] == entries[j]);
        }
    }
}

/// Where no two rows assign the same user to the same task, a user who is
/// assigned to a task has exactly one row for it, and a user who is not has
/// none.
pub proof fn assigned_means_one_row(rows: Seq<TaskAssigneeView>, task: Seq<char>, user: Seq<char>)
    requires
        pairs_unique(rows),
    ensures
        pair_count(rows, task, user) == if is_assigned(rows, task, user) {
            1nat
        } else {
            0nat
        },
    decreases rows.len(),
{
    if rows.len() > 0 {
        let head = rows.drop_last();
        let last = rows.last();
        assert(pairs_unique(head)) by {
            assert forall|i: int, j: int| 0 <= i < j < head.len() implies !((#[trigger] head[i]).task_id
                == (#[trigger] head[j]).task_id && head[i].user_id == head[j].user_id) by {
                assert(head[i] == rows[i] && head[j] == rows[j]);
            }
        }
        assigned_means_one_row(head, task, user);
        if is_assigned(head, task, user) {
            let i = choose|i: int|
                0 <= i < head.len() && (#[trigger] head[i]).task_id == task && head[i].user_id
                    == user;
            assert(rows[i] == head[i]);
            assert(rows[i].task_id == task && rows[i].user_id == user);
            assert(!(rows[i].task_id == rows[rows.len() - 1].task_id && rows[i].user_id
                == rows[rows.len() - 1].user_id));
        } else if last.task_id == task && last.user_id == user {
            assert(rows[rows.len() - 1].task_id == task);
        } else {
            if is_assigned(rows, task, user) {
                let i = choose|i: int|
                    0 <= i < rows.len() && (#[trigger] rows[i]).task_id == task && rows[i].user_id
                        == user;
                assert(head[i].task_id == task && head[i].user_id == user);
            }
        }
    }
}

/// Adding an assignee is idempotent: after a user is added to a task twice,
/// the registry holds exactly one row for the pair where the task exists
/// (and none where it does not); the second call adds nothing and changes
/// nothing.
pub proof fn adding_an_assignee_twice_adds_one_row(
    s: EngineView,
    task_id: Seq<char>,
    user: Seq<char>,
    by_first: Seq<char>,
    at_first: u64,
    by_second: Seq<char>,
    at_second: u64,
)
    requires
        engine_wf(s),
    ensures
        ({
            let first = add_assignees_step(s, task_id, seq![user], by_first, at_first);
            let second = add_assignees_step(
                first.state,
                task_id,
                seq![user],
                by_second,
                at_second,
            );
            &&& second.state == first.state
            &&& pair_count(second.state.assignees, task_id, user) == if has_task(
                s.tasks,
                task_id,
            ) {
                1nat
            } else {
                0nat
            }
            &&& has_task(s.tasks, task_id) ==> second.result == Ok::<usize, EngineError>(0usize)
        }),
{
    let users = seq![user];
    assert(users.drop_last() =~= Seq::<Seq<char>>::empty());
    assert(users.last() == user);
    let first = add_assignees_step(s, task_id, users, by_first, at_first);
    if has_task(s.tasks, task_id) {
        let rows = assign_all(s.assignees, task_id, users, by_first, at_first);
        assert(assign_all(s.assignees, task_id, users.drop_last(), by_first, at_first)
            == s.assignees);
        assert(rows == assign_one(s.assignees, task_id, user, by_first, at_first));
        assign_all_facts(s.assignees, task_id, users, by_first, at_first);
        assert(users[0] == user);
        assert(users.contains(user));
        assert(is_assigned(rows, task_id, user));
        let again = assign_all(rows, task_id, users, by_second, at_second);
        assert(assign_all(rows, task_id, users.drop_last(), by_second, at_second) == rows);
        assert(again == rows);
        assigned_means_one_row(rows, task_id, user);
    } else {
        assert(!is_assigned(s.assignees, task_id, user)) by {
            if is_assigned(s.assignees, task_id, user) {
                let i = choose|i: int|
                    0 <= i < s.assignees.len() && (#[trigger] s.assignees[i]).task_id == task_id
                        && s.assignees[i].user_id == user;
                assert(has_task(s.tasks, s.assignees[i].task_id));
            }
        }
        assigned_means_one_row(s.assignees, task_id, user);
    }
}

/// A task that does not exist has no assignments.
pub proof fn missing_task_has_no_rows(s: EngineView, task_id: Seq<char>)
    requires
        engine_wf(s),
        !has_task(s.tasks, task_id),
    ensures
        !has_rows_for(s.assignees, task_id),
        forall|u: Seq<char>| !is_assigned(s.assignees, task_id, u),
{
    if has_rows_for(s.assignees, task_id) {
        let i = choose|i: int| 0 <= i < s.assignees.len() && (#[trigger] s.assignees[i]).task_id == task_id;
        assert(has_task(s.tasks, s.assignees[i].task_id));
    }
    assert forall|u: Seq<char>| !is_assigned(s.assignees, task_id, u) by {
        if is_assigned(s.assignees, task_id, u) {
            let i = choose|i: int|
                0 <= i < s.assignees.len() && (#[trigger] s.assignees[i]).task_id == task_id
                    && s.assignees[i].user_id == u;
            assert(has_task(s.tasks, s.assignees[i].task_id));
        }
    }
}

/// A task created under a project, by a request that names no assignees, is
/// assigned to every member that the directory gives for the project at
/// that time and to nobody else; the answer holds that list of members, and
/// the assignments of other tasks stay as they were.
pub proof fn create_under_project_assigns_its_members(
    s: EngineView,
    task_id: Seq<char>,
    history_id: Seq<char>,
    req: CreateTaskRequest,
    user: Seq<char>,
    now: u64,
)
    requires
        engine_wf(s),
        req.project_id.is_some(),
        requested_assignees(req).len() == 0,
        create_step(s, task_id, history_id, req, user, now).result.is_ok(),
    ensures
        create_step(s, task_id, history_id, req, user, now).result.unwrap().assignee_ids
            == members_of(s.directory.members, req.project_id.unwrap()@),
        forall|u: Seq<char>|
            is_assigned(
                create_step(s, task_id, history_id, req, user, now).state.assignees,
                task_id,
                u,
            ) <==> members_of(s.directory.members, req.project_id.unwrap()@).contains(u),
        forall|u: Seq<char>|
            is_assigned(
                create_step(s, task_id, history_id, req, user, now).state.assignees,
                task_id,
                u,
            ) <==> is_member(s.directory.members, req.project_id.unwrap()@, u),
        forall|t: Seq<char>, u: Seq<char>|
            t != task_id ==> is_assigned(
                create_step(s, task_id, history_id, req, user, now).state.assignees,
                t,
                u,
            ) == is_assigned(s.assignees, t, u),
{
    let p = req.project_id.unwrap()@;
    let members = members_of(s.directory.members, p);
    let after = create_step(s, task_id, history_id, req, user, now).state.assignees;
    assert(after == assign_all(s.assignees, task_id, members, system_actor(), now));
    assign_all_facts(s.assignees, task_id, members, system_actor(), now);
    missing_task_has_no_rows(s, task_id);
    assert forall|u: Seq<char>| is_assigned(after, task_id, u) <==> members.contains(u) by {
        assert(!is_assigned(s.assignees, task_id, u));
        assert(is_assigned(after, task_id, u) <==> (is_assigned(s.assignees, task_id, u) || (task_id
            == task_id && members.contains(u))));
    }
    assert forall|u: Seq<char>| is_assigned(after, task_id, u) <==> is_member(
        s.directory.members,
        p,
        u,
    ) by {
        members_of_holds_members(s.directory.members, p, u);
        assert(is_assigned(after, task_id, u) <==> members.contains(u));
    }
    assert forall|t: Seq<char>, u: Seq<char>| t != task_id implies is_assigned(after, t, u)
        == is_assigned(s.assignees, t, u) by {
        assert(is_assigned(after, t, u) <==> (is_assigned(s.assignees, t, u) || (t == task_id
            && members.contains(u))));
    }
}

/// A task created by a request that names assignees is assigned to the
/// users named and to nobody else, whatever project it belongs to. The
/// answer holds the list as it was named, repeats included, while each user
/// is assigned once. The assignments of other tasks stay as they were.
pub proof fn create_with_named_assignees_assigns_them_alone(
    s: EngineView,
    task_id: Seq<char>,
    history_id: Seq<char>,
    req: CreateTaskRequest,
    user: Seq<char>,
    now: u64,
)
    requires
        engine_wf(s),
        requested_assignees(req).len() > 0,
        create_step(s, task_id, history_id, req, user, now).result.is_ok(),
    ensures
        create_step(s, task_id, history_id, req, user, now).result.unwrap().assignee_ids
            == requested_assignees(req),
        pairs_unique(create_step(s, task_id, history_id, req, user, now).state.assignees),
        forall|u: Seq<char>|
            is_assigned(
                create_step(s, task_id, history_id, req, user, now).state.assignees,
                task_id,
                u,
            ) <==> requested_assignees(req).contains(u),
        forall|u: Seq<char>|
            requested_assignees(req).contains(u) ==> pair_count(
                create_step(s, task_id, history_id, req, user, now).state.assignees,
                task_id,
                u,
            ) == 1,
        forall|t: Seq<char>, u: Seq<char>|
            t != task_id ==> is_assigned(
                create_step(s, task_id, history_id, req, user, now).state.assignees,
                t,
                u,
            ) == is_assigned(s.assignees, t, u),
{
    let named = requested_assignees(req);
    let after = create_step(s, task_id, history_id, req, user, now).state.assignees;
    assert(after == assign_all(s.assignees, task_id, named, user, now));
    assign_all_facts(s.assignees, task_id, named, user, now);
    missing_task_has_no_rows(s, task_id);
    assert forall|u: Seq<char>| is_assigned(after, task_id, u) <==> named.contains(u) by {
        assert(!is_assigned(s.assignees, task_id, u));
        assert(is_assigned(after, task_id, u) <==> (is_assigned(s.assignees, task_id, u) || (task_id
            == task_id && named.contains(u))));
    }
    assert forall|u: Seq<char>| named.contains(u) implies pair_count(after, task_id, u) == 1 by {
        assert(is_assigned(after, task_id, u));
        assigned_means_one_row(after, task_id, u);
    }
    assert forall|t: Seq<char>, u: Seq<char>| t != task_id implies is_assigned(after, t, u)
        == is_assigned(s.assignees, t, u) by {
        assert(is_assigned(after, t, u) <==> (is_assigned(s.assignees, t, u) || (t == task_id
            && named.contains(u))));
    }
}

/// A listing holds only tasks of the store that pass the query, and none
/// twice.
pub proof fn listing_holds_stored_tasks(listing: Seq<TaskView>, tasks: Seq<TaskView>, q: GetTasksQuery)
    requires
        ids_unique(tasks),
        is_listing(listing, tasks, q),
    ensures
        forall|k: int|
            0 <= k < listing.len() ==> has_task(tasks, (#[trigger] listing[k]).id)
                && q.spec_matches(listing[k]),
        forall|j: int, k: int|
            0 <= j < k < listing.len() ==> (#[trigger] listing[j]).id != (#[trigger] listing[k]).id,
{
    let picked = choose|picked: Seq<usize>| #[trigger]
        is_ordered_selection(picked, deadline_keys(tasks), passing(tasks, q)) && listing == page_of(
            tasks_at(tasks, picked),
            q.spec_limit(),
            q.spec_offset(),
        );
    let full = tasks_at(tasks, picked);
    let bounds = crate::order::spec_page_bounds(full.len() as int, q.spec_limit(), q.spec_offset());
    ordered_selection_injective(picked, deadline_keys(tasks), passing(tasks, q));
    assert forall|k: int| 0 <= k < listing.len() implies has_task(tasks, (#[trigger] listing[k]).id)
        && q.spec_matches(listing[k]) by {
        let p = picked[bounds.0 + k];
        assert(listing[k] == tasks[p as int]);
        assert(passing(tasks, q)[p as int]);
    }
    assert forall|j: int, k: int| 0 <= j < k < listing.len() implies (#[trigger] listing[j]).id != (
    #[trigger] listing[k]).id by {
        let pj = picked[bounds.0 + j];
        let pk = picked[bounds.0 + k];
        assert(pj != pk);
        if pj < pk {
            assert(tasks[pj as int].id != tasks[pk as int].id);
        } else {
            assert(tasks[pk as int].id != tasks[pj as int].id);
        }
    }
}

/// The answer to a query is decided by the store and the query.
pub proof fn listing_is_unique(
    a: Seq<TaskView>,
    b: Seq<TaskView>,
    tasks: Seq<TaskView>,
    q: GetTasksQuery,
)
    requires
        is_listing(a, tasks, q),
        is_listing(b, tasks, q),
    ensures
        a == b,
{
    let pa = choose|picked: Seq<usize>| #[trigger]
        is_ordered_selection(picked, deadline_keys(tasks), passing(tasks, q)) && a == page_of(
            tasks_at(tasks, picked),
            q.spec_limit(),
            q.spec_offset(),
        );
    let pb = choose|picked: Seq<usize>| #[trigger]
        is_ordered_selection(picked, deadline_keys(tasks), passing(tasks, q)) && b == page_of(
            tasks_at(tasks, picked),
            q.spec_limit(),
            q.spec_offset(),
        );
    ordered_selection_unique(pa, pb, deadline_keys(tasks), passing(tasks, q));
}

/// The listing of the tasks due today holds exactly the tasks of the store
/// that are due today for the user, each of them once, however many of the
/// three ways it reaches the user.
pub proof fn due_listing_holds_each_due_task_once(
    listing: Seq<TaskView>,
    s: EngineView,
    user: Seq<char>,
    today: Date,
)
    requires
        engine_wf(s),
        is_due_listing(listing, s, user, today),
    ensures
        forall|k: int|
            0 <= k < listing.len() ==> has_task(s.tasks, (#[trigger] listing[k]).id) && due_today(
                s,
                listing[k],
                user,
                today,
            ),
        forall|i: int|
            0 <= i < s.tasks.len() && due_today(s, #[trigger] s.tasks[i], user, today)
                ==> listing.contains(s.tasks[i]),
        forall|j: int, k: int|
            0 <= j < k < listing.len() ==> (#[trigger] listing[j]).id != (#[trigger] listing[k]).id,
{
    let keys = urgency_keys(s.tasks);
    let flags = due_flags(s, user, today);
    let picked = choose|picked: Seq<usize>| #[trigger]
        is_ordered_selection(picked, keys, flags) && listing == tasks_at(s.tasks, picked);
    ordered_selection_injective(picked, keys, flags);
    assert forall|k: int| 0 <= k < listing.len() implies has_task(
        s.tasks,
        (#[trigger] listing[k]).id,
    ) && due_today(s, listing[k], user, today) by {
        let p = picked[k];
        assert(listing[k] == s.tasks[p as int]);
        assert(flags[p as int]);
    }
    assert forall|i: int|
        0 <= i < s.tasks.len() && due_today(s, #[trigger] s.tasks[i], user, today)
            implies listing.contains(s.tasks[i]) by {
        assert(flags[i]);
        assert(lists(picked, i));
        let k = choose|k: int| 0 <= k < picked.len() && #[trigger] picked[k] == i;
        assert(listing[k] == s.tasks[i]);
    }
    assert forall|j: int, k: int| 0 <= j < k < listing.len() implies (#[trigger] listing[j]).id != (
    #[trigger] listing[k]).id by {
        let pj = picked[j];
        let pk = picked[k];
        assert(pj != pk);
        if pj < pk {
            assert(s.tasks[pj as int].id != s.tasks[pk as int].id);
        } else {
            assert(s.tasks[pk as int].id != s.tasks[pj as int].id);
        }
    }
}

/// The tasks due today are decided by the state, the user and the day.
pub proof fn due_listing_is_unique(
    a: Seq<TaskView>,
    b: Seq<TaskView>,
    s: EngineView,
    user: Seq<char>,
    today: Date,
)
    requires
        is_due_listing(a, s, user, today),
        is_due_listing(b, s, user, today),
    ensures
        a == b,
{
    let keys = urgency_keys(s.tasks);
    let flags = due_flags(s, user, today);
    let pa = choose|picked: Seq<usize>| #[trigger]
        is_ordered_selection(picked, keys, flags) && a == tasks_at(s.tasks, picked);
    let pb = choose|picked: Seq<usize>| #[trigger]
        is_ordered_selection(picked, keys, flags) && b == tasks_at(s.tasks, picked);
    ordered_selection_unique(pa, pb, keys, flags);
}

/// A history lists as many entries as speak of the task, each of them an
/// entry of the trail that speaks of it, and never an older entry before a
/// newer one.
pub proof fn history_is_complete_and_newest_first(
    listing: Seq<TaskHistoryView>,
    entries: Seq<TaskHistoryView>,
    task: Seq<char>,
)
    requires
        is_history(listing, entries, task),
    ensures
        listing.len() == entry_count(entries, task),
        forall|k: int|
            0 <= k < listing.len() ==> entries.contains(#[trigger] listing[k]) && listing[k].task_id
                == task,
        forall|i: int|
            0 <= i < entries.len() && (#[trigger] entries[i]).task_id == task ==> listing.contains(
                entries[i],
            ),
        forall|j: int, k: int|
            0 <= j < k < listing.len() ==> (#[trigger] listing[j]).created_at >= (
            #[trigger] listing[k]).created_at,
{
    let keys = entry_keys(entries);
    let flags = entries_of_task(entries, task);
    let picked = choose|picked: Seq<usize>| #[trigger]
        is_ordered_selection(picked, keys, flags) && listing == entries_at_reversed(entries, picked);
    let n = picked.len() as int;
    assert forall|k: int| 0 <= k < listing.len() implies entries.contains(#[trigger] listing[k])
        && listing[k].task_id == task by {
        let p = picked[n - 1 - k];
        assert(listing[k] == entries[p as int]);
        assert(flags[p as int]);
    }
    assert forall|i: int|
        0 <= i < entries.len() && (#[trigger] entries[i]).task_id == task implies listing.contains(
        entries[i],
    ) by {
        assert(flags[i]);
        assert(lists(picked, i));
        let k = choose|k: int| 0 <= k < picked.len() && #[trigger] picked[k] == i;
        assert(listing[n - 1 - k] == entries[i]);
    }
    assert forall|j: int, k: int| 0 <= j < k < listing.len() implies (#[trigger] listing[j]).created_at
        >= (#[trigger] listing[k]).created_at by {
        let pj = picked[n - 1 - j];
        let pk = picked[n - 1 - k];
        assert(comes_before(keys, pk as int, pj as int));
        assert(listing[j] == entries[pj as int]);
        assert(listing[k] == entries[pk as int]);
    }
}

/// The history of a task is decided by the trail.
pub proof fn history_is_unique(
    a: Seq<TaskHistoryView>,
    b: Seq<TaskHistoryView>,
    entries: Seq<TaskHistoryView>,
    task: Seq<char>,
)
    requires
        is_history(a, entries, task),
        is_history(b, entries, task),
    ensures
        a == b,
{
    let keys = entry_keys(entries);
    let flags = entries_of_task(entries, task);
    let pa = choose|picked: Seq<usize>| #[trigger]
        is_ordered_selection(picked, keys, flags) && a == entries_at_reversed(entries, picked);
    let pb = choose|picked: Seq<usize>| #[trigger]
        is_ordered_selection(picked, keys, flags) && b == entries_at_reversed(entries, picked);
    ordered_selection_unique(pa, pb, keys, flags);
}

/// Creating a task keeps the invariant of the engine.
pub proof fn create_keeps_invariant(
    s: EngineView,
    task_id: Seq<char>,
    history_id: Seq<char>,
    req: CreateTaskRequest,
    user: Seq<char>,
    now: u64,
)
    requires
        engine_wf(s),
    ensures
        engine_wf(create_step(s, task_id, history_id, req, user, now).state),
{
    let out = create_step(s, task_id, history_id, req, user, now);
    if req.spec_valid() && !has_task(s.tasks, task_id) {
        let task = req.spec_task(task_id, user, now);
        let tasks = s.tasks.push(task);
        push_keeps_ids(s.tasks, task);
        assert forall|i: int, j: int| 0 <= i < j < tasks.len() implies (#[trigger] tasks[i]).id != (
        #[trigger] tasks[j]).id by {
            if j == s.tasks.len() {
                assert(s.tasks[i].id != task_id);
            } else {
                assert(tasks[i] == s.tasks[i] && tasks[j] == s.tasks[j]);
            }
        }
        assert forall|i: int| 0 <= i < tasks.len() implies (#[trigger] tasks[i]).wf() by {
            if i < s.tasks.len() {
                assert(tasks[i] == s.tasks[i]);
            }
        }
        assert(no_orphans(tasks, s.assignees)) by {
            assert forall|i: int| 0 <= i < s.assignees.len() implies has_task(
                tasks,
                (#[trigger] s.assignees[i]).task_id,
            ) by {
                assert(has_task(s.tasks, s.assignees[i].task_id));
            }
        }
        if !has_entry(s.history, history_id) {
            push_keeps_entry_ids(
                s.history,
                plain_entry(history_id, task_id, user, HistoryAction::Created, now),
            );
            let rows = rows_after_create(s, task_id, req, user, now);
            if requested_assignees(req).len() > 0 {
                assign_all_facts(s.assignees, task_id, requested_assignees(req), user, now);
                assign_all_rows(s.assignees, task_id, requested_assignees(req), user, now);
            } else if req.project_id.is_some() {
                let members = members_of(s.directory.members, req.project_id.unwrap()@);
                assign_all_facts(s.assignees, task_id, members, system_actor(), now);
                assign_all_rows(s.assignees, task_id, members, system_actor(), now);
            }
            assert forall|i: int| 0 <= i < rows.len() implies has_task(
                tasks,
                (#[trigger] rows[i]).task_id,
            ) by {
                if i < s.assignees.len() {
                    assert(rows[i] == s.assignees[i]);
                    assert(has_task(s.tasks, s.assignees[i].task_id));
                }
            }
        }
    }
}

/// Updating a task keeps the invariant of the engine.
pub proof fn update_keeps_invariant(
    s: EngineView,
    task_id: Seq<char>,
    history_id: Seq<char>,
    patch: UpdateTaskRequest,
    user: Seq<char>,
    now: u64,
)
    requires
        engine_wf(s),
    ensures
        engine_wf(update_step(s, task_id, history_id, patch, user, now).state),
{
    if update_refusal(s.tasks, task_id, patch, s.policy).is_none() {
        position_of_existing(s.tasks, task_id);
        let i = position_of(s.tasks, task_id);
        let before = s.tasks[i];
        assert(before.wf());
        let after = patch.spec_apply(before, now);
        apply_preserves_wf(patch, before, now);
        replacement_keeps_ids(s.tasks, i, after);
        let tasks = s.tasks.update(i, after);
        assert forall|k: int| 0 <= k < tasks.len() implies (#[trigger] tasks[k]).wf() by {
            if k != i {
                assert(tasks[k] == s.tasks[k]);
            }
        }
        if !has_entry(s.history, history_id) {
            push_keeps_entry_ids(s.history, update_entry(history_id, before, patch, user, now));
        }
    }
}

/// Deleting a task keeps the invariant of the engine.
pub proof fn delete_keeps_invariant(
    s: EngineView,
    task_id: Seq<char>,
    history_id: Seq<char>,
    user: Seq<char>,
    now: u64,
)
    requires
        engine_wf(s),
    ensures
        engine_wf(delete_step(s, task_id, history_id, user, now).state),
{
    if !has_entry(s.history, history_id) {
        push_keeps_entry_ids(
            s.history,
            plain_entry(history_id, task_id, user, HistoryAction::Deleted, now),
        );
        if has_task(s.tasks, task_id) {
            position_of_existing(s.tasks, task_id);
            let i = position_of(s.tasks, task_id);
            removal_keeps_store(s.tasks, i);
            rows_without_task_facts(s.assignees, task_id);
            rows_without_task_rows(s.assignees, task_id);
            let rows = rows_without_task(s.assignees, task_id);
            let tasks = s.tasks.remove(i);
            assert forall|k: int| 0 <= k < rows.len() implies has_task(
                tasks,
                (#[trigger] rows[k]).task_id,
            ) by {
                assert(s.assignees.contains(rows[k]));
                let j = choose|j: int| 0 <= j < s.assignees.len() && s.assignees[j] == rows[k];
                assert(has_task(s.tasks, s.assignees[j].task_id));
            }
        }
    }
}

/// Adding assignees keeps the invariant of the engine.
pub proof fn add_assignees_keeps_invariant(
    s: EngineView,
    task_id: Seq<char>,
    users: Seq<Seq<char>>,
    by: Seq<char>,
    now: u64,
)
    requires
        engine_wf(s),
    ensures
        engine_wf(add_assignees_step(s, task_id, users, by, now).state),
{
    if has_task(s.tasks, task_id) {
        assign_all_facts(s.assignees, task_id, users, by, now);
        assign_all_rows(s.assignees, task_id, users, by, now);
        let rows = assign_all(s.assignees, task_id, users, by, now);
        assert forall|i: int| 0 <= i < rows.len() implies has_task(
            s.tasks,
            (#[trigger] rows[i]).task_id,
        ) by {
            if i < s.assignees.len() {
                assert(rows[i] == s.assignees[i]);
                assert(has_task(s.tasks, s.assignees[i].task_id));
            }
        }
    }
}

/// Removing an assignee keeps the invariant of the engine.
pub proof fn remove_assignee_keeps_invariant(s: EngineView, task_id: Seq<char>, user: Seq<char>)
    requires
        engine_wf(s),
    ensures
        engine_wf(remove_assignee_step(s, task_id, user).state),
{
    if is_assigned(s.assignees, task_id, user) {
        let i = assignment_position(s.assignees, task_id, user);
        unassign_facts(s.assignees, i);
        let rows = s.assignees.remove(i);
        assert forall|k: int| 0 <= k < rows.len() implies has_task(
            s.tasks,
            (#[trigger] rows[k]).task_id,
        ) by {
            let k0 = if k < i { k } else { k + 1 };
            assert(rows[k] == s.assignees[k0]);
        }
    }
}

/// Every command keeps the invariant of the engine.
pub proof fn command_keeps_invariant(s: EngineView, c: Command)
    requires
        engine_wf(s),
    ensures
        engine_wf(c.apply(s)),
{
    match c {
        Command::Create { task_id, history_id, req, user, now } => {
            create_keeps_invariant(s, task_id, history_id, req, user, now);
        },
        Command::Update { task_id, history_id, patch, user, now } => {
            update_keeps_invariant(s, task_id, history_id, patch, user, now);
        },
        Command::ChangeStatus { task_id, history_id, status, user, now } => {
            status_write_keeps_completion_consistent(s, task_id, history_id, status, user, now);
        },
        Command::Delete { task_id, history_id, user, now } => {
            delete_keeps_invariant(s, task_id, history_id, user, now);
        },
        Command::AddAssignees { task_id, users, by, now } => {
            add_assignees_keeps_invariant(s, task_id, users, by, now);
        },
        Command::RemoveAssignee { task_id, user } => {
            remove_assignee_keeps_invariant(s, task_id, user);
        },
    }
}

/// The audit trail is append-only: a command leaves every entry where it
/// was and as it was. It adds one entry, which speaks of the command's
/// task, where it records; it adds none where it does not.
pub proof fn command_appends_at_most_one_entry(s: EngineView, c: Command)
    requires
        engine_wf(s),
    ensures
        c.records(s) ==> c.apply(s).history.len() == s.history.len() + 1 && c.apply(
            s,
        ).history.drop_last() == s.history && c.apply(s).history.last().task_id == c.task_id(),
        !c.records(s) ==> c.apply(s).history == s.history,
        c.is_mutation() && c.succeeds(s) ==> c.records(s),
        !c.is_mutation() ==> !c.records(s),
{
    match c {
        Command::Create { task_id, history_id, req, user, now } => {
            let out = create_step(s, task_id, history_id, req, user, now);
            if c.records(s) {
                assert(out.state.history.drop_last() =~= s.history);
            }
        },
        Command::Update { task_id, history_id, patch, user, now } => {
            let out = update_step(s, task_id, history_id, patch, user, now);
            if c.records(s) {
                position_of_existing(s.tasks, task_id);
                assert(out.state.history.drop_last() =~= s.history);
            }
        },
        Command::ChangeStatus { task_id, history_id, status, user, now } => {
            let out = status_step(s, task_id, history_id, status, user, now);
            if c.records(s) {
                assert(out.state.history.drop_last() =~= s.history);
            }
        },
        Command::Delete { task_id, history_id, user, now } => {
            let out = delete_step(s, task_id, history_id, user, now);
            if c.records(s) {
                assert(out.state.history.drop_last() =~= s.history);
            }
        },
        Command::AddAssignees { task_id, users, by, now } => {},
        Command::RemoveAssignee { task_id, user } => {},
    }
}

/// After any run of commands the engine's invariant holds, and the trail
/// holds, for each task, as many more entries as commands of the run
/// recorded one for it.
pub proof fn history_counts_recorded_commands(s: EngineView, commands: Seq<Command>, task: Seq<char>)
    requires
        engine_wf(s),
    ensures
        engine_wf(run(s, commands)),
        entry_count(run(s, commands).history, task) == entry_count(s.history, task)
            + recorded_count(s, commands, task),
    decreases commands.len(),
{
    if commands.len() > 0 {
        let head = commands.drop_last();
        let c = commands.last();
        history_counts_recorded_commands(s, head, task);
        let mid = run(s, head);
        command_keeps_invariant(mid, c);
        command_appends_at_most_one_entry(mid, c);
        let after = c.apply(mid);
        if c.records(mid) {
            assert(after.history =~= mid.history.push(after.history.last()));
            entry_count_after_push(mid.history, after.history.last(), task);
        }
    }
}

/// Where every command of a run that changes the task itself succeeds, the
/// history of the task has gained exactly one entry for each of them.
/// Commands that only change who is assigned add none.
pub proof fn history_counts_mutations(s: EngineView, commands: Seq<Command>, task: Seq<char>)
    requires
        engine_wf(s),
        mutations_succeed(s, commands, task),
    ensures
        entry_count(run(s, commands).history, task) == entry_count(s.history, task)
            + mutation_count(commands, task),
    decreases commands.len(),
{
    history_counts_recorded_commands(s, commands, task);
    recorded_is_mutation_count(s, commands, task);
}

/// Where every command of a run that changes the task itself succeeds, the
/// commands that record an entry for the task are those commands.
pub proof fn recorded_is_mutation_count(s: EngineView, commands: Seq<Command>, task: Seq<char>)
    requires
        engine_wf(s),
        mutations_succeed(s, commands, task),
    ensures
        recorded_count(s, commands, task) == mutation_count(commands, task),
    decreases commands.len(),
{
    if commands.len() > 0 {
        let head = commands.drop_last();
        let c = commands.last();
        recorded_is_mutation_count(s, head, task);
        history_counts_recorded_commands(s, head, task);
        command_appends_at_most_one_entry(run(s, head), c);
    }
}

/// After a task is deleted the store no longer holds it, no listing returns
/// it, the registry has no row for it, and the trail holds what it held
/// with the entry `deleted` after it. Other tasks and their assignments
/// stay.
pub proof fn delete_takes_task_and_rows_and_keeps_history(
    s: EngineView,
    task_id: Seq<char>,
    history_id: Seq<char>,
    user: Seq<char>,
    now: u64,
)
    requires
        engine_wf(s),
        delete_step(s, task_id, history_id, user, now).result.is_ok(),
    ensures
        engine_wf(delete_step(s, task_id, history_id, user, now).state),
        !has_task(delete_step(s, task_id, history_id, user, now).state.tasks, task_id),
        forall|q: GetTasksQuery, listing: Seq<TaskView>, k: int|
            #![trigger is_listing(listing, delete_step(s, task_id, history_id, user, now).state.tasks, q), listing[k]]
            is_listing(listing, delete_step(s, task_id, history_id, user, now).state.tasks, q) && 0
                <= k < listing.len() ==> listing[k].id != task_id,
        !has_rows_for(delete_step(s, task_id, history_id, user, now).state.assignees, task_id),
        forall|u: Seq<char>|
            !is_assigned(delete_step(s, task_id, history_id, user, now).state.assignees, task_id, u),
        delete_step(s, task_id, history_id, user, now).state.history == s.history.push(
            plain_entry(history_id, task_id, user, HistoryAction::Deleted, now),
        ),
        forall|id: Seq<char>|
            id != task_id ==> has_task(
                delete_step(s, task_id, history_id, user, now).state.tasks,
                id,
            ) == has_task(s.tasks, id),
        forall|t: Seq<char>, u: Seq<char>|
            t != task_id ==> is_assigned(
                delete_step(s, task_id, history_id, user, now).state.assignees,
                t,
                u,
            ) == is_assigned(s.assignees, t, u),
{
    let after = delete_step(s, task_id, history_id, user, now).state;
    delete_keeps_invariant(s, task_id, history_id, user, now);
    position_of_existing(s.tasks, task_id);
    let i = position_of(s.tasks, task_id);
    removal_keeps_store(s.tasks, i);
    rows_without_task_facts(s.assignees, task_id);
    assert forall|q: GetTasksQuery, listing: Seq<TaskView>, k: int|
        #![trigger is_listing(listing, after.tasks, q), listing[k]]
        is_listing(listing, after.tasks, q) && 0 <= k < listing.len() implies listing[k].id
            != task_id by {
        listing_holds_stored_tasks(listing, after.tasks, q);
        assert(has_task(after.tasks, listing[k].id));
    }
    assert forall|u: Seq<char>| !is_assigned(after.assignees, task_id, u) by {
        assert(is_assigned(after.assignees, task_id, u) <==> (task_id != task_id && is_assigned(
            s.assignees,
            task_id,
            u,
        )));
    }
    assert forall|t: Seq<char>, u: Seq<char>| t != task_id implies is_assigned(after.assignees, t, u)
        == is_assigned(s.assignees, t, u) by {
        assert(is_assigned(after.assignees, t, u) <==> (t != task_id && is_assigned(
            s.assignees,
            t,
            u,
        )));
    }
}

/// An entry that speaks of another task changes nothing about the history of
/// a task.
pub proof fn history_ignores_entries_of_other_tasks(
    before: Seq<TaskHistoryView>,
    after: Seq<TaskHistoryView>,
    entries: Seq<TaskHistoryView>,
    entry: TaskHistoryView,
    task: Seq<char>,
)
    requires
        is_history(before, entries, task),
        is_history(after, entries.push(entry), task),
        entry.task_id != task,
    ensures
        after == before,
{
    let grown = entries.push(entry);
    let keys = entry_keys(entries);
    let flags = entries_of_task(entries, task);
    let keys2 = entry_keys(grown);
    let flags2 = entries_of_task(grown, task);
    let picked = choose|picked: Seq<usize>| #[trigger]
        is_ordered_selection(picked, keys, flags) && before == entries_at_reversed(entries, picked);
    let picked2 = choose|picked: Seq<usize>| #[trigger]
        is_ordered_selection(picked, keys2, flags2) && after == entries_at_reversed(grown, picked);
    assert(keys2 =~= keys.push(entry.created_at));
    assert(flags2 =~= flags.push(false));
    selection_ignores_unwanted_position(picked, keys, flags, entry.created_at);
    ordered_selection_unique(picked, picked2, keys2, flags2);
    assert(after =~= before) by {
        assert forall|k: int| 0 <= k < picked.len() implies entries_at_reversed(grown, picked)[k]
            == entries_at_reversed(entries, picked)[k] by {
            let p = picked[picked.len() - 1 - k];
            assert(p < keys.len());
            assert(grown[p as int] == entries[p as int]);
        }
    }
}

/// An entry that speaks of a task makes the history of the task one longer:
/// the history then holds the new entry and all that it held.
pub proof fn history_gains_the_entry_of_its_task(
    before: Seq<TaskHistoryView>,
    after: Seq<TaskHistoryView>,
    entries: Seq<TaskHistoryView>,
    entry: TaskHistoryView,
    task: Seq<char>,
)
    requires
        is_history(before, entries, task),
        is_history(after, entries.push(entry), task),
        entry.task_id == task,
    ensures
        after.len() == before.len() + 1,
        after.contains(entry),
        forall|k: int| 0 <= k < before.len() ==> after.contains(#[trigger] before[k]),
{
    let grown = entries.push(entry);
    history_is_complete_and_newest_first(before, entries, task);
    history_is_complete_and_newest_first(after, grown, task);
    entry_count_after_push(entries, entry, task);
    assert(grown[entries.len() as int] == entry);
    assert(after.contains(entry));
    assert forall|k: int| 0 <= k < before.len() implies after.contains(#[trigger] before[k]) by {
        assert(entries.contains(before[k]));
        let i = choose|i: int| 0 <= i < entries.len() && entries[i] == before[k];
        assert(grown[i] == before[k]);
        assert(grown[i].task_id == task);
    }
}

/// An entry that speaks of a task, and is no earlier than any entry that
/// speaks of it, comes first in the history of the task; the rest follows as
/// it was.
pub proof fn latest_entry_comes_first_in_history(
    before: Seq<TaskHistoryView>,
    after: Seq<TaskHistoryView>,
    entries: Seq<TaskHistoryView>,
    entry: TaskHistoryView,
    task: Seq<char>,
)
    requires
        is_history(before, entries, task),
        is_history(after, entries.push(entry), task),
        entry.task_id == task,
        forall|i: int|
            0 <= i < entries.len() && (#[trigger] entries[i]).task_id == task
                ==> entries[i].created_at <= entry.created_at,
    ensures
        after == seq![entry] + before,
{
    let grown = entries.push(entry);
    let n = entries.len() as int;
    let keys = entry_keys(entries);
    let flags = entries_of_task(entries, task);
    let keys2 = entry_keys(grown);
    let flags2 = entries_of_task(grown, task);
    let picked = choose|picked: Seq<usize>| #[trigger]
        is_ordered_selection(picked, keys, flags) && before == entries_at_reversed(entries, picked);
    let picked2 = choose|picked: Seq<usize>| #[trigger]
        is_ordered_selection(picked, keys2, flags2) && after == entries_at_reversed(grown, picked);
    assert(keys2 =~= keys.push(entry.created_at));
    assert(flags2 =~= flags.push(true));
    assert(n <= usize::MAX) by {
        assert(flags2[n]);
        assert(lists(picked2, n));
        let at = choose|k: int| 0 <= k < picked2.len() && #[trigger] picked2[k] == n;
    }
    assert forall|p: int| 0 <= p < keys.len() && flags[p] implies #[trigger] keys[p]
        <= entry.created_at by {
        assert(entries[p].task_id == task);
    }
    selection_ends_with_latest_position(picked, keys, flags, entry.created_at);
    let extended = picked.push(n as usize);
    ordered_selection_unique(extended, picked2, keys2, flags2);
    let shown = entries_at_reversed(grown, extended);
    let expected = seq![entry] + before;
    assert(shown.len() == expected.len());
    assert forall|k: int| 0 <= k < shown.len() implies shown[k] == expected[k] by {
        if k == 0 {
            assert(extended[extended.len() - 1] == n);
            assert(grown[n] == entry);
        } else {
            let p = picked[picked.len() - k];
            assert(extended[extended.len() - 1 - k] == p);
            assert(p < keys.len());
            assert(grown[p as int] == entries[p as int]);
            assert(before[k - 1] == entries[p as int]);
        }
    }
    assert(after =~= expected);
}

/// An update of a task that does not exist answers `NotFound` and changes
/// nothing, whatever the request holds, so long as it names a field.
pub proof fn update_of_missing_task_is_not_found(
    s: EngineView,
    task_id: Seq<char>,
    history_id: Seq<char>,
    patch: UpdateTaskRequest,
    user: Seq<char>,
    now: u64,
)
    requires
        !has_task(s.tasks, task_id),
        !patch.spec_is_empty(),
    ensures
        update_step(s, task_id, history_id, patch, user, now).result == Err::<
            TaskView,
            EngineError,
        >(EngineError::NotFound),
        update_step(s, task_id, history_id, patch, user, now).state == s,
{
}

/// A status write to a task that exists succeeds where the status can be
/// read, the policy permits the transition and the history identifier is
/// new. Every task then has a completion timestamp exactly if its status is
/// `completed`, and the history has gained the entry of the change.
pub proof fn permitted_status_write_succeeds(
    s: EngineView,
    task_id: Seq<char>,
    history_id: Seq<char>,
    status: Seq<char>,
    user: Seq<char>,
    now: u64,
)
    requires
        engine_wf(s),
        has_task(s.tasks, task_id),
        TaskStatus::spec_parse(status).is_some(),
        s.policy.spec_permits(
            task_of(s.tasks, task_id).status,
            TaskStatus::spec_parse(status).unwrap(),
        ),
        !has_entry(s.history, history_id),
    ensures
        status_step(s, task_id, history_id, status, user, now).result.is_ok(),
        forall|i: int|
            0 <= i < status_step(s, task_id, history_id, status, user, now).state.tasks.len() ==> (
            #[trigger] status_step(
                s,
                task_id,
                history_id,
                status,
                user,
                now,
            ).state.tasks[i]).completion_consistent(),
        status_step(s, task_id, history_id, status, user, now).state.history == s.history.push(
            status_entry(
                history_id,
                task_id,
                user,
                task_of(s.tasks, task_id).status,
                TaskStatus::spec_parse(status).unwrap(),
                now,
            ),
        ),
{
    status_write_keeps_completion_consistent(s, task_id, history_id, status, user, now);
}

/// Under the permissive policy every status write to a task that exists
/// succeeds, whatever status it names, so long as the status can be read
/// and the history identifier is new; and every task then has a completion
/// timestamp exactly if its status is `completed`.
pub proof fn status_write_under_the_permissive_policy_succeeds(
    s: EngineView,
    task_id: Seq<char>,
    history_id: Seq<char>,
    status: Seq<char>,
    user: Seq<char>,
    now: u64,
)
    requires
        engine_wf(s),
        s.policy == crate::status::TransitionPolicy::Permissive,
        has_task(s.tasks, task_id),
        TaskStatus::spec_parse(status).is_some(),
        !has_entry(s.history, history_id),
    ensures
        status_step(s, task_id, history_id, status, user, now).result.is_ok(),
        engine_wf(status_step(s, task_id, history_id, status, user, now).state),
        forall|i: int|
            0 <= i < status_step(s, task_id, history_id, status, user, now).state.tasks.len() ==> (
            #[trigger] status_step(
                s,
                task_id,
                history_id,
                status,
                user,
                now,
            ).state.tasks[i]).completed_at.is_some() == (status_step(
                s,
                task_id,
                history_id,
                status,
                user,
                now,
            ).state.tasks[i].status == TaskStatus::Completed),
{
    permitted_status_write_succeeds(s, task_id, history_id, status, user, now);
    status_write_keeps_completion_consistent(s, task_id, history_id, status, user, now);
    let after = status_step(s, task_id, history_id, status, user, now).state;
    assert forall|i: int| 0 <= i < after.tasks.len() implies (#[trigger] after.tasks[i]).completed_at.is_some()
        == (after.tasks[i].status == TaskStatus::Completed) by {
        assert(after.tasks[i].completion_consistent());
    }
}

/// Under the permissive policy every status that can be read may be written
/// to every task.
pub proof fn permissive_policy_permits_every_write(from: TaskStatus, to: TaskStatus)
    ensures
        crate::status::TransitionPolicy::Permissive.spec_permits(from, to),
{
}

/// The history of a task after the task is deleted. It is one entry longer
/// than before, holds the entry `deleted` by the deleting user and every
/// entry that it held. Where no entry of the task is later than the
/// deletion, the entry `deleted` comes first and the history as it was
/// follows, entry for entry; no entry is then later than the entry
/// `deleted`.
pub proof fn history_after_delete(
    s: EngineView,
    task_id: Seq<char>,
    history_id: Seq<char>,
    user: Seq<char>,
    now: u64,
    before: Seq<TaskHistoryView>,
    after: Seq<TaskHistoryView>,
)
    requires
        engine_wf(s),
        delete_step(s, task_id, history_id, user, now).result.is_ok(),
        is_history(before, s.history, task_id),
        is_history(after, delete_step(s, task_id, history_id, user, now).state.history, task_id),
    ensures
        after.len() == before.len() + 1,
        after.contains(plain_entry(history_id, task_id, user, HistoryAction::Deleted, now)),
        forall|k: int| 0 <= k < before.len() ==> after.contains(#[trigger] before[k]),
        (forall|i: int|
            0 <= i < s.history.len() && (#[trigger] s.history[i]).task_id == task_id
                ==> s.history[i].created_at <= now) ==> {
            &&& after == seq![
                plain_entry(history_id, task_id, user, HistoryAction::Deleted, now),
            ] + before
            &&& after[0].action == HistoryAction::Deleted
            &&& after[0].user_id == user
            &&& after[0].created_at == now
            &&& forall|k: int| 0 <= k < before.len() ==> #[trigger] after[k + 1] == before[k]
            &&& forall|k: int| 0 <= k < after.len() ==> (#[trigger] after[k]).created_at <= now
        },
{
    let entry = plain_entry(history_id, task_id, user, HistoryAction::Deleted, now);
    delete_takes_task_and_rows_and_keeps_history(s, task_id, history_id, user, now);
    history_gains_the_entry_of_its_task(before, after, s.history, entry, task_id);
    if forall|i: int|
        0 <= i < s.history.len() && (#[trigger] s.history[i]).task_id == task_id
            ==> s.history[i].created_at <= now {
        latest_entry_comes_first_in_history(before, after, s.history, entry, task_id);
        history_is_complete_and_newest_first(before, s.history, task_id);
        let joined = seq![entry] + before;
        assert(joined[0] == entry);
        assert forall|k: int| 0 <= k < before.len() implies #[trigger] after[k + 1] == before[k] by {
            assert(joined[k + 1] == before[k]);
        }
        assert forall|k: int| 0 <= k < after.len() implies (#[trigger] after[k]).created_at
            <= now by {
            if k > 0 {
                assert(after[(k - 1) + 1] == before[k - 1]);
                assert(s.history.contains(before[k - 1]));
                let i = choose|i: int| 0 <= i < s.history.len() && s.history[i] == before[k - 1];
                assert(s.history[i].task_id == task_id);
            }
        }
    }
}

/// A command brings no task into the store but the one that it creates.
pub proof fn command_adds_no_task_but_the_one_it_creates(s: EngineView, c: Command, id: Seq<char>)
    requires
        engine_wf(s),
        !has_task(s.tasks, id),
        !(c is Create && c.task_id() == id),
    ensures
        !has_task(c.apply(s).tasks, id),
{
    match c {
        Command::Create { task_id, history_id, req, user, now } => {
            if req.spec_valid() && !has_task(s.tasks, task_id) {
                push_keeps_ids(s.tasks, req.spec_task(task_id, user, now));
            }
        },
        Command::Update { task_id, history_id, patch, user, now } => {
            if update_refusal(s.tasks, task_id, patch, s.policy).is_none() {
                position_of_existing(s.tasks, task_id);
                let i = position_of(s.tasks, task_id);
                assert(s.tasks[i].wf());
                apply_preserves_wf(patch, s.tasks[i], now);
                replacement_keeps_ids(s.tasks, i, patch.spec_apply(s.tasks[i], now));
            }
        },
        Command::ChangeStatus { task_id, history_id, status, user, now } => {
            if status_refusal(s.tasks, task_id, status, s.policy).is_none() {
                position_of_existing(s.tasks, task_id);
                let i = position_of(s.tasks, task_id);
                replacement_keeps_ids(
                    s.tasks,
                    i,
                    with_status(s.tasks[i], TaskStatus::spec_parse(status).unwrap(), now),
                );
            }
        },
        Command::Delete { task_id, history_id, user, now } => {
            if !has_entry(s.history, history_id) && has_task(s.tasks, task_id) {
                position_of_existing(s.tasks, task_id);
                removal_keeps_store(s.tasks, position_of(s.tasks, task_id));
            }
        },
        Command::AddAssignees { task_id, users, by, now } => {},
        Command::RemoveAssignee { task_id, user } => {},
    }
}

/// A task that is not in the store stays out of it, and out of every
/// listing, through any run of commands that does not create it: so a
/// deleted task is not returned again until a task is created under its
/// identifier.
pub proof fn absent_task_stays_out(s: EngineView, commands: Seq<Command>, id: Seq<char>)
    requires
        engine_wf(s),
        !has_task(s.tasks, id),
        forall|k: int|
            0 <= k < commands.len() ==> !((#[trigger] commands[k]) is Create
                && commands[k].task_id() == id),
    ensures
        engine_wf(run(s, commands)),
        !has_task(run(s, commands).tasks, id),
        forall|q: GetTasksQuery, listing: Seq<TaskView>, k: int|
            #![trigger is_listing(listing, run(s, commands).tasks, q), listing[k]]
            is_listing(listing, run(s, commands).tasks, q) && 0 <= k < listing.len()
                ==> listing[k].id != id,
    decreases commands.len(),
{
    if commands.len() > 0 {
        let head = commands.drop_last();
        assert forall|k: int| 0 <= k < head.len() implies !((#[trigger] head[k]) is Create
            && head[k].task_id() == id) by {
            assert(head[k] == commands[k]);
        }
        absent_task_stays_out(s, head, id);
        let mid = run(s, head);
        assert(commands.last() == commands[commands.len() - 1]);
        command_keeps_invariant(mid, commands.last());
        command_adds_no_task_but_the_one_it_creates(mid, commands.last(), id);
    }
    let after = run(s, commands);
    assert forall|q: GetTasksQuery, listing: Seq<TaskView>, k: int|
        #![trigger is_listing(listing, after.tasks, q), listing[k]]
        is_listing(listing, after.tasks, q) && 0 <= k < listing.len() implies listing[k].id
            != id by {
        listing_holds_stored_tasks(listing, after.tasks, q);
        assert(has_task(after.tasks, listing[k].id));
    }
}

/// Salvaging lists that meet the invariant of the engine leaves nothing
/// out.
pub proof fn salvage_keeps_what_fits(
    tasks: Seq<TaskView>,
    rows: Seq<TaskAssigneeView>,
    entries: Seq<TaskHistoryView>,
)
    requires
        store_wf(tasks),
        pairs_unique(rows),
        no_orphans(tasks, rows),
        entry_ids_unique(entries),
    ensures
        kept_tasks(tasks) == tasks,
        kept_rows(tasks, rows) == rows,
        kept_entries(entries) == entries,
{
    all_tasks_are_kept(tasks);
    all_rows_are_kept(tasks, rows);
    all_entries_are_kept(entries);
}

/// Of the tasks of a well-formed store, all are kept.
proof fn all_tasks_are_kept(tasks: Seq<TaskView>)
    requires
        store_wf(tasks),
    ensures
        kept_tasks(tasks) == tasks,
    decreases tasks.len(),
{
    if tasks.len() > 0 {
        let head = tasks.drop_last();
        assert(store_wf(head)) by {
            assert forall|i: int, j: int| 0 <= i < j < head.len() implies (#[trigger] head[i]).id != (
            #[trigger] head[j]).id by {
                assert(head[i] == tasks[i] && head[j] == tasks[j]);
            }
            assert forall|i: int| 0 <= i < head.len() implies (#[trigger] head[i]).wf() by {
                assert(head[i] == tasks[i]);
            }
        }
        all_tasks_are_kept(head);
        assert(tasks.last() == tasks[tasks.len() - 1]);
        assert(!has_task(head, tasks.last().id)) by {
            if has_task(head, tasks.last().id) {
                let i = choose|i: int| 0 <= i < head.len() && (#[trigger] head[i]).id == tasks.last().id;
                assert(head[i] == tasks[i]);
                assert(tasks[i].id != tasks[tasks.len() - 1].id);
            }
        }
        assert(head.push(tasks.last()) =~= tasks);
    }
}

/// Of assignments without repeats, to tasks that exist, all are kept.
proof fn all_rows_are_kept(tasks: Seq<TaskView>, rows: Seq<TaskAssigneeView>)
    requires
        pairs_unique(rows),
        no_orphans(tasks, rows),
    ensures
        kept_rows(tasks, rows) == rows,
    decreases rows.len(),
{
    if rows.len() > 0 {
        let head = rows.drop_last();
        let last = rows.last();
        assert(pairs_unique(head) && no_orphans(tasks, head)) by {
            assert forall|i: int, j: int| 0 <= i < j < head.len() implies !((#[trigger] head[i]).task_id
                == (#[trigger] head[j]).task_id && head[i].user_id == head[j].user_id) by {
                assert(head[i] == rows[i] && head[j] == rows[j]);
            }
            assert forall|i: int| 0 <= i < head.len() implies has_task(
                tasks,
                (#[trigger] head[i]).task_id,
            ) by {
                assert(head[i] == rows[i]);
            }
        }
        all_rows_are_kept(tasks, head);
        assert(last == rows[rows.len() - 1]);
        assert(has_task(tasks, last.task_id));
        assert(!is_assigned(head, last.task_id, last.user_id)) by {
            if is_assigned(head, last.task_id, last.user_id) {
                let i = choose|i: int|
                    0 <= i < head.len() && (#[trigger] head[i]).task_id == last.task_id
                        && head[i].user_id == last.user_id;
                assert(head[i] == rows[i]);
                assert(!(rows[i].task_id == rows[rows.len() - 1].task_id && rows[i].user_id
                    == rows[rows.len() - 1].user_id));
            }
        }
        assert(head.push(last) =~= rows);
    }
}

/// Of history entries with unique identifiers, all are kept.
proof fn all_entries_are_kept(entries: Seq<TaskHistoryView>)
    requires
        entry_ids_unique(entries),
    ensures
        kept_entries(entries) == entries,
    decreases entries.len(),
{
    if entries.len() > 0 {
        let head = entries.drop_last();
        assert(entry_ids_unique(head)) by {
            assert forall|i: int, j: int| 0 <= i < j < head.len() implies (#[trigger] head[i]).id != (
            #[trigger] head[j]).id by {
                assert(head[i] == entries[i] && head[j] == entries[j]);
            }
        }
        all_entries_are_kept(head);
        assert(entries.last() == entries[entries.len() - 1]);
        assert(!has_entry(head, entries.last().id)) by {
            if has_entry(head, entries.last().id) {
                let i = choose|i: int|
                    0 <= i < head.len() && (#[trigger] head[i]).id == entries.last().id;
                assert(head[i] == entries[i]);
                assert(entries[i].id != entries[entries.len() - 1].id);
            }
        }
        assert(head.push(entries.last()) =~= entries);
    }
}

} // verus!
