use vstd::prelude::*;

use crate::due::DueTime;
use crate::store::{lemma_deleted_wf, lemma_index_of, listed, parts_wf, StoreView};
use crate::task::{blank, TaskView};

verus! {

/// The store after one task is created for each item of `items`, in order.
pub open spec fn created_all(s: StoreView, items: Seq<(Seq<char>, DueTime)>) -> StoreView
    decreases items.len(),
{
    if items.len() == 0 {
        s
    } else {
        created_all(s, items.drop_last()).created(items.last().0, items.last().1)
    }
}

/// Any sequence of creations keeps the store well formed, so its ids stay
/// unique and strictly increasing; the k-th new task gets id `next_id + k`.
pub proof fn lemma_creations_assign_increasing_ids(
    s: StoreView,
    items: Seq<(Seq<char>, DueTime)>,
)
    requires
        s.wf(),
        s.next_id + items.len() <= i32::MAX,
        forall|k: int| 0 <= k < items.len() ==> !blank(#[trigger] items[k].0),
    ensures
        created_all(s, items).wf(),
        created_all(s, items).next_id == s.next_id + items.len(),
        created_all(s, items).tasks.len() == s.tasks.len() + items.len(),
        created_all(s, items).tasks.take(s.tasks.len() as int) == s.tasks,
        forall|k: int|
            0 <= k < items.len() ==> #[trigger] created_all(s, items).tasks[s.tasks.len() + k].id
                == s.next_id + k,
    decreases items.len(),
{
    if items.len() > 0 {
        let prev = items.drop_last();
        assert forall|k: int| 0 <= k < prev.len() implies !blank(#[trigger] prev[k].0) by {
            assert(prev[k] == items[k]);
        }
        lemma_creations_assign_increasing_ids(s, prev);
        let p = created_all(s, prev);
        let r = created_all(s, items);
        assert(r.tasks == p.tasks.push(r.tasks.last()));
        assert(!blank(items[items.len() - 1].0));
        assert(r.tasks.take(s.tasks.len() as int) =~= p.tasks.take(s.tasks.len() as int));
        assert forall|k: int| 0 <= k < items.len() implies #[trigger] r.tasks[s.tasks.len()
            + k].id == s.next_id + k by {
            if k < prev.len() {
                assert(r.tasks[s.tasks.len() + k] == p.tasks[s.tasks.len() + k]);
            }
        }
    } else {
        assert(s.tasks.take(s.tasks.len() as int) =~= s.tasks);
    }
}

/// Once a task is deleted, no task carries its id, so looking it up fails.
pub proof fn lemma_delete_then_find_fails(s: StoreView, id: int)
    requires
        s.wf(),
        s.contains_id(id),
    ensures
        !s.deleted(id).contains_id(id),
{
    lemma_deleted_wf(s, id);
}

/// The parts of a well-formed store pass the checks of a restore, which then
/// gives back the same tasks and the same next id.
pub proof fn lemma_restore_round_trip(s: StoreView)
    requires
        s.wf(),
    ensures
        parts_wf(s.tasks, s.next_id),
{
}

/// Updating only the description keeps the due time and the completion flag;
/// updating only the due time keeps the description and the completion flag.
pub proof fn lemma_update_touches_only_given_fields(
    s: StoreView,
    id: int,
    description: Seq<char>,
    due: DueTime,
)
    requires
        s.wf(),
        s.contains_id(id),
    ensures
        ({
            let i = s.index_of(id);
            let t = s.updated(id, Some(description), None).tasks[i];
            t.id == id && t.description == description && t.due_datetime
                == s.tasks[i].due_datetime && t.completed == s.tasks[i].completed
        }),
        ({
            let i = s.index_of(id);
            let t = s.updated(id, None, Some(due)).tasks[i];
            t.id == id && t.due_datetime == due && t.description == s.tasks[i].description
                && t.completed == s.tasks[i].completed
        }),
{
}

/// Completing a task that is already completed changes nothing, and
/// completing a task twice is the same as completing it once.
pub proof fn lemma_complete_idempotent(s: StoreView, id: int)
    requires
        s.wf(),
        s.contains_id(id),
    ensures
        s.completed(id).contains_id(id),
        s.completed(id).tasks[s.index_of(id)].completed,
        s.completed(id).completed(id) == s.completed(id),
        s.tasks[s.index_of(id)].completed ==> s.completed(id) == s,
{
    let i = s.index_of(id);
    let c = s.completed(id);
    assert(c.wf()) by {
        assert forall|k: int| 0 <= k < c.tasks.len() implies #[trigger] c.tasks[k].id
            == s.tasks[k].id && c.tasks[k].description == s.tasks[k].description by {}
    }
    lemma_index_of(c, i);
    assert(c.completed(id).tasks =~= c.tasks);
    if s.tasks[i].completed {
        assert(c.tasks =~= s.tasks);
    }
}

/// A listing of incomplete tasks holds no completed task.
pub proof fn lemma_incomplete_listing(tasks: Seq<TaskView>)
    ensures
        forall|k: int|
            0 <= k < listed(tasks, true).len() ==> !(#[trigger] listed(tasks, true)[k]).completed,
    decreases tasks.len(),
{
    if tasks.len() > 0 {
        let rest = listed(tasks.drop_last(), true);
        lemma_incomplete_listing(tasks.drop_last());
        if !tasks.last().completed {
            assert forall|k: int| 0 <= k < rest.len() + 1 implies !(#[trigger] rest.push(
                tasks.last(),
            )[k]).completed by {
                if k < rest.len() {
                    assert(rest.push(tasks.last())[k] == rest[k]);
                }
            }
        }
    }
}

} // verus!
