use vstd::prelude::*;

use crate::repository::{
    lemma_filter_skips_match, lemma_filter_without_match, lemma_first_index_exists,
    lemma_first_index_is, plain_task, restored, task_of_plain, RepositoryView,
};
use crate::task::TaskView;

verus! {

/// The repository after adding each of `descriptions` in turn.
pub open spec fn added_all(v: RepositoryView, descriptions: Seq<Seq<char>>) -> RepositoryView
    decreases descriptions.len(),
{
    if descriptions.len() == 0 {
        v
    } else {
        added_all(v, descriptions.drop_last()).added(descriptions.last())
    }
}

/// Where no two tasks share an id, the task that carries `id` is the first
/// that does.
proof fn lemma_unique_is_first(v: RepositoryView, id: usize, k: int)
    requires
        v.wf(),
        0 <= k < v.tasks.len(),
        v.tasks[k].id == id,
    ensures
        v.has_id(id),
        v.first_with(id) == k,
{
    assert forall|j: int| 0 <= j < k implies #[trigger] v.ids()[j] != id by {
        assert(v.tasks[j].id != v.tasks[k].id);
    }
    lemma_first_index_is(v.ids(), id, k);
}

/// Deleting an id that a task carries, where no two tasks share an id,
/// removes that task and keeps the others in order; deleting one that no
/// task carries removes nothing.
pub proof fn law_delete_removes_that_task(v: RepositoryView, id: usize)
    requires
        v.wf(),
    ensures
        !v.has_id(id) ==> v.deleted(id).tasks == v.tasks,
        forall|k: int|
            0 <= k < v.tasks.len() && #[trigger] v.tasks[k].id == id ==> v.deleted(id).tasks
                == v.tasks.remove(k),
{
    if !v.has_id(id) {
        lemma_filter_without_match(v.tasks, id);
    }
    assert forall|k: int|
        0 <= k < v.tasks.len() && #[trigger] v.tasks[k].id == id implies v.deleted(id).tasks
            == v.tasks.remove(k) by {
        let rest = v.tasks.remove(k);
        assert forall|i: int| 0 <= i < rest.len() implies #[trigger] rest[i].id != id by {
            let a = if i < k { i } else { i + 1 };
            assert(rest[i] == v.tasks[a]);
            assert(v.tasks[a].id != v.tasks[k].id);
        }
        lemma_filter_skips_match(v.tasks, k, id);
        lemma_filter_without_match(rest, id);
    }
}

/// Every operation keeps the invariant: ids stay below the counter and
/// distinct.
pub proof fn law_operations_keep_invariant(v: RepositoryView, id: usize, description: Seq<char>)
    requires
        v.wf(),
    ensures
        v.next_id < usize::MAX ==> v.added(description).wf(),
        v.edited(id, description).wf(),
        v.marked(id).wf(),
        v.deleted(id).wf(),
{
    let e = v.edited(id, description);
    let m = v.marked(id);
    if v.has_id(id) {
        let w = choose|w: int| 0 <= w < v.tasks.len() && #[trigger] v.tasks[w].id == id;
        lemma_unique_is_first(v, id, w);
        assert forall|i: int| 0 <= i < v.tasks.len() implies #[trigger] e.tasks[i].id == v.tasks[i].id
            && m.tasks[i].id == v.tasks[i].id by {}
    }
    assert forall|i: int, j: int|
        0 <= i < e.tasks.len() && 0 <= j < e.tasks.len() && i != j implies #[trigger] e.tasks[i].id
            != #[trigger] e.tasks[j].id by {
        assert(v.tasks[i].id != v.tasks[j].id);
    }
    assert forall|i: int, j: int|
        0 <= i < m.tasks.len() && 0 <= j < m.tasks.len() && i != j implies #[trigger] m.tasks[i].id
            != #[trigger] m.tasks[j].id by {
        assert(v.tasks[i].id != v.tasks[j].id);
    }
    law_delete_removes_that_task(v, id);
    let d = v.deleted(id);
    if v.has_id(id) {
        let k = choose|k: int| 0 <= k < v.tasks.len() && #[trigger] v.tasks[k].id == id;
        assert(d.tasks == v.tasks.remove(k));
        assert forall|i: int, j: int|
            0 <= i < d.tasks.len() && 0 <= j < d.tasks.len() && i != j implies #[trigger] d.tasks[i].id
                != #[trigger] d.tasks[j].id by {
            let a = if i < k { i } else { i + 1 };
            let b = if j < k { j } else { j + 1 };
            assert(v.tasks[a].id != v.tasks[b].id);
        }
        assert forall|i: int| 0 <= i < d.tasks.len() implies #[trigger] d.tasks[i].id < d.next_id by {
            let a = if i < k { i } else { i + 1 };
            assert(v.tasks[a].id < v.next_id);
        }
    }
}

/// Adding descriptions one after another gives the new tasks the ids
/// `next_id`, `next_id + 1`, ... in order: strictly increasing, and, as the
/// invariant holds throughout, distinct from each other and from every id
/// already present.
pub proof fn law_added_ids_increase(v: RepositoryView, descriptions: Seq<Seq<char>>)
    requires
        v.wf(),
        v.next_id + descriptions.len() <= usize::MAX,
    ensures
        added_all(v, descriptions).wf(),
        added_all(v, descriptions).next_id == v.next_id + descriptions.len(),
        added_all(v, descriptions).tasks.len() == v.tasks.len() + descriptions.len(),
        added_all(v, descriptions).tasks.subrange(0, v.tasks.len() as int) == v.tasks,
        forall|i: int|
            0 <= i < descriptions.len() ==> #[trigger] added_all(v, descriptions).tasks[v.tasks.len()
                + i] == (TaskView {
                id: (v.next_id + i) as usize,
                description: descriptions[i],
                completed: false,
            }),
        forall|i: int, j: int|
            0 <= i < j < descriptions.len() ==> #[trigger] added_all(v, descriptions).tasks[v.tasks.len()
                + i].id < #[trigger] added_all(v, descriptions).tasks[v.tasks.len() + j].id,
    decreases descriptions.len(),
{
    if descriptions.len() > 0 {
        let init = descriptions.drop_last();
        law_added_ids_increase(v, init);
        let prev = added_all(v, init);
        law_operations_keep_invariant(prev, 0, descriptions.last());
        let cur = added_all(v, descriptions);
        assert(cur == prev.added(descriptions.last()));
        assert(cur.tasks.subrange(0, v.tasks.len() as int) =~= v.tasks) by {
            assert(prev.tasks.subrange(0, v.tasks.len() as int) == v.tasks);
            assert forall|a: int| 0 <= a < v.tasks.len() implies cur.tasks[a] == prev.tasks[a] by {}
        }
        assert forall|i: int| 0 <= i < descriptions.len() implies #[trigger] cur.tasks[v.tasks.len()
            + i] == (TaskView {
            id: (v.next_id + i) as usize,
            description: descriptions[i],
            completed: false,
        }) by {
            if i < init.len() {
                assert(cur.tasks[v.tasks.len() + i] == prev.tasks[v.tasks.len() + i]);
                assert(init[i] == descriptions[i]);
            }
        }
        assert forall|i: int, j: int| 0 <= i < j < descriptions.len() implies #[trigger] cur.tasks[v.tasks.len()
            + i].id < #[trigger] cur.tasks[v.tasks.len() + j].id by {
            assert(cur.tasks[v.tasks.len() + i].id == v.next_id + i);
            assert(cur.tasks[v.tasks.len() + j].id == v.next_id + j);
        }
    }
}

/// Adding a task and then deleting it by its id leaves the tasks as they
/// were and the counter where the addition put it.
pub proof fn law_delete_after_add_keeps_counter(v: RepositoryView, description: Seq<char>)
    requires
        v.wf(),
        v.next_id < usize::MAX,
    ensures
        v.added(description).deleted(v.next_id).tasks == v.tasks,
        v.added(description).deleted(v.next_id).next_id == v.added(description).next_id,
        v.added(description).deleted(v.next_id).next_id == v.next_id + 1,
{
    let a = v.added(description);
    law_operations_keep_invariant(v, 0, description);
    law_delete_removes_that_task(a, v.next_id);
    let k = v.tasks.len() as int;
    assert(a.tasks[k].id == v.next_id);
    assert(a.tasks.remove(k) =~= v.tasks);
}

/// After adding a task and deleting it by its id, the next task added gets
/// the following id, and no task carries the deleted id: it is not handed
/// out again.
pub proof fn law_deleted_id_not_reused(
    v: RepositoryView,
    description: Seq<char>,
    next_description: Seq<char>,
)
    requires
        v.wf(),
        v.next_id + 1 < usize::MAX,
    ensures
        v.added(description).deleted(v.next_id).added(next_description).tasks.last().id == v.next_id
            + 1,
        !v.added(description).deleted(v.next_id).added(next_description).has_id(v.next_id),
{
    law_delete_after_add_keeps_counter(v, description);
    let r = v.added(description).deleted(v.next_id).added(next_description);
    assert forall|i: int| 0 <= i < r.tasks.len() implies #[trigger] r.tasks[i].id != v.next_id by {
        if i < v.tasks.len() {
            assert(r.tasks[i] == v.tasks[i]);
        }
    }
}

/// Editing an id that a task carries, where no two tasks share an id,
/// changes that task's description and nothing else: its id and flag, every
/// other task, and the counter stay.
pub proof fn law_edit_changes_only_that_task(v: RepositoryView, id: usize, description: Seq<char>)
    requires
        v.wf(),
        v.has_id(id),
    ensures
        v.edited(id, description).next_id == v.next_id,
        v.edited(id, description).tasks.len() == v.tasks.len(),
        forall|k: int|
            0 <= k < v.tasks.len() && #[trigger] v.tasks[k].id == id ==> {
                &&& v.edited(id, description).tasks[k] == (TaskView {
                    id,
                    description,
                    completed: v.tasks[k].completed,
                })
                &&& forall|j: int|
                    0 <= j < v.tasks.len() && j != k ==> #[trigger] v.edited(id, description).tasks[j]
                        == v.tasks[j]
            },
{
    let w = choose|w: int| 0 <= w < v.tasks.len() && #[trigger] v.tasks[w].id == id;
    lemma_unique_is_first(v, id, w);
    assert forall|k: int| 0 <= k < v.tasks.len() && #[trigger] v.tasks[k].id == id implies {
        &&& v.edited(id, description).tasks[k] == (TaskView {
            id,
            description,
            completed: v.tasks[k].completed,
        })
        &&& forall|j: int|
            0 <= j < v.tasks.len() && j != k ==> #[trigger] v.edited(id, description).tasks[j]
                == v.tasks[j]
    } by {
        lemma_unique_is_first(v, id, k);
    }
}

/// Completing a task twice leaves the same state as completing it once.
pub proof fn law_mark_completed_idempotent(v: RepositoryView, id: usize)
    ensures
        v.marked(id).marked(id) == v.marked(id),
{
    let m = v.marked(id);
    if v.has_id(id) {
        let w = choose|w: int| 0 <= w < v.tasks.len() && #[trigger] v.tasks[w].id == id;
        lemma_first_index_exists(v.ids(), id, w);
        let k = v.first_with(id);
        assert(m.ids() =~= v.ids());
        assert(m.tasks[k].id == id);
        assert(m.has_id(id));
        assert(m.marked(id).tasks =~= m.tasks);
    }
}

/// Editing, deleting or completing an id that no task carries changes
/// nothing.
pub proof fn law_unknown_id_changes_nothing(v: RepositoryView, id: usize, description: Seq<char>)
    requires
        !v.has_id(id),
    ensures
        v.edited(id, description) == v,
        v.deleted(id) == v,
        v.marked(id) == v,
{
    assert forall|i: int| 0 <= i < v.tasks.len() implies #[trigger] v.tasks[i].id != id by {}
    lemma_filter_without_match(v.tasks, id);
}

/// Restoring the snapshot of a repository gives that repository back.
pub proof fn law_restore_snapshot(v: RepositoryView)
    ensures
        restored(Some(v.snapshot())) == v,
{
    let back = RepositoryView::from_snapshot(v.snapshot());
    assert(back.tasks =~= v.tasks) by {
        assert forall|i: int| 0 <= i < v.tasks.len() implies back.tasks[i] == v.tasks[i] by {
            assert(task_of_plain(plain_task(v.tasks[i])) == v.tasks[i]);
        }
    }
    assert(back == v);
}

} // verus!
