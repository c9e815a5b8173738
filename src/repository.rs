use vstd::prelude::*;

use crate::laws::law_operations_keep_invariant;
use crate::task::{tasks_view, Task, TaskView};

verus! {

/// The abstract value of a repository: its tasks in insertion order and the
/// id that the next task will get.
pub struct RepositoryView {
    pub tasks: Seq<TaskView>,
    pub next_id: usize,
}

impl RepositoryView {
    /// Every id is below the counter, and no two tasks share an id. This
    /// holds of every state reached from the empty repository by the four
    /// operations.
    pub open spec fn wf(self) -> bool {
        &&& forall|i: int| 0 <= i < self.tasks.len() ==> #[trigger] self.tasks[i].id < self.next_id
        &&& forall|i: int, j: int|
            0 <= i < self.tasks.len() && 0 <= j < self.tasks.len() && i != j
                ==> #[trigger] self.tasks[i].id != #[trigger] self.tasks[j].id
    }

    /// Whether some task carries `id`.
    pub open spec fn has_id(self, id: usize) -> bool {
        exists|i: int| 0 <= i < self.tasks.len() && #[trigger] self.tasks[i].id == id
    }

    /// The ids of the tasks, in order.
    pub open spec fn ids(self) -> Seq<usize> {
        self.tasks.map_values(|t: TaskView| t.id)
    }

    /// The index of the first task that carries `id`, where some task does.
    pub open spec fn first_with(self, id: usize) -> int {
        first_index(self.ids(), id)
    }

    /// The first task that carries `id`, where some task does.
    pub open spec fn task_with(self, id: usize) -> TaskView {
        self.tasks[self.first_with(id)]
    }

    /// The repository with no tasks and the counter at zero.
    pub open spec fn empty() -> RepositoryView {
        RepositoryView { tasks: Seq::empty(), next_id: 0 }
    }

    /// A new task with the current counter as id appended, the counter one up.
    pub open spec fn added(self, description: Seq<char>) -> RepositoryView {
        RepositoryView {
            tasks: self.tasks.push(TaskView { id: self.next_id, description, completed: false }),
            next_id: (self.next_id + 1) as usize,
        }
    }

    /// The first task carrying `id` gets `description`; nothing else changes.
    pub open spec fn edited(self, id: usize, description: Seq<char>) -> RepositoryView {
        if self.has_id(id) {
            let k = self.first_with(id);
            RepositoryView {
                tasks: self.tasks.update(
                    k,
                    TaskView { id: self.tasks[k].id, description, completed: self.tasks[k].completed },
                ),
                next_id: self.next_id,
            }
        } else {
            self
        }
    }

    /// The first task carrying `id` is completed; nothing else changes.
    pub open spec fn marked(self, id: usize) -> RepositoryView {
        if self.has_id(id) {
            let k = self.first_with(id);
            RepositoryView {
                tasks: self.tasks.update(
                    k,
                    TaskView {
                        id: self.tasks[k].id,
                        description: self.tasks[k].description,
                        completed: true,
                    },
                ),
                next_id: self.next_id,
            }
        } else {
            self
        }
    }

    /// Every task carrying `id` removed, the others kept in their order.
    pub open spec fn deleted(self, id: usize) -> RepositoryView {
        RepositoryView { tasks: self.tasks.filter(id_differs(id)), next_id: self.next_id }
    }
}

/// Whether `k` is the first index at which `ids` holds `id`.
pub open spec fn is_first(ids: Seq<usize>, id: usize, k: int) -> bool {
    &&& 0 <= k < ids.len()
    &&& ids[k] == id
    &&& forall|j: int| 0 <= j < k ==> #[trigger] ids[j] != id
}

/// The first index at which `ids` holds `id`, where it does.
pub open spec fn first_index(ids: Seq<usize>, id: usize) -> int {
    choose|k: int| is_first(ids, id, k)
}

/// Where `ids` holds `id`, there is a first index that does.
pub proof fn lemma_first_index_exists(ids: Seq<usize>, id: usize, k: int)
    requires
        0 <= k < ids.len(),
        ids[k] == id,
    ensures
        is_first(ids, id, first_index(ids, id)),
    decreases k,
{
    if exists|j: int| 0 <= j < k && #[trigger] ids[j] == id {
        let j = choose|j: int| 0 <= j < k && #[trigger] ids[j] == id;
        lemma_first_index_exists(ids, id, j);
    } else {
        assert(is_first(ids, id, k));
    }
}

/// The first index is the only one with that property.
pub proof fn lemma_first_index_is(ids: Seq<usize>, id: usize, k: int)
    requires
        is_first(ids, id, k),
    ensures
        first_index(ids, id) == k,
{
    let c = first_index(ids, id);
    assert(is_first(ids, id, c));
    if c < k {
        assert(ids[c] != id);
    } else if k < c {
        assert(ids[k] != id);
    }
}

/// A task as plain values: id, description, completion flag.
pub open spec fn plain_task(t: TaskView) -> (usize, Seq<char>, bool) {
    (t.id, t.description, t.completed)
}

/// The task that plain values describe.
pub open spec fn task_of_plain(p: (usize, Seq<char>, bool)) -> TaskView {
    TaskView { id: p.0, description: p.1, completed: p.2 }
}

impl RepositoryView {
    /// The repository as plain values: its tasks and its counter.
    pub open spec fn snapshot(self) -> (Seq<(usize, Seq<char>, bool)>, usize) {
        (self.tasks.map_values(|t: TaskView| plain_task(t)), self.next_id)
    }

    /// The repository that plain values describe.
    pub open spec fn from_snapshot(s: (Seq<(usize, Seq<char>, bool)>, usize)) -> RepositoryView {
        RepositoryView { tasks: s.0.map_values(|p: (usize, Seq<char>, bool)| task_of_plain(p)), next_id: s.1 }
    }
}

/// What loading yields: the repository that a snapshot describes, as it
/// stands, or the empty repository where there is no snapshot.
pub open spec fn restored(s: Option<(Seq<(usize, Seq<char>, bool)>, usize)>) -> RepositoryView {
    match s {
        Some(p) => RepositoryView::from_snapshot(p),
        None => RepositoryView::empty(),
    }
}

/// The abstract value of a snapshot held in executable values.
pub open spec fn snapshot_view(s: (Vec<(usize, String, bool)>, usize)) -> (Seq<(usize, Seq<char>, bool)>, usize) {
    (s.0@.map_values(|p: (usize, String, bool)| (p.0, p.1@, p.2)), s.1)
}

/// Whether a task does not carry `id`.
pub open spec fn id_differs(id: usize) -> spec_fn(TaskView) -> bool {
    |t: TaskView| t.id != id
}

/// Filtering out an id that no task carries keeps the sequence as it is.
pub proof fn lemma_filter_without_match(s: Seq<TaskView>, id: usize)
    requires
        forall|i: int| 0 <= i < s.len() ==> #[trigger] s[i].id != id,
    ensures
        s.filter(id_differs(id)) == s,
    decreases s.len(),
{
    reveal(Seq::filter);
    if s.len() > 0 {
        let init = s.drop_last();
        assert forall|i: int| 0 <= i < init.len() implies #[trigger] init[i].id != id by {
            assert(init[i] == s[i]);
        }
        lemma_filter_without_match(init, id);
        assert(s == init.push(s.last()));
    } else {
        assert(s.filter(id_differs(id)) =~= s);
    }
}

/// Filtering out an id gives the same with or without one task that carries
/// it.
pub proof fn lemma_filter_skips_match(s: Seq<TaskView>, k: int, id: usize)
    requires
        0 <= k < s.len(),
        s[k].id == id,
    ensures
        s.filter(id_differs(id)) == s.remove(k).filter(id_differs(id)),
{
    let pre = s.subrange(0, k);
    let mid = seq![s[k]];
    let post = s.subrange(k + 1, s.len() as int);
    assert(s =~= pre + mid + post);
    assert(s.remove(k) =~= pre + post);
    Seq::filter_distributes_over_add(pre + mid, post, id_differs(id));
    Seq::filter_distributes_over_add(pre, mid, id_differs(id));
    Seq::filter_distributes_over_add(pre, post, id_differs(id));
    reveal_with_fuel(Seq::filter, 2);
    assert(mid.drop_last() =~= Seq::<TaskView>::empty());
    assert(mid.filter(id_differs(id)) =~= Seq::<TaskView>::empty());
    assert(pre.filter(id_differs(id)) + Seq::<TaskView>::empty() =~= pre.filter(id_differs(id)));
}

/// The index of the first task that carries `id`, if any.
fn position_of(tasks: &Vec<Task>, id: usize) -> (r: Option<usize>)
    ensures
        match r {
            Some(k) => k < tasks@.len() && tasks@[k as int].id == id
                && forall|j: int| 0 <= j < k ==> #[trigger] tasks@[j].id != id,
            None => forall|i: int| 0 <= i < tasks@.len() ==> #[trigger] tasks@[i].id != id,
        },
{
    let mut i: usize = 0;
    while i < tasks.len()
        invariant
            i <= tasks@.len(),
            forall|j: int| 0 <= j < i ==> #[trigger] tasks@[j].id != id,
        decreases tasks@.len() - i,
    {
        if tasks[i].id == id {
            return Some(i);
        }
        i = i + 1;
    }
    None
}

/// The owner of all tasks and of the id counter.
pub struct TaskRepository {
    tasks: Vec<Task>,
    next_id: usize,
}

impl View for TaskRepository {
    type V = RepositoryView;

    closed spec fn view(&self) -> RepositoryView {
        RepositoryView { tasks: tasks_view(self.tasks@), next_id: self.next_id }
    }
}

impl TaskRepository {
    /// An empty repository.
    pub fn new() -> (r: TaskRepository)
        ensures
            r@ == RepositoryView::empty(),
            r@.wf(),
    {
        let r = TaskRepository { tasks: Vec::new(), next_id: 0 };
        assert(r@.tasks =~= Seq::<TaskView>::empty());
        r
    }

    /// Proves that `first_with` on the current state is the index that
    /// `position_of` found.
    proof fn lemma_found(&self, id: usize, k: usize)
        requires
            k < self.tasks@.len(),
            self.tasks@[k as int].id == id,
            forall|j: int| 0 <= j < k ==> #[trigger] self.tasks@[j].id != id,
        ensures
            self@.has_id(id),
            self@.first_with(id) == k,
            self@.tasks[k as int] == self.tasks@[k as int]@,
    {
        let v = self@;
        assert(v.tasks[k as int].id == id);
        assert forall|j: int| 0 <= j < k implies #[trigger] v.ids()[j] != id by {
            assert(v.tasks[j] == self.tasks@[j]@);
        }
        lemma_first_index_is(v.ids(), id, k as int);
    }

    /// Proves that no task of the current state carries `id`.
    proof fn lemma_not_found(&self, id: usize)
        requires
            forall|i: int| 0 <= i < self.tasks@.len() ==> #[trigger] self.tasks@[i].id != id,
        ensures
            !self@.has_id(id),
            forall|i: int| 0 <= i < self@.tasks.len() ==> #[trigger] self@.tasks[i].id != id,
    {
        assert forall|i: int| 0 <= i < self@.tasks.len() implies #[trigger] self@.tasks[i].id != id by {
            assert(self@.tasks[i] == self.tasks@[i]@);
        }
    }

    /// Appends a task with the next id and the given description.
    pub fn add_task(&mut self, description: String)
        requires
            old(self)@.next_id < usize::MAX,
        ensures
            final(self)@ == old(self)@.added(description@),
            old(self)@.wf() ==> final(self)@.wf(),
    {
        let ghost before = self@;
        let id = self.next_id;
        self.tasks.push(Task::new(id, description));
        self.next_id = id + 1;
        assert(self@.tasks =~= before.added(description@).tasks);
        proof {
            if before.wf() {
                law_operations_keep_invariant(before, id, description@);
            }
        }
    }

    /// The tasks, in insertion order.
    pub fn tasks(&self) -> (r: &Vec<Task>)
        ensures
            tasks_view(r@) == self@.tasks,
    {
        &self.tasks
    }

    /// The id that the next task will get.
    pub fn next_id(&self) -> (r: usize)
        ensures
            r == self@.next_id,
    {
        self.next_id
    }

    /// The first task that carries `id`, if any.
    pub fn task(&self, id: usize) -> (r: Option<&Task>)
        ensures
            r is None <==> !self@.has_id(id),
            r matches Some(t) ==> t@ == self@.task_with(id),
    {
        match position_of(&self.tasks, id) {
            Some(k) => {
                proof { self.lemma_found(id, k); }
                Some(&self.tasks[k])
            },
            None => {
                proof { self.lemma_not_found(id); }
                None
            },
        }
    }

    /// The repository as plain values, as it is written to storage.
    pub fn snapshot(&self) -> (r: (Vec<(usize, String, bool)>, usize))
        ensures
            snapshot_view(r) == self@.snapshot(),
    {
        let mut items: Vec<(usize, String, bool)> = Vec::new();
        let n = self.tasks.len();
        let mut i: usize = 0;
        while i < n
            invariant
                n == self.tasks@.len(),
                i <= n,
                items@.len() == i,
                forall|a: int| 0 <= a < i ==> (#[trigger] items@[a].0, items@[a].1@, items@[a].2) == plain_task(self.tasks@[a]@),
            decreases n - i,
        {
            let t = &self.tasks[i];
            items.push((t.id, t.description.clone(), t.completed));
            i = i + 1;
        }
        let r = (items, self.next_id);
        assert(snapshot_view(r).0 =~= self@.snapshot().0);
        r
    }

    /// The repository that a loaded snapshot describes, as it stands, or the
    /// empty one when nothing was loaded.
    pub fn restore(loaded: Option<(Vec<(usize, String, bool)>, usize)>) -> (r: TaskRepository)
        ensures
            r@ == restored(match loaded { Some(s) => Some(snapshot_view(s)), None => None }),
    {
        match loaded {
            None => TaskRepository::new(),
            Some(s) => {
                let ghost sv = snapshot_view(s);
                let (items, next_id) = s;
                let ghost target = RepositoryView::from_snapshot(sv);
                let mut tasks: Vec<Task> = Vec::new();
                let n = items.len();
                let mut i: usize = 0;
                while i < n
                    invariant
                        n == items@.len(),
                        i <= n,
                        sv == snapshot_view((items, next_id)),
                        target == RepositoryView::from_snapshot(sv),
                        tasks@.len() == i,
                        forall|a: int| 0 <= a < i ==> #[trigger] tasks@[a]@ == target.tasks[a],
                    decreases n - i,
                {
                    let p = &items[i];
                    tasks.push(Task { id: p.0, description: p.1.clone(), completed: p.2 });
                    i = i + 1;
                }
                assert(tasks_view(tasks@) =~= target.tasks);
                TaskRepository { tasks, next_id }
            },
        }
    }

    /// Replaces the description of the first task that carries `id`; without
    /// such a task nothing changes.
    pub fn edit_task(&mut self, id: usize, description: String)
        ensures
            final(self)@ == old(self)@.edited(id, description@),
            old(self)@.wf() ==> final(self)@.wf(),
    {
        let ghost before = self@;
        match position_of(&self.tasks, id) {
            Some(k) => {
                proof { self.lemma_found(id, k); }
                self.tasks[k].description = description;
            },
            None => {
                proof { self.lemma_not_found(id); }
            },
        }
        assert(self@.tasks =~= before.edited(id, description@).tasks);
        proof {
            if before.wf() {
                law_operations_keep_invariant(before, id, description@);
            }
        }
    }

    /// Completes the first task that carries `id`; without such a task
    /// nothing changes.
    pub fn mark_completed(&mut self, id: usize)
        ensures
            final(self)@ == old(self)@.marked(id),
            old(self)@.wf() ==> final(self)@.wf(),
    {
        let ghost before = self@;
        match position_of(&self.tasks, id) {
            Some(k) => {
                proof { self.lemma_found(id, k); }
                self.tasks[k].completed = true;
            },
            None => {
                proof { self.lemma_not_found(id); }
            },
        }
        assert(self@.tasks =~= before.marked(id).tasks);
        proof {
            if before.wf() {
                law_operations_keep_invariant(before, id, Seq::empty());
            }
        }
    }

    /// Removes every task that carries `id`, keeping the others in order.
    pub fn delete_task(&mut self, id: usize)
        ensures
            final(self)@ == old(self)@.deleted(id),
            old(self)@.wf() ==> final(self)@.wf(),
    {
        let ghost before = self@;
        let mut found = position_of(&self.tasks, id);
        while found.is_some()
            invariant
                self.next_id == before.next_id,
                self@.tasks.filter(id_differs(id)) == before.tasks.filter(id_differs(id)),
                match found {
                    Some(k) => k < self.tasks@.len() && self.tasks@[k as int].id == id,
                    None => forall|i: int| 0 <= i < self.tasks@.len() ==> #[trigger] self.tasks@[i].id != id,
                },
            decreases self.tasks@.len(),
        {
            if let Some(k) = found {
                let ghost prev = self@.tasks;
                proof {
                    assert(prev[k as int] == self.tasks@[k as int]@);
                    lemma_filter_skips_match(prev, k as int, id);
                }
                self.tasks.remove(k);
                assert(self@.tasks =~= prev.remove(k as int));
            }
            found = position_of(&self.tasks, id);
        }
        proof {
            self.lemma_not_found(id);
            lemma_filter_without_match(self@.tasks, id);
            if before.wf() {
                law_operations_keep_invariant(before, id, Seq::empty());
            }
        }
    }
}

} // verus!
