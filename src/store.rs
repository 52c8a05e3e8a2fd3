use vstd::prelude::*;

use crate::due::DueTime;
use crate::error::StoreError;
use crate::task::{blank, is_blank, Task, TaskView};

verus! {

/// The mathematical value of a store: its tasks in order of insertion, and the
/// id that the next created task receives.
pub struct StoreView {
    pub tasks: Seq<TaskView>,
    pub next_id: int,
}

/// Well-formed parts of a store: ids lie in `0..next_id`, strictly increase
/// along the sequence (so no two are equal), and no description is blank.
pub open spec fn parts_wf(tasks: Seq<TaskView>, next_id: int) -> bool {
    &&& 0 <= next_id <= i32::MAX
    &&& forall|i: int| 0 <= i < tasks.len() ==> 0 <= #[trigger] tasks[i].id < next_id
    &&& forall|i: int, j: int|
        0 <= i < j < tasks.len() ==> #[trigger] tasks[i].id < #[trigger] tasks[j].id
    &&& forall|i: int| 0 <= i < tasks.len() ==> !blank(#[trigger] tasks[i].description)
}

/// The tasks of `tasks` that a listing keeps: all of them, or only those not
/// yet completed.
pub open spec fn listed(tasks: Seq<TaskView>, incomplete_only: bool) -> Seq<TaskView>
    decreases tasks.len(),
{
    if tasks.len() == 0 {
        Seq::empty()
    } else {
        let rest = listed(tasks.drop_last(), incomplete_only);
        if incomplete_only && tasks.last().completed {
            rest
        } else {
            rest.push(tasks.last())
        }
    }
}

impl StoreView {
    pub open spec fn wf(self) -> bool {
        parts_wf(self.tasks, self.next_id)
    }

    /// Some task carries `id`.
    pub open spec fn contains_id(self, id: int) -> bool {
        exists|i: int| 0 <= i < self.tasks.len() && #[trigger] self.tasks[i].id == id
    }

    /// The position of the task that carries `id`.
    pub open spec fn index_of(self, id: int) -> int {
        choose|i: int| 0 <= i < self.tasks.len() && #[trigger] self.tasks[i].id == id
    }

    /// The store after a task is created with `description` and `due`.
    pub open spec fn created(self, description: Seq<char>, due: DueTime) -> StoreView {
        StoreView {
            tasks: self.tasks.push(
                TaskView {
                    id: self.next_id,
                    description,
                    due_datetime: due,
                    completed: false,
                },
            ),
            next_id: self.next_id + 1,
        }
    }

    /// The store after the task with `id` takes each field that is given.
    pub open spec fn updated(
        self,
        id: int,
        description: Option<Seq<char>>,
        due: Option<DueTime>,
    ) -> StoreView {
        let i = self.index_of(id);
        let t = self.tasks[i];
        StoreView {
            tasks: self.tasks.update(
                i,
                TaskView {
                    id: t.id,
                    description: match description {
                        Some(d) => d,
                        None => t.description,
                    },
                    due_datetime: match due {
                        Some(d) => d,
                        None => t.due_datetime,
                    },
                    completed: t.completed,
                },
            ),
            next_id: self.next_id,
        }
    }

    /// The store after the task with `id` is marked as completed.
    pub open spec fn completed(self, id: int) -> StoreView {
        let i = self.index_of(id);
        let t = self.tasks[i];
        StoreView {
            tasks: self.tasks.update(
                i,
                TaskView {
                    id: t.id,
                    description: t.description,
                    due_datetime: t.due_datetime,
                    completed: true,
                },
            ),
            next_id: self.next_id,
        }
    }

    /// The store after the task with `id` is removed.
    pub open spec fn deleted(self, id: int) -> StoreView {
        StoreView { tasks: self.tasks.remove(self.index_of(id)), next_id: self.next_id }
    }
}

/// Ids that strictly increase are unique: the task at `i` is the one that
/// carries its id.
pub proof fn lemma_index_of(s: StoreView, i: int)
    requires
        s.wf(),
        0 <= i < s.tasks.len(),
    ensures
        s.contains_id(s.tasks[i].id),
        s.index_of(s.tasks[i].id) == i,
{
    let id = s.tasks[i].id;
    assert(s.tasks[i].id == id);
    let j = s.index_of(id);
    if j < i {
        assert(s.tasks[j].id < s.tasks[i].id);
    } else if i < j {
        assert(s.tasks[i].id < s.tasks[j].id);
    }
}

/// The view of an optional text.
pub open spec fn opt_view(o: Option<String>) -> Option<Seq<char>> {
    match o {
        Some(s) => Some(s@),
        None => None,
    }
}

/// An optional text that is given and blank.
pub open spec fn blank_given(o: Option<String>) -> bool {
    match o {
        Some(s) => blank(s@),
        None => false,
    }
}

/// Removing a task keeps a store well formed, and its id is gone afterwards.
pub proof fn lemma_deleted_wf(s: StoreView, id: int)
    requires
        s.wf(),
        s.contains_id(id),
    ensures
        s.deleted(id).wf(),
        !s.deleted(id).contains_id(id),
{
    let i = s.index_of(id);
    let d = s.deleted(id);
    assert forall|a: int, b: int| 0 <= a < b < d.tasks.len() implies #[trigger] d.tasks[a].id
        < #[trigger] d.tasks[b].id by {
        let a0 = if a < i { a } else { a + 1 };
        let b0 = if b < i { b } else { b + 1 };
        assert(d.tasks[a] == s.tasks[a0]);
        assert(d.tasks[b] == s.tasks[b0]);
    }
    assert forall|k: int| 0 <= k < d.tasks.len() implies #[trigger] d.tasks[k].id != id by {
        let k0 = if k < i { k } else { k + 1 };
        assert(d.tasks[k] == s.tasks[k0]);
        assert(s.tasks[k0].id != s.tasks[i].id) by {
            if k0 < i {
                assert(s.tasks[k0].id < s.tasks[i].id);
            } else {
                assert(s.tasks[i].id < s.tasks[k0].id);
            }
        }
    }
    assert forall|k: int| 0 <= k < d.tasks.len() implies 0 <= #[trigger] d.tasks[k].id
        < d.next_id && !blank(d.tasks[k].description) by {
        let k0 = if k < i { k } else { k + 1 };
        assert(d.tasks[k] == s.tasks[k0]);
    }
}

/// The task store: tasks in order of insertion and the id allocator.
pub struct TodoApp {
    tasks: Vec<Task>,
    next_id: i32,
}

impl View for TodoApp {
    type V = StoreView;

    closed spec fn view(&self) -> StoreView {
        StoreView { tasks: self.tasks@.map_values(|t: Task| t@), next_id: self.next_id as int }
    }
}

impl TodoApp {
    pub open spec fn wf(&self) -> bool {
        self@.wf()
    }

    /// An empty store whose first task will get id 0.
    pub fn new() -> (r: TodoApp)
        ensures
            r.wf(),
            r@.tasks == Seq::<TaskView>::empty(),
            r@.next_id == 0,
    {
        let r = TodoApp { tasks: Vec::new(), next_id: 0 };
        assert(r@.tasks =~= Seq::<TaskView>::empty());
        r
    }

    /// The position of the task that carries `id`, if any.
    fn position(&self, id: i32) -> (r: Option<usize>)
        requires
            self.wf(),
        ensures
            r is Some <==> self@.contains_id(id as int),
            r matches Some(i) ==> i == self@.index_of(id as int) && i < self@.tasks.len(),
    {
        let mut i: usize = 0;
        while i < self.tasks.len()
            invariant
                self.wf(),
                i <= self.tasks.len(),
                forall|j: int| 0 <= j < i ==> #[trigger] self@.tasks[j].id != id,
            decreases self.tasks.len() - i,
        {
            if self.tasks[i].id == id {
                proof {
                    lemma_index_of(self@, i as int);
                }
                return Some(i);
            }
            i = i + 1;
        }
        None
    }

    /// Adds a task with `description` and `due`, not completed, under the next
    /// id, and returns that id. A blank description is refused and leaves the
    /// store as it was.
    pub fn create(&mut self, description: String, due: DueTime) -> (r: Result<i32, StoreError>)
        requires
            old(self).wf(),
            old(self)@.next_id < i32::MAX,
        ensures
            final(self).wf(),
            blank(description@) <==> r is Err,
            r is Err ==> r == Err::<i32, StoreError>(StoreError::Validation) && final(self)@ == old(
                self,
            )@,
            r matches Ok(id) ==> {
                &&& id == old(self)@.next_id
                &&& final(self)@ == old(self)@.created(description@, due)
                &&& forall|i: int|
                    0 <= i < old(self)@.tasks.len() ==> #[trigger] old(self)@.tasks[i].id < id
            },
    {
        if is_blank(description.as_str()) {
            return Err(StoreError::Validation);
        }
        let id = self.next_id;
        let task = Task { id, description, due_datetime: due, completed: false };
        self.tasks.push(task);
        self.next_id = id + 1;
        assert(self@.tasks =~= old(self)@.created(description@, due).tasks);
        Ok(id)
    }

    /// Gives the task with `id` each field that is provided and leaves the others
    /// as they were. An unknown id, or a provided description that is blank,
    /// leaves the store as it was.
    pub fn update(
        &mut self,
        id: i32,
        new_description: Option<String>,
        new_due: Option<DueTime>,
    ) -> (r: Result<(), StoreError>)
        requires
            old(self).wf(),
        ensures
            final(self).wf(),
            r is Ok <==> old(self)@.contains_id(id as int) && !blank_given(new_description),
            !old(self)@.contains_id(id as int) ==> r == Err::<(), StoreError>(StoreError::NotFound),
            old(self)@.contains_id(id as int) && blank_given(new_description) ==> r == Err::<(), StoreError>(StoreError::Validation),
            r is Err ==> final(self)@ == old(self)@,
            r is Ok ==> final(self)@ == old(self)@.updated(
                id as int,
                opt_view(new_description),
                new_due,
            ),
    {
        let i = match self.position(id) {
            Some(i) => i,
            None => return Err(StoreError::NotFound),
        };
        if let Some(d) = &new_description {
            if is_blank(d.as_str()) {
                return Err(StoreError::Validation);
            }
        }
        let ghost s0 = self@;
        let task = &mut self.tasks[i];
        if let Some(d) = new_description {
            task.description = d;
        }
        if let Some(d) = new_due {
            task.due_datetime = d;
        }
        proof {
            assert(self@.tasks =~= s0.updated(id as int, opt_view(new_description), new_due).tasks);
            lemma_index_of(s0, i as int);
        }
        Ok(())
    }

    /// Marks the task with `id` as completed, whether or not it already was.
    pub fn complete(&mut self, id: i32) -> (r: Result<(), StoreError>)
        requires
            old(self).wf(),
        ensures
            final(self).wf(),
            r is Ok <==> old(self)@.contains_id(id as int),
            r is Err ==> r == Err::<(), StoreError>(StoreError::NotFound) && final(self)@ == old(
                self,
            )@,
            r is Ok ==> final(self)@ == old(self)@.completed(id as int),
    {
        let i = match self.position(id) {
            Some(i) => i,
            None => return Err(StoreError::NotFound),
        };
        let ghost s0 = self@;
        self.tasks[i].completed = true;
        proof {
            assert(self@.tasks =~= s0.completed(id as int).tasks);
        }
        Ok(())
    }

    /// Removes the task with `id`, keeping the order of the others.
    pub fn delete(&mut self, id: i32) -> (r: Result<(), StoreError>)
        requires
            old(self).wf(),
        ensures
            final(self).wf(),
            r is Ok <==> old(self)@.contains_id(id as int),
            r is Err ==> r == Err::<(), StoreError>(StoreError::NotFound) && final(self)@ == old(
                self,
            )@,
            r is Ok ==> final(self)@ == old(self)@.deleted(id as int),
            !final(self)@.contains_id(id as int),
    {
        let i = match self.position(id) {
            Some(i) => i,
            None => return Err(StoreError::NotFound),
        };
        let ghost s0 = self@;
        self.tasks.remove(i);
        proof {
            assert(self@.tasks =~= s0.deleted(id as int).tasks);
            lemma_deleted_wf(s0, id as int);
        }
        Ok(())
    }

    /// The tasks in order of insertion: all of them, or only those not yet
    /// completed.
    pub fn list(&self, incomplete_only: bool) -> (r: Vec<Task>)
        ensures
            r@.map_values(|t: Task| t@) == listed(self@.tasks, incomplete_only),
    {
        let mut r: Vec<Task> = Vec::new();
        let mut i: usize = 0;
        while i < self.tasks.len()
            invariant
                i <= self.tasks.len(),
                r@.map_values(|t: Task| t@) == listed(self@.tasks.take(i as int), incomplete_only),
            decreases self.tasks.len() - i,
        {
            let ghost before = r@.map_values(|t: Task| t@);
            let ghost taken = self@.tasks.take(i as int + 1);
            proof {
                assert(taken.drop_last() =~= self@.tasks.take(i as int));
                assert(taken.last() == self.tasks@[i as int]@);
            }
            if !(incomplete_only && self.tasks[i].completed) {
                r.push(self.tasks[i].clone());
                assert(r@.map_values(|t: Task| t@) =~= before.push(self.tasks@[i as int]@));
            }
            i = i + 1;
        }
        assert(self@.tasks.take(self.tasks.len() as int) =~= self@.tasks);
        r
    }

    /// Rebuilds a store from saved tasks and the saved next id. Parts that break
    /// the store's rules are refused.
    pub fn restore(tasks: Vec<Task>, next_id: i32) -> (r: Result<TodoApp, StoreError>)
        ensures
            r is Ok <==> parts_wf(tasks@.map_values(|t: Task| t@), next_id as int),
            r is Err ==> r == Err::<TodoApp, StoreError>(StoreError::Schema),
            r matches Ok(s) ==> s.wf() && s@ == (StoreView {
                tasks: tasks@.map_values(|t: Task| t@),
                next_id: next_id as int,
            }),
    {
        let ghost v = tasks@.map_values(|t: Task| t@);
        if next_id < 0 {
            return Err(StoreError::Schema);
        }
        let mut i: usize = 0;
        while i < tasks.len()
            invariant
                v == tasks@.map_values(|t: Task| t@),
                0 <= next_id,
                i <= tasks.len(),
                parts_wf(v.take(i as int), next_id as int),
            decreases tasks.len() - i,
        {
            let t = &tasks[i];
            if t.id < 0 || t.id >= next_id || is_blank(t.description.as_str()) || (i > 0
                && tasks[i - 1].id >= t.id) {
                proof {
                    assert(v[i as int] == tasks@[i as int]@);
                    if i > 0 {
                        assert(v[i - 1] == tasks@[i - 1]@);
                    }
                    if parts_wf(v, next_id as int) {
                        assert(0 <= v[i as int].id < next_id);
                        assert(!blank(v[i as int].description));
                        if i > 0 {
                            assert(v[i - 1].id < v[i as int].id);
                        }
                    }
                }
                return Err(StoreError::Schema);
            }
            proof {
                let p = v.take(i as int + 1);
                assert(p[i as int] == tasks@[i as int]@);
                assert forall|a: int| 0 <= a < i implies p[a] == v.take(i as int)[a] by {}
                if i > 0 {
                    assert(v.take(i as int)[i - 1] == tasks@[i - 1]@);
                }
                assert forall|a: int, b: int| 0 <= a < b < p.len() implies #[trigger] p[a].id
                    < #[trigger] p[b].id by {
                    if b == i && a < i - 1 {
                        assert(v.take(i as int)[a].id < v.take(i as int)[i - 1].id);
                    }
                }
            }
            i = i + 1;
        }
        assert(v.take(tasks.len() as int) =~= v);
        let s = TodoApp { tasks, next_id };
        Ok(s)
    }

    /// The tasks, in order of insertion.
    pub fn tasks(&self) -> (r: &Vec<Task>)
        ensures
            r@.map_values(|t: Task| t@) == self@.tasks,
    {
        &self.tasks
    }

    /// The id that the next created task receives.
    pub fn next_id(&self) -> (r: i32)
        ensures
            r == self@.next_id,
    {
        self.next_id
    }

    /// The task that carries `id`.
    pub fn find(&self, id: i32) -> (r: Result<&Task, StoreError>)
        requires
            self.wf(),
        ensures
            self@.contains_id(id as int) <==> r is Ok,
            r is Err ==> r == Err::<&Task, StoreError>(StoreError::NotFound),
            r matches Ok(t) ==> t@ == self@.tasks[self@.index_of(id as int)],
    {
        match self.position(id) {
            Some(i) => Ok(&self.tasks[i]),
            None => Err(StoreError::NotFound),
        }
    }
}

} // verus!
