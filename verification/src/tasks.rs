//! The task checklist: an ordered list of tasks with two derived counts that
//! always agree with the list.

use vstd::prelude::*;

verus! {

/// One entry of the checklist.
#[derive(Debug, PartialEq, Eq)]
pub struct Task {
    /// Identity of the task, supplied by the caller and never changed.
    pub id: String,
    /// Display label.
    pub text: String,
    /// Whether the task is done.
    pub completed: bool,
}

/// A task as contracts see it: its strings as sequences of characters.
pub struct TaskView {
    pub id: Seq<char>,
    pub text: Seq<char>,
    pub completed: bool,
}

impl TaskView {
    /// The same task with its completion flag flipped.
    pub open spec fn flipped(self) -> TaskView {
        TaskView { completed: !self.completed, ..self }
    }
}

impl View for Task {
    type V = TaskView;

    open spec fn view(&self) -> TaskView {
        TaskView { id: self.id@, text: self.text@, completed: self.completed }
    }
}

impl Clone for Task {
    fn clone(&self) -> (copy: Task)
        ensures
            copy@ == self@,
    {
        Task { id: self.id.clone(), text: self.text.clone(), completed: self.completed }
    }
}

impl Task {
    /// A task that is not yet done.
    pub fn new(id: String, text: String) -> (task: Task)
        ensures
            task@ == (TaskView { id: id@, text: text@, completed: false }),
    {
        Task { id, text, completed: false }
    }
}

/// The views of a list of tasks, in order.
pub open spec fn views(tasks: Seq<Task>) -> Seq<TaskView> {
    tasks.map_values(|t: Task| t@)
}

/// The test for a task being done.
pub open spec fn is_done() -> spec_fn(TaskView) -> bool {
    |t: TaskView| t.completed
}

/// The test for a task having another id than the given one.
pub open spec fn has_other_id(id: Seq<char>) -> spec_fn(TaskView) -> bool {
    |t: TaskView| t.id != id
}

/// How many tasks of the list are done.
pub open spec fn count_completed(tasks: Seq<TaskView>) -> nat {
    tasks.filter(is_done()).len()
}

/// Whether some task of the list has this id.
pub open spec fn has_id(tasks: Seq<TaskView>, id: Seq<char>) -> bool {
    exists|i: int| 0 <= i < tasks.len() && (#[trigger] tasks[i]).id == id
}

/// Whether `i` is the position of the first task with this id.
pub open spec fn is_first_match(tasks: Seq<TaskView>, id: Seq<char>, i: int) -> bool {
    &&& 0 <= i < tasks.len()
    &&& tasks[i].id == id
    &&& forall|j: int| 0 <= j < i ==> (#[trigger] tasks[j]).id != id
}

/// The list after toggling `id`: the first task with that id has its
/// completion flag flipped; a list without such a task is unchanged.
pub open spec fn toggled(tasks: Seq<TaskView>, id: Seq<char>) -> Seq<TaskView> {
    if has_id(tasks, id) {
        let i = choose|i: int| is_first_match(tasks, id, i);
        tasks.update(i, tasks[i].flipped())
    } else {
        tasks
    }
}

/// The list after removing `id`: every task with another id, in order.
pub open spec fn removed(tasks: Seq<TaskView>, id: Seq<char>) -> Seq<TaskView> {
    tasks.filter(has_other_id(id))
}

/// The two example tasks a fresh checklist holds.
pub open spec fn seed_tasks() -> Seq<TaskView> {
    seq![
        TaskView { id: "1"@, text: "Complete project setup"@, completed: false },
        TaskView { id: "2"@, text: "Test widget functionality"@, completed: false },
    ]
}

/// None of the example tasks is done.
pub proof fn lemma_seed_counts()
    ensures
        seed_tasks().len() == 2,
        count_completed(seed_tasks()) == 0,
{
    let done = is_done();
    let s = seed_tasks();
    reveal_with_fuel(Seq::filter, 3);
    assert(s.drop_last().drop_last() =~= Seq::<TaskView>::empty());
    assert(s.filter(done) =~= Seq::<TaskView>::empty());
}

/// At most one position is the first match of an id.
pub proof fn lemma_first_match_unique(tasks: Seq<TaskView>, id: Seq<char>, i: int, j: int)
    requires
        is_first_match(tasks, id, i),
        is_first_match(tasks, id, j),
    ensures
        i == j,
{
    if i < j {
        assert(tasks[i].id != id);
    } else if j < i {
        assert(tasks[j].id != id);
    }
}

/// Below any position that holds the id lies the first position that does.
pub proof fn lemma_first_match_below(tasks: Seq<TaskView>, id: Seq<char>, k: int) -> (i: int)
    requires
        0 <= k < tasks.len(),
        tasks[k].id == id,
    ensures
        is_first_match(tasks, id, i),
        i <= k,
    decreases k,
{
    if exists|j: int| 0 <= j < k && (#[trigger] tasks[j]).id == id {
        let j = choose|j: int| 0 <= j < k && (#[trigger] tasks[j]).id == id;
        lemma_first_match_below(tasks, id, j)
    } else {
        k
    }
}

/// Toggling flips the task at the first match, wherever that is known.
pub proof fn lemma_toggled_at(tasks: Seq<TaskView>, id: Seq<char>, i: int)
    requires
        is_first_match(tasks, id, i),
    ensures
        has_id(tasks, id),
        toggled(tasks, id) == tasks.update(i, tasks[i].flipped()),
{
    let c = choose|c: int| is_first_match(tasks, id, c);
    lemma_first_match_unique(tasks, id, i, c);
}

/// A list that has the id has a first task with it, and toggling flips that
/// task.
pub proof fn lemma_first_match_exists(tasks: Seq<TaskView>, id: Seq<char>) -> (i: int)
    requires
        has_id(tasks, id),
    ensures
        is_first_match(tasks, id, i),
        toggled(tasks, id) == tasks.update(i, tasks[i].flipped()),
{
    let k = choose|k: int| 0 <= k < tasks.len() && (#[trigger] tasks[k]).id == id;
    let i = lemma_first_match_below(tasks, id, k);
    lemma_toggled_at(tasks, id, i);
    i
}

/// The checklist with its derived counts. The counts are private and are
/// recomputed by every operation that changes the list, so they cannot drift
/// from it.
#[derive(Debug, PartialEq, Eq)]
pub struct TasksState {
    tasks: Vec<Task>,
    completed_tasks: usize,
    total_tasks: usize,
}

impl View for TasksState {
    type V = Seq<TaskView>;

    /// The tasks, in insertion order.
    closed spec fn view(&self) -> Seq<TaskView> {
        views(self.tasks@)
    }
}

/// Counts the tasks of a list that are done.
fn count_done(tasks: &Vec<Task>) -> (done: usize)
    ensures
        done == count_completed(views(tasks@)),
{
    let ghost all = views(tasks@);
    let mut done: usize = 0;
    let mut i: usize = 0;
    while i < tasks.len()
        invariant
            i <= tasks.len(),
            all == views(tasks@),
            done == count_completed(all.take(i as int)),
            done <= i,
        decreases tasks.len() - i,
    {
        proof {
            assert(all.take(i + 1) =~= all.take(i as int).push(all[i as int]));
            all.take(i as int).lemma_filter_push(all[i as int], is_done());
        }
        if tasks[i].completed {
            done = done + 1;
        }
        i = i + 1;
    }
    assert(all.take(i as int) =~= all);
    done
}

impl TasksState {
    #[verifier::type_invariant]
    spec fn counts_derived(&self) -> bool {
        &&& self.total_tasks == self.tasks@.len()
        &&& self.completed_tasks == count_completed(views(self.tasks@))
    }

    /// The stored count of completed tasks.
    pub closed spec fn spec_completed_tasks(&self) -> nat {
        self.completed_tasks as nat
    }

    /// The stored count of all tasks.
    pub closed spec fn spec_total_tasks(&self) -> nat {
        self.total_tasks as nat
    }

    /// A checklist of the given tasks, in the given order, with its counts.
    pub fn from_tasks(tasks: Vec<Task>) -> (state: TasksState)
        ensures
            state@ == views(tasks@),
            state.spec_total_tasks() == state@.len(),
            state.spec_completed_tasks() == count_completed(state@),
    {
        let completed_tasks = count_done(&tasks);
        let total_tasks = tasks.len();
        TasksState { tasks, completed_tasks, total_tasks }
    }

    /// The checklist a process starts with: two example tasks, none done.
    pub fn seeded() -> (state: TasksState)
        ensures
            state@ == seed_tasks(),
            state.spec_total_tasks() == 2,
            state.spec_completed_tasks() == 0,
    {
        let mut tasks: Vec<Task> = Vec::new();
        tasks.push(Task::new(String::from_str("1"), String::from_str("Complete project setup")));
        tasks.push(
            Task::new(String::from_str("2"), String::from_str("Test widget functionality")),
        );
        let state = TasksState::from_tasks(tasks);
        proof {
            assert(state@ =~= seed_tasks());
            lemma_seed_counts();
        }
        state
    }

    /// The tasks, in insertion order.
    pub fn tasks(&self) -> (tasks: &Vec<Task>)
        ensures
            views(tasks@) == self@,
    {
        &self.tasks
    }

    /// How many tasks are done.
    pub fn completed_tasks(&self) -> (done: usize)
        ensures
            done == self.spec_completed_tasks(),
            done == count_completed(self@),
    {
        proof {
            use_type_invariant(self);
        }
        self.completed_tasks
    }

    /// How many tasks there are.
    pub fn total_tasks(&self) -> (total: usize)
        ensures
            total == self.spec_total_tasks(),
            total == self@.len(),
    {
        proof {
            use_type_invariant(self);
        }
        self.total_tasks
    }

    /// Moves the tasks out, leaving an empty checklist behind.
    fn take_tasks(&mut self) -> (tasks: Vec<Task>)
        ensures
            tasks == old(self).tasks,
            final(self).tasks@.len() == 0,
    {
        let mut held = TasksState::from_tasks(Vec::new());
        core::mem::swap(self, &mut held);
        held.tasks
    }

    /// Flips the completion flag of the first task with this id and
    /// recomputes the completed count. Returns whether there was such a
    /// task; without one nothing changes.
    pub fn toggle(&mut self, id: &String) -> (found: bool)
        ensures
            found == has_id(old(self)@, id@),
            final(self)@ == toggled(old(self)@, id@),
            final(self).spec_total_tasks() == final(self)@.len(),
            final(self).spec_completed_tasks() == count_completed(final(self)@),
    {
        proof {
            use_type_invariant(&*self);
        }
        match first_with_id(&self.tasks, id) {
            None => false,
            Some(i) => {
                proof {
                    lemma_toggled_at(self@, id@, i as int);
                }
                let mut tasks = self.take_tasks();
                flip_at(&mut tasks, i);
                *self = TasksState::from_tasks(tasks);
                true
            },
        }
    }

    /// Deletes every task with this id, keeping the others in order, and
    /// recomputes both counts. Without such a task nothing changes.
    pub fn remove(&mut self, id: &String)
        ensures
            final(self)@ == removed(old(self)@, id@),
            final(self).spec_total_tasks() == final(self)@.len(),
            final(self).spec_completed_tasks() == count_completed(final(self)@),
    {
        let mut tasks = self.take_tasks();
        drop_with_id(&mut tasks, id);
        *self = TasksState::from_tasks(tasks);
    }
}

impl Clone for TasksState {
    /// A full copy of the checklist as it stands.
    fn clone(&self) -> (copy: TasksState)
        ensures
            copy@ == self@,
            copy.spec_total_tasks() == self.spec_total_tasks(),
            copy.spec_completed_tasks() == self.spec_completed_tasks(),
    {
        proof {
            use_type_invariant(self);
        }
        let mut tasks: Vec<Task> = Vec::new();
        let mut i: usize = 0;
        while i < self.tasks.len()
            invariant
                i <= self.tasks.len(),
                views(tasks@) == views(self.tasks@).take(i as int),
            decreases self.tasks.len() - i,
        {
            let ghost before = views(tasks@);
            let task = self.tasks[i].clone();
            tasks.push(task);
            assert(views(tasks@) =~= before.push(views(self.tasks@)[i as int]));
            assert(views(tasks@) =~= views(self.tasks@).take(i + 1));
            i = i + 1;
        }
        assert(views(self.tasks@).take(i as int) =~= views(self.tasks@));
        TasksState::from_tasks(tasks)
    }
}

/// Position of the first task with this id, if there is one.
fn first_with_id(tasks: &Vec<Task>, id: &String) -> (found: Option<usize>)
    ensures
        match found {
            Some(i) => is_first_match(views(tasks@), id@, i as int),
            None => !has_id(views(tasks@), id@),
        },
{
    let mut i: usize = 0;
    while i < tasks.len()
        invariant
            i <= tasks.len(),
            forall|j: int| 0 <= j < i ==> (#[trigger] views(tasks@)[j]).id != id@,
        decreases tasks.len() - i,
    {
        if tasks[i].id == *id {
            assert(views(tasks@)[i as int].id == id@);
            return Some(i);
        }
        i = i + 1;
    }
    None
}

/// Flips the completion flag of the task at position `i`.
fn flip_at(tasks: &mut Vec<Task>, i: usize)
    requires
        i < old(tasks)@.len(),
    ensures
        views(final(tasks)@) == views(old(tasks)@).update(
            i as int,
            views(old(tasks)@)[i as int].flipped(),
        ),
{
    let task = &mut tasks[i];
    task.completed = !task.completed;
    assert(views(tasks@) =~= views(old(tasks)@).update(
        i as int,
        views(old(tasks)@)[i as int].flipped(),
    ));
}

/// Deletes every task with this id from the list, in place.
fn drop_with_id(tasks: &mut Vec<Task>, id: &String)
    ensures
        views(final(tasks)@) == removed(views(old(tasks)@), id@),
{
    let ghost all = views(tasks@);
    let ghost other = has_other_id(id@);
    let ghost mut seen: int = 0;
    let mut i: usize = 0;
    proof {
        reveal(Seq::filter);
        assert(all.take(0).filter(other) =~= Seq::<TaskView>::empty());
        assert(all.skip(0) =~= all);
    }
    while i < tasks.len()
        invariant
            0 <= seen <= all.len(),
            i <= tasks.len(),
            i == all.take(seen).filter(other).len(),
            views(tasks@) == all.take(seen).filter(other) + all.skip(seen),
            other == has_other_id(id@),
        decreases tasks.len() - i,
    {
        let ghost kept = all.take(seen).filter(other);
        proof {
            assert(views(tasks@)[i as int] == all.skip(seen)[0]);
            assert(all.take(seen + 1) =~= all.take(seen).push(all[seen]));
            all.take(seen).lemma_filter_push(all[seen], other);
        }
        let ghost before = views(tasks@);
        if tasks[i].id == *id {
            let _ = tasks.remove(i);
            assert(views(tasks@) =~= before.remove(i as int));
            assert(!other(all[seen]));
            assert(before.remove(i as int) =~= kept + all.skip(seen + 1));
        } else {
            i = i + 1;
            assert(views(tasks@) =~= kept.push(all[seen]) + all.skip(seen + 1));
        }
        proof {
            seen = seen + 1;
        }
    }
    proof {
        assert(seen == all.len()) by {
            assert(views(tasks@).len() == i + all.skip(seen).len());
        }
        assert(all.take(seen) =~= all);
        assert(all.skip(seen) =~= Seq::<TaskView>::empty());
        assert(views(tasks@) =~= all.filter(other));
    }
}

} // verus!
