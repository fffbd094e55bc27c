//! Tasks and the repository that holds them.
use vstd::prelude::*;

verus! {

/// A unit of work.
#[derive(Debug, PartialEq, Eq)]
pub struct Task {
    pub id: u64,
    pub name: String,
    pub payload: Vec<u8>,
}

/// Makes tasks and judges them.
pub struct TaskService;

/// A task can be carried out: it has a name and a payload.
pub open spec fn valid(task: Task) -> bool {
    task.name@.len() > 0 && task.payload@.len() > 0
}

impl TaskService {
    /// A task.
    pub fn new_task(id: u64, name: &str, payload: Vec<u8>) -> (r: Task)
        ensures
            r.id == id,
            r.name@ == name@,
            r.payload == payload,
    {
        Task { id, name: name.to_owned(), payload }
    }

    /// Whether a task can be carried out.
    pub fn validate_task(task: &Task) -> (r: bool)
        ensures
            r == valid(*task),
    {
        !task.name.as_str().is_empty() && !task.payload.is_empty()
    }
}

/// The tasks that were added, in the order in which they were.
pub struct TaskRepo {
    pub tasks: Vec<Task>,
}

impl View for TaskRepo {
    type V = Seq<Task>;

    open spec fn view(&self) -> Seq<Task> {
        self.tasks@
    }
}

/// The first task with the given id is the one at `i`.
pub open spec fn first_at(tasks: Seq<Task>, id: u64, i: int) -> bool {
    &&& 0 <= i < tasks.len()
    &&& tasks[i].id == id
    &&& forall|j: int| 0 <= j < i ==> (#[trigger] tasks[j]).id != id
}

/// The first task with the given id.
pub open spec fn lookup(tasks: Seq<Task>, id: u64) -> Option<Task> {
    if exists|i: int| first_at(tasks, id, i) {
        Some(tasks[choose|i: int| first_at(tasks, id, i)])
    } else {
        None
    }
}

/// There is at most one first task with an id, and there is one as soon as any
/// task has it.
pub proof fn lemma_lookup(tasks: Seq<Task>, id: u64, i: int)
    ensures
        first_at(tasks, id, i) ==> lookup(tasks, id) == Some(tasks[i]),
        (forall|j: int| 0 <= j < tasks.len() ==> (#[trigger] tasks[j]).id != id) ==> lookup(
            tasks,
            id,
        ) is None,
{
    if first_at(tasks, id, i) {
        let k = choose|k: int| first_at(tasks, id, k);
        assert(first_at(tasks, id, k));
        assert(k == i);
    }
}

impl TaskRepo {
    /// An empty repository.
    pub fn new() -> (r: Self)
        ensures
            r@ == Seq::<Task>::empty(),
    {
        TaskRepo { tasks: Vec::new() }
    }

    /// Adds a task.
    pub fn add(&mut self, task: Task)
        ensures
            final(self)@ == old(self)@.push(task),
    {
        self.tasks.push(task);
    }

    /// The task with the given id that was added first.
    pub fn get(&self, id: u64) -> (r: Option<&Task>)
        ensures
            match r {
                Some(t) => lookup(self@, id) == Some(*t),
                None => lookup(self@, id) is None,
            },
    {
        let mut i: usize = 0;
        while i < self.tasks.len()
            invariant
                i <= self@.len(),
                forall|j: int| 0 <= j < i ==> (#[trigger] self@[j]).id != id,
            decreases self@.len() - i,
        {
            if self.tasks[i].id == id {
                proof {
                    assert(first_at(self@, id, i as int));
                    lemma_lookup(self@, id, i as int);
                }
                return Some(&self.tasks[i]);
            }
            i = i + 1;
        }
        proof {
            lemma_lookup(self@, id, 0);
        }
        None
    }

    /// All tasks.
    pub fn all(&self) -> (r: &Vec<Task>)
        ensures
            r@ == self@,
    {
        &self.tasks
    }
}

} // verus!
