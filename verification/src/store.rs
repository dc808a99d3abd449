//! Keyed persistence of tasks: a small capability set (fetch, upsert,
//! delete) and its in-memory reference implementation, last-writer-wins
//! keyed by the task id.
use vstd::prelude::*;

use crate::model::Task;
use crate::model::TaskV;

verus! {

/// The single failure kind of a task store: it is unavailable.
#[derive(Debug, Clone, Copy, PartialEq, Eq, Structural)]
pub enum TaskStoreError {
    Unavailable,
}

/// The tasks of a list, as a map keyed by id; later entries win.
pub open spec fn tasks_as_map(s: Seq<TaskV>) -> Map<Seq<char>, TaskV> {
    Map::new(
        |k: Seq<char>| exists|i: int| 0 <= i < s.len() && (#[trigger] s[i]).id == k,
        |k: Seq<char>| s[choose|i: int| 0 <= i < s.len() && (#[trigger] s[i]).id == k],
    )
}

/// Keyed persistence of tasks. The contents are a map from task id to
/// task; `upsert` is last-writer-wins.
pub trait TaskStore: Sized {
    /// The tasks the store holds, keyed by id.
    spec fn contents(&self) -> Map<Seq<char>, TaskV>;

    /// Whether the store's own invariant holds.
    spec fn inv(&self) -> bool;

    /// Reads the task of the given id, if it is present.
    fn fetch(&self, task_id: &str) -> (r: Result<Option<Task>, TaskStoreError>)
        requires
            self.inv(),
        ensures
            match r {
                Ok(Some(t)) => self.contents().contains_key(task_id@) && t@ == self.contents().index(task_id@),
                Ok(None) => !self.contents().contains_key(task_id@),
                Err(_) => true,
            },
    ;

    /// Writes the task under its id, replacing any task already there, and
    /// hands the task back.
    fn upsert(&mut self, task: Task) -> (r: Result<Task, TaskStoreError>)
        requires
            old(self).inv(),
        ensures
            final(self).inv(),
            match r {
                Ok(t) => t@ == task@ && final(self).contents() == old(self).contents().insert(
                    task@.id,
                    task@,
                ),
                Err(_) => final(self).contents() == old(self).contents(),
            },
    ;

    /// Removes and returns the task of the given id, if it is present.
    fn delete(&mut self, task_id: &str) -> (r: Result<Option<Task>, TaskStoreError>)
        requires
            old(self).inv(),
        ensures
            final(self).inv(),
            match r {
                Ok(Some(t)) => old(self).contents().contains_key(task_id@) && t@ == old(
                    self,
                ).contents().index(task_id@) && final(self).contents() == old(
                    self,
                ).contents().remove(task_id@),
                Ok(None) => !old(self).contents().contains_key(task_id@) && final(self).contents()
                    == old(self).contents(),
                Err(_) => final(self).contents() == old(self).contents(),
            },
    ;
}

/// The in-memory reference store: a list of tasks with pairwise distinct
/// ids. It never fails.
#[derive(Debug)]
pub struct InMemoryTaskStore {
    pub tasks: Vec<Task>,
}

impl InMemoryTaskStore {
    /// The views of the held tasks.
    pub open spec fn task_views(&self) -> Seq<TaskV> {
        self.tasks@.map_values(|t: Task| t@)
    }

    /// A fresh, empty store.
    pub fn new() -> (r: InMemoryTaskStore)
        ensures
            r.inv(),
            r.contents() == Map::<Seq<char>, TaskV>::empty(),
    {
        let r = InMemoryTaskStore { tasks: Vec::new() };
        proof {
            assert(r.task_views() =~= Seq::<TaskV>::empty());
            assert(r.contents() =~= Map::<Seq<char>, TaskV>::empty());
        }
        r
    }

    /// Reads the task of the given id, if it is present. The in-memory
    /// store never fails.
    pub fn lookup(&self, task_id: &str) -> (r: Option<Task>)
        requires
            self.inv(),
        ensures
            match r {
                Some(t) => self.contents().contains_key(task_id@) && t@ == self.contents().index(
                    task_id@,
                ),
                None => !self.contents().contains_key(task_id@),
            },
    {
        match self.find(task_id) {
            Some(i) => {
                let t = self.tasks[i].dup();
                proof {
                    let s = self.task_views();
                    assert(s[i as int].id == task_id@);
                    let w = choose|j: int| 0 <= j < s.len() && (#[trigger] s[j]).id == task_id@;
                    assert(w == i as int);
                }
                Some(t)
            },
            None => None,
        }
    }

    /// Writes the task under its id, replacing any task already there, and
    /// hands the task back. The in-memory store never fails.
    pub fn save(&mut self, task: Task) -> (r: Task)
        requires
            old(self).inv(),
        ensures
            final(self).inv(),
            r@ == task@,
            final(self).contents() == old(self).contents().insert(task@.id, task@),
    {
        let ghost pre = self.task_views();
        let copy = task.dup();
        match self.find(task.id.as_str()) {
            Some(i) => {
                self.tasks.set(i, copy);
                proof {
                    let s = self.task_views();
                    assert(s =~= pre.update(i as int, task@));
                    lemma_update_map(pre, i as int, task@);
                    assert(self.contents() =~= tasks_as_map(pre).insert(task@.id, task@));
                }
                task
            },
            None => {
                self.tasks.push(copy);
                proof {
                    let s = self.task_views();
                    assert(s =~= pre.push(task@));
                    lemma_push_map(pre, task@);
                    assert(self.contents() =~= tasks_as_map(pre).insert(task@.id, task@));
                }
                task
            },
        }
    }

    /// Removes and returns the task of the given id, if it is present. The
    /// in-memory store never fails.
    pub fn discard(&mut self, task_id: &str) -> (r: Option<Task>)
        requires
            old(self).inv(),
        ensures
            final(self).inv(),
            match r {
                Some(t) => old(self).contents().contains_key(task_id@) && t@ == old(
                    self,
                ).contents().index(task_id@) && final(self).contents() == old(
                    self,
                ).contents().remove(task_id@),
                None => !old(self).contents().contains_key(task_id@) && final(self).contents()
                    == old(self).contents(),
            },
    {
        let ghost pre = self.task_views();
        match self.find(task_id) {
            Some(i) => {
                let t = self.tasks.remove(i);
                proof {
                    let s = self.task_views();
                    assert(s =~= pre.remove(i as int));
                    let w = choose|j: int| 0 <= j < pre.len() && (#[trigger] pre[j]).id
                        == task_id@;
                    assert(w == i as int);
                    lemma_remove_map(pre, i as int);
                    assert(self.contents() =~= tasks_as_map(pre).remove(task_id@));
                }
                Some(t)
            },
            None => None,
        }
    }

    /// The index of the task with the given id, if one is held.
    fn find(&self, task_id: &str) -> (r: Option<usize>)
        ensures
            match r {
                Some(i) => i < self.tasks@.len() && self.task_views()[i as int].id == task_id@,
                None => forall|i: int|
                    0 <= i < self.task_views().len() ==> (#[trigger] self.task_views()[i]).id
                        != task_id@,
            },
    {
        let key = task_id.to_owned();
        let n = self.tasks.len();
        let mut i: usize = 0;
        while i < n
            invariant
                key@ == task_id@,
                n == self.tasks@.len(),
                i <= n,
                forall|j: int|
                    0 <= j < i ==> (#[trigger] self.task_views()[j]).id != task_id@,
            decreases n - i,
        {
            if self.tasks[i].id == key {
                return Some(i);
            }
            i += 1;
        }
        None
    }
}

impl TaskStore for InMemoryTaskStore {
    open spec fn contents(&self) -> Map<Seq<char>, TaskV> {
        tasks_as_map(self.task_views())
    }

    open spec fn inv(&self) -> bool {
        forall|i: int, j: int|
            0 <= i < j < self.task_views().len() ==> (#[trigger] self.task_views()[i]).id != (
            #[trigger] self.task_views()[j]).id
    }

    fn fetch(&self, task_id: &str) -> (r: Result<Option<Task>, TaskStoreError>) {
        Ok(self.lookup(task_id))
    }

    fn upsert(&mut self, task: Task) -> (r: Result<Task, TaskStoreError>) {
        Ok(self.save(task))
    }

    fn delete(&mut self, task_id: &str) -> (r: Result<Option<Task>, TaskStoreError>) {
        Ok(self.discard(task_id))
    }
}

/// Updating the entry at a unique-id position updates the map at that id,
/// provided the id is unchanged or stays unique.
proof fn lemma_update_map(s: Seq<TaskV>, i: int, t: TaskV)
    requires
        0 <= i < s.len(),
        s[i].id == t.id,
        forall|a: int, b: int| 0 <= a < b < s.len() ==> (#[trigger] s[a]).id != (#[trigger] s[b]).id,
    ensures
        tasks_as_map(s.update(i, t)) =~= tasks_as_map(s).insert(t.id, t),
        forall|a: int, b: int|
            0 <= a < b < s.update(i, t).len() ==> (#[trigger] s.update(i, t)[a]).id != (
            #[trigger] s.update(i, t)[b]).id,
{
    let s2 = s.update(i, t);
    assert forall|k: Seq<char>| #[trigger]
        tasks_as_map(s2).dom().contains(k) == tasks_as_map(s).insert(t.id, t).dom().contains(
            k,
        ) && (tasks_as_map(s2).dom().contains(k) ==> tasks_as_map(s2)[k] == tasks_as_map(s).insert(
        t.id,
        t,
    )[k]) by {
        if k == t.id {
            assert(s2[i].id == k);
            assert(tasks_as_map(s2).dom().contains(k));
            let w = choose|j: int| 0 <= j < s2.len() && (#[trigger] s2[j]).id == k;
            assert(w == i);
        } else {
            if exists|j: int| 0 <= j < s.len() && (#[trigger] s[j]).id == k {
                let j = choose|j: int| 0 <= j < s.len() && (#[trigger] s[j]).id == k;
                assert(s2[j].id == k);
                let w = choose|j2: int| 0 <= j2 < s2.len() && (#[trigger] s2[j2]).id == k;
                assert(s[w].id == k);
                assert(w == j);
            } else {
                assert forall|j: int| 0 <= j < s2.len() implies (#[trigger] s2[j]).id != k by {
                    assert(j != i ==> s2[j] == s[j]);
                }
            }
        }
    }
}

/// Appending a task with a fresh id inserts it into the map and keeps the
/// ids pairwise distinct.
proof fn lemma_push_map(s: Seq<TaskV>, t: TaskV)
    requires
        forall|j: int| 0 <= j < s.len() ==> (#[trigger] s[j]).id != t.id,
        forall|a: int, b: int| 0 <= a < b < s.len() ==> (#[trigger] s[a]).id != (#[trigger] s[b]).id,
    ensures
        tasks_as_map(s.push(t)) =~= tasks_as_map(s).insert(t.id, t),
        forall|a: int, b: int|
            0 <= a < b < s.push(t).len() ==> (#[trigger] s.push(t)[a]).id != (
            #[trigger] s.push(t)[b]).id,
{
    let s2 = s.push(t);
    assert forall|k: Seq<char>| #[trigger]
        tasks_as_map(s2).dom().contains(k) == tasks_as_map(s).insert(t.id, t).dom().contains(
            k,
        ) && (tasks_as_map(s2).dom().contains(k) ==> tasks_as_map(s2)[k] == tasks_as_map(s).insert(
        t.id,
        t,
    )[k]) by {
        if k == t.id {
            assert(s2[s.len() as int].id == k);
            assert(tasks_as_map(s2).dom().contains(k));
            let w = choose|j: int| 0 <= j < s2.len() && (#[trigger] s2[j]).id == k;
            assert(w == s.len() as int);
        } else {
            if exists|j: int| 0 <= j < s.len() && (#[trigger] s[j]).id == k {
                let j = choose|j: int| 0 <= j < s.len() && (#[trigger] s[j]).id == k;
                assert(s2[j].id == k);
                let w = choose|j2: int| 0 <= j2 < s2.len() && (#[trigger] s2[j2]).id == k;
                assert(w == j);
            } else {
                assert forall|j: int| 0 <= j < s2.len() implies (#[trigger] s2[j]).id != k by {
                    assert(j < s.len() ==> s2[j] == s[j]);
                }
            }
        }
    }
}

/// Removing the entry at a unique-id position removes its id from the map
/// and keeps the ids pairwise distinct.
proof fn lemma_remove_map(s: Seq<TaskV>, i: int)
    requires
        0 <= i < s.len(),
        forall|a: int, b: int| 0 <= a < b < s.len() ==> (#[trigger] s[a]).id != (#[trigger] s[b]).id,
    ensures
        tasks_as_map(s.remove(i)) =~= tasks_as_map(s).remove(s[i].id),
        forall|a: int, b: int|
            0 <= a < b < s.remove(i).len() ==> (#[trigger] s.remove(i)[a]).id != (
            #[trigger] s.remove(i)[b]).id,
{
    let s2 = s.remove(i);
    assert forall|a: int, b: int|
        0 <= a < b < s2.len() implies (#[trigger] s2[a]).id != (#[trigger] s2[b]).id by {
        let a0 = if a < i {
            a
        } else {
            a + 1
        };
        let b0 = if b < i {
            b
        } else {
            b + 1
        };
        assert(s2[a] == s[a0] && s2[b] == s[b0]);
    }
    assert forall|k: Seq<char>| #[trigger]
        tasks_as_map(s2).dom().contains(k) == tasks_as_map(s).remove(s[i].id).dom().contains(
            k,
        ) && (tasks_as_map(s2).dom().contains(k) ==> tasks_as_map(s2)[k] == tasks_as_map(s).remove(
        s[i].id,
    )[k]) by {
        if k == s[i].id {
            assert forall|j: int| 0 <= j < s2.len() implies (#[trigger] s2[j]).id != k by {
                let j0 = if j < i {
                    j
                } else {
                    j + 1
                };
                assert(s2[j] == s[j0]);
            }
        } else {
            if exists|j: int| 0 <= j < s.len() && (#[trigger] s[j]).id == k {
                let j = choose|j: int| 0 <= j < s.len() && (#[trigger] s[j]).id == k;
                assert(j != i);
                let j2 = if j < i {
                    j
                } else {
                    j - 1
                };
                assert(s2[j2] == s[j]);
                assert(s2[j2].id == k);
                let w = choose|j3: int| 0 <= j3 < s2.len() && (#[trigger] s2[j3]).id == k;
                let w0 = if w < i {
                    w
                } else {
                    w + 1
                };
                assert(s2[w] == s[w0]);
                assert(w0 == j);
            } else {
                assert forall|j: int| 0 <= j < s2.len() implies (#[trigger] s2[j]).id != k by {
                    let j0 = if j < i {
                        j
                    } else {
                        j + 1
                    };
                    assert(s2[j] == s[j0]);
                }
            }
        }
    }
}

} // verus!
