//! The tasks of a scan that changes rows, by the data file that they read.

use std::sync::Arc;

use vstd::prelude::*;

use crate::error::{IcebergError, IcebergResult};

verus! {

/// A part of a scan: the data file that it reads; the handle names the rest.
#[derive(Debug, PartialEq, Eq)]
pub struct FileScanTask {
    pub data_file_path: String,
    pub handle: u64,
}

/// The tasks of one data file, by their places.
#[derive(Debug)]
struct PathTasks {
    path: String,
    tasks: Vec<usize>,
}

/// The places of the tasks that read a data file, among the first `upto`.
pub open spec fn places(tasks: Seq<FileScanTask>, path: Seq<char>, upto: nat) -> Seq<usize>
    decreases upto,
{
    if upto == 0 {
        Seq::empty()
    } else if tasks[upto - 1].data_file_path@ == path {
        places(tasks, path, (upto - 1) as nat).push((upto - 1) as usize)
    } else {
        places(tasks, path, (upto - 1) as nat)
    }
}

/// The tasks of a scan that changes rows.
#[derive(Debug)]
pub struct PlannedMutationTasks {
    tasks: Arc<Vec<FileScanTask>>,
    tasks_by_path: Vec<PathTasks>,
}

impl View for PlannedMutationTasks {
    type V = Seq<FileScanTask>;

    closed spec fn view(&self) -> Seq<FileScanTask> {
        self.tasks@
    }
}

/// Whether an index holds the places of the first `upto` tasks, each path once.
spec fn indexes(index: Seq<PathTasks>, tasks: Seq<FileScanTask>, upto: nat) -> bool {
    &&& forall|i: int, j: int|
        0 <= i < j < index.len() ==> #[trigger] index[i].path@ != #[trigger] index[j].path@
    &&& forall|i: int|
        0 <= i < index.len() ==> (#[trigger] index[i]).tasks@.len() > 0 && index[i].tasks@ == places(
            tasks,
            index[i].path@,
            upto,
        )
    &&& forall|k: int|
        0 <= k < upto ==> exists|i: int|
            0 <= i < index.len() && #[trigger] index[i].path@ == (#[trigger] tasks[k]).data_file_path@
}

fn find_path(index: &Vec<PathTasks>, path: &str) -> (r: Option<usize>)
    ensures
        match r {
            Some(i) => i < index@.len() && index@[i as int].path@ == path@,
            None => forall|i: int| 0 <= i < index@.len() ==> #[trigger] index@[i].path@ != path@,
        },
{
    let wanted = path.to_owned();
    let mut i: usize = 0;
    while i < index.len()
        invariant
            i <= index@.len(),
            wanted@ == path@,
            forall|k: int| 0 <= k < i ==> #[trigger] index@[k].path@ != path@,
        decreases index@.len() - i,
    {
        if index[i].path == wanted {
            return Some(i);
        }
        i = i + 1;
    }
    None
}

proof fn lemma_no_places(tasks: Seq<FileScanTask>, path: Seq<char>, upto: nat)
    requires
        upto <= tasks.len(),
        forall|k: int| 0 <= k < upto ==> (#[trigger] tasks[k]).data_file_path@ != path,
    ensures
        places(tasks, path, upto) == Seq::<usize>::empty(),
    decreases upto,
{
    if upto > 0 {
        lemma_no_places(tasks, path, (upto - 1) as nat);
    }
}

/// The places of a data file's tasks ascend, and they are exactly the places
/// of the tasks that read it.
pub proof fn places_are_all_in_order(tasks: Seq<FileScanTask>, path: Seq<char>, upto: nat)
    requires
        upto <= tasks.len(),
        tasks.len() <= usize::MAX,
    ensures
        forall|i: int|
            0 <= i < places(tasks, path, upto).len() ==> (#[trigger] places(tasks, path, upto)[i]) < upto
                && tasks[places(tasks, path, upto)[i] as int].data_file_path@ == path,
        forall|i: int, j: int|
            0 <= i < j < places(tasks, path, upto).len() ==> (#[trigger] places(tasks, path, upto)[i])
                < (#[trigger] places(tasks, path, upto)[j]),
        forall|k: usize|
            k < upto && (#[trigger] tasks[k as int]).data_file_path@ == path ==> places(
                tasks,
                path,
                upto,
            ).contains(k),
    decreases upto,
{
    if upto > 0 {
        let shorter = (upto - 1) as nat;
        places_are_all_in_order(tasks, path, shorter);
        let before = places(tasks, path, shorter);
        let after = places(tasks, path, upto);
        assert forall|k: usize|
            k < upto && (#[trigger] tasks[k as int]).data_file_path@ == path implies after.contains(k) by {
            if k < shorter {
                assert(before.contains(k));
                let i = choose|i: int| 0 <= i < before.len() && before[i] == k;
                assert(after[i] == k);
            } else {
                assert(after[before.len() as int] == k);
            }
        }
    }
}

impl PlannedMutationTasks {
    /// The index holds every task under the path of its data file.
    pub closed spec fn wf(self) -> bool {
        indexes(self.tasks_by_path@, self.tasks@, self.tasks@.len())
    }

    /// The tasks of a scan.
    pub fn new(tasks: Vec<FileScanTask>) -> (r: Self)
        ensures
            r.wf(),
            r@ == tasks@,
    {
        let mut index: Vec<PathTasks> = Vec::new();
        let mut n: usize = 0;
        while n < tasks.len()
            invariant
                n <= tasks@.len(),
                indexes(index@, tasks@, n as nat),
            decreases tasks@.len() - n,
        {
            let ghost before = index@;
            let path = tasks[n].data_file_path.clone();
            assert(path@ == tasks@[n as int].data_file_path@);
            match find_path(&index, path.as_str()) {
                Some(at) => {
                    index[at].tasks.push(n);
                    proof {
                        assert forall|i: int| 0 <= i < index@.len() implies (#[trigger]
                        index@[i]).tasks@ == places(tasks@, index@[i].path@, (n + 1) as nat) && index@[i].path@
                            == before[i].path@ by {
                            assert(before[i].tasks@ == places(tasks@, before[i].path@, n as nat));
                            if i != at {
                                assert(index@[i] == before[i]);
                                if i < at {
                                    assert(before[i].path@ != before[at as int].path@);
                                } else {
                                    assert(before[at as int].path@ != before[i].path@);
                                }
                            } else {
                                assert(index@[i].path@ == before[i].path@);
                                assert(index@[i].tasks@ == before[i].tasks@.push(n));
                            }
                        }
                        assert forall|i: int, j: int| 0 <= i < j < index@.len() implies #[trigger]
                        index@[i].path@ != #[trigger] index@[j].path@ by {
                            assert(before[i].path@ != before[j].path@);
                        }
                        assert forall|k: int| 0 <= k < n + 1 implies exists|i: int|
                            0 <= i < index@.len() && #[trigger] index@[i].path@ == (#[trigger]
                            tasks@[k]).data_file_path@ by {
                            if k < n {
                                let i = choose|i: int|
                                    0 <= i < before.len() && #[trigger] before[i].path@
                                        == tasks@[k].data_file_path@;
                                assert(index@[i].path@ == tasks@[k].data_file_path@);
                            } else {
                                assert(index@[at as int].path@ == tasks@[k].data_file_path@);
                            }
                        }
                    }
                },
                None => {
                    let mut places_of: Vec<usize> = Vec::new();
                    places_of.push(n);
                    index.push(PathTasks { path, tasks: places_of });
                    proof {
                        let added = index@[before.len() as int];
                        assert forall|k: int| 0 <= k < n implies (#[trigger] tasks@[k]).data_file_path@
                            != added.path@ by {
                            let i = choose|i: int|
                                0 <= i < before.len() && #[trigger] before[i].path@
                                    == tasks@[k].data_file_path@;
                            assert(before[i].path@ != added.path@);
                        }
                        lemma_no_places(tasks@, added.path@, n as nat);
                        assert(added.tasks@ =~= places(tasks@, added.path@, (n + 1) as nat));
                        assert forall|i: int| 0 <= i < index@.len() implies (#[trigger]
                        index@[i]).tasks@ == places(tasks@, index@[i].path@, (n + 1) as nat) by {
                            if i < before.len() {
                                assert(index@[i] == before[i]);
                                assert(before[i].path@ != added.path@);
                            }
                        }
                        assert forall|i: int, j: int| 0 <= i < j < index@.len() implies #[trigger]
                        index@[i].path@ != #[trigger] index@[j].path@ by {
                            assert(index@[i] == before[i]);
                            if j < before.len() {
                                assert(index@[j] == before[j]);
                                assert(before[i].path@ != before[j].path@);
                            }
                        }
                        assert forall|k: int| 0 <= k < n + 1 implies exists|i: int|
                            0 <= i < index@.len() && #[trigger] index@[i].path@ == (#[trigger]
                            tasks@[k]).data_file_path@ by {
                            if k < n {
                                let i = choose|i: int|
                                    0 <= i < before.len() && #[trigger] before[i].path@
                                        == tasks@[k].data_file_path@;
                                assert(index@[i].path@ == tasks@[k].data_file_path@);
                            } else {
                                assert(index@[before.len() as int].path@ == tasks@[k].data_file_path@);
                            }
                        }
                    }
                },
            }
            n = n + 1;
        }
        PlannedMutationTasks { tasks: Arc::new(tasks), tasks_by_path: index }
    }

    /// The tasks, shared.
    pub fn shared_tasks(&self) -> (r: Arc<Vec<FileScanTask>>)
        ensures
            r@ == self@,
    {
        Arc::clone(&self.tasks)
    }

    /// The tasks that read a data file, in order; there must be some.
    pub fn tasks_for_path(&self, path: &str) -> (r: IcebergResult<Vec<&FileScanTask>>)
        requires
            self.wf(),
        ensures
            match r {
                Ok(found) => {
                    &&& found@.len() > 0
                    &&& found@.len() == places(self@, path@, self@.len()).len()
                    &&& forall|i: int|
                        0 <= i < found@.len() ==> *(#[trigger] found@[i]) == self@[places(
                            self@,
                            path@,
                            self@.len(),
                        )[i] as int]
                },
                Err(e) => {
                    &&& places(self@, path@, self@.len()).len() == 0
                    &&& e matches IcebergError::MetadataTracker(text) && text@
                        == "cannot find Iceberg scan task metadata for deletion target "@ + path@
                },
            },
    {
        let ghost wanted = places(self@, path@, self@.len());
        let tasks = &self.tasks;
        let total: usize = tasks.len();
        proof {
            assert(total == self@.len());
            places_are_all_in_order(self@, path@, self@.len());
        }
        let at = match find_path(&self.tasks_by_path, path) {
            Some(at) => at,
            None => {
                proof {
                    assert forall|k: int| 0 <= k < self@.len() implies (#[trigger]
                    self@[k]).data_file_path@ != path@ by {
                        let i = choose|i: int|
                            0 <= i < self.tasks_by_path@.len() && #[trigger]
                            self.tasks_by_path@[i].path@ == self@[k].data_file_path@;
                        assert(self.tasks_by_path@[i].path@ != path@);
                    }
                    lemma_no_places(self@, path@, self@.len());
                }
                let mut text =
                    "cannot find Iceberg scan task metadata for deletion target ".to_owned();
                text.append(path);
                return Err(IcebergError::MetadataTracker(text));
            },
        };
        let indices = &self.tasks_by_path[at].tasks;
        assert(indices@ == wanted);
        let mut found: Vec<&FileScanTask> = Vec::new();
        let mut i: usize = 0;
        while i < indices.len()
            invariant
                i <= indices@.len(),
                indices@ == wanted,
                self@ == tasks@,
                forall|k: int| 0 <= k < wanted.len() ==> (#[trigger] wanted[k]) < self@.len(),
                found@.len() == i,
                forall|k: int| 0 <= k < i ==> *(#[trigger] found@[k]) == self@[wanted[k] as int],
            decreases indices@.len() - i,
        {
            let task_index: usize = indices[i];
            assert(wanted[i as int] < self@.len());
            found.push(&tasks[task_index]);
            i = i + 1;
        }
        Ok(found)
    }
}

} // verus!
