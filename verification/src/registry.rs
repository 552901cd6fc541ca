//! The status registry: the one mapping from job ID to current status.

use crate::status::TaskStatus;
use vstd::hash_map::StringHashMap;
use vstd::prelude::*;

verus! {

/// Maps each job ID that was ever written to its current status. Entries are
/// never taken out.
pub struct Registry {
    entries: StringHashMap<TaskStatus>,
}

/// What a registry holds: job IDs and their status.
pub type Entries = Map<Seq<char>, TaskStatus>;

/// The status recorded for a job, if any.
pub open spec fn status_in(entries: Entries, task_id: Seq<char>) -> Option<TaskStatus> {
    if entries.contains_key(task_id) {
        Some(entries[task_id])
    } else {
        None
    }
}

impl View for Registry {
    type V = Entries;

    closed spec fn view(&self) -> Entries {
        self.entries@
    }
}

impl Registry {
    /// A registry without entries.
    pub fn new() -> (registry: Registry)
        ensures
            registry@ == Entries::empty(),
    {
        Registry { entries: StringHashMap::new() }
    }

    /// The number of jobs on record.
    pub fn len(&self) -> (count: usize)
        ensures
            count == self@.len(),
    {
        self.entries.len()
    }
}

/// The current status of a job, or nothing for a job that was never written.
pub fn get_task_status(registry: &Registry, task_id: &str) -> (status: Option<TaskStatus>)
    ensures
        status == status_in(registry@, task_id@),
{
    match registry.entries.get(task_id) {
        Some(status) => Some(*status),
        None => None,
    }
}

/// Records `new_status` for a job and returns the status it had before, or
/// nothing where the job was not on record. No other entry changes.
pub fn update_task_status(registry: &mut Registry, task_id: &str, new_status: TaskStatus) -> (previous:
    Option<TaskStatus>)
    ensures
        final(registry)@ == old(registry)@.insert(task_id@, new_status),
        previous == status_in(old(registry)@, task_id@),
{
    let previous: Option<TaskStatus> = get_task_status(registry, task_id);
    registry.entries.insert(task_id.to_owned(), new_status);
    previous
}

/// Reads and writes agree: an empty registry knows no job; a job reads as the
/// status last written for it; a write to one job leaves every other job as it
/// was, and takes no job off the record.
pub proof fn lemma_read_after_write(
    entries: Entries,
    task_id: Seq<char>,
    status: TaskStatus,
    other: Seq<char>,
)
    ensures
        status_in(Entries::empty(), task_id) is None,
        status_in(entries.insert(task_id, status), task_id) == Some(status),
        other != task_id ==> status_in(entries.insert(task_id, status), other) == status_in(
            entries,
            other,
        ),
        entries.contains_key(other) ==> entries.insert(task_id, status).contains_key(other),
{
}

} // verus!
