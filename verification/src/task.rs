//! A struct representing a task.

use vstd::prelude::*;

verus! {

/// A struct representing a task.
///
/// Tasks are the basic unit of work. Everything else is made of tasks. Every
/// moment is kept as milliseconds since the Unix epoch.
#[allow(dead_code)]
pub struct Task {
    /// The unique identifier for each task. This `id` is guaranteed to be
    /// constant.
    id: u64,
    /// The `name` (or title) for the task.
    name: String,
    /// A more detailed description of the task.
    description: String,
    /// The moment the task was created.
    created: Option<u64>,
    /// The moment that work for the task is expected to start.
    start: Option<u64>,
    /// The moment that work for the task is expected to be complete.
    end: Option<u64>,
    /// How often the task should repeat.
    repeat: Option<String>,
    /// Any user defined tags the task has.
    tags: Vec<String>,
}

} // verus!
