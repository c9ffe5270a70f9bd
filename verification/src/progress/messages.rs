//! The lines that tell of progress.

use crate::text::{decimal, decimal_string, owned};
use vstd::prelude::*;

verus! {

/// The line that opens a run over `total` tasks.
pub fn sync_starting(total: usize) -> (r: String)
    ensures
        r@ == "Starting sync of "@ + decimal(total as nat) + " tasks..."@,
{
    let mut r = owned("Starting sync of ");
    let n = decimal_string(total);
    r.append(n.as_str());
    r.append(" tasks...");
    r
}

/// The line for the task that is being dealt with.
pub fn task_processing(task_id: &str, title: &str) -> (r: String)
    ensures
        r@ == "Processing task "@ + task_id@ + ": "@ + title@,
{
    let mut r = owned("Processing task ");
    r.append(task_id);
    r.append(": ");
    r.append(title);
    r
}

/// The line for an operation on `count` items at once.
pub fn batch_operation(operation: &str, count: usize) -> (r: String)
    ensures
        r@ == "Batch "@ + operation@ + " "@ + decimal(count as nat) + " items"@,
{
    let mut r = owned("Batch ");
    r.append(operation);
    r.append(" ");
    let n = decimal_string(count);
    r.append(n.as_str());
    r.append(" items");
    r
}

} // verus!
