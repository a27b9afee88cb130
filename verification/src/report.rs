//! The run-level verdict over a sequence of outcomes: whether any workload
//! failed, and the overall status the report carries.

use vstd::prelude::*;
use crate::checker::{CheckResult, CheckStatus};

verus! {

/// True exactly when some outcome is Failed; the run must then complete
/// unsuccessfully.
pub fn has_failures(results: &Vec<CheckResult>) -> (r: bool)
    ensures
        r == exists|i: int| 0 <= i < results@.len() && results@[i].status is Failed,
{
    let n = results.len();
    let mut i: usize = 0;
    while i < n
        invariant
            n == results@.len(),
            i <= n,
            forall|k: int| 0 <= k < i ==> !(results@[k].status is Failed),
        decreases n - i,
    {
        if matches!(results[i].status, CheckStatus::Failed) {
            return true;
        }
        i += 1;
    }
    false
}

fn has_warnings(results: &Vec<CheckResult>) -> (r: bool)
    ensures
        r == exists|i: int| 0 <= i < results@.len() && results@[i].status is Warning,
{
    let n = results.len();
    let mut i: usize = 0;
    while i < n
        invariant
            n == results@.len(),
            i <= n,
            forall|k: int| 0 <= k < i ==> !(results@[k].status is Warning),
        decreases n - i,
    {
        if matches!(results[i].status, CheckStatus::Warning) {
            return true;
        }
        i += 1;
    }
    false
}

/// The overall status of a run: Failed when any outcome failed, otherwise
/// Warning when any outcome warned, otherwise Passed.
pub fn overall_status(results: &Vec<CheckResult>) -> (r: CheckStatus)
    ensures
        r is Failed <==> exists|i: int| 0 <= i < results@.len() && results@[i].status is Failed,
        r is Warning <==> (!exists|i: int|
            0 <= i < results@.len() && results@[i].status is Failed) && (exists|i: int|
            0 <= i < results@.len() && results@[i].status is Warning),
        r is Passed <==> (forall|i: int|
            0 <= i < results@.len() ==> !(results@[i].status is Failed) && !(
            results@[i].status is Warning)),
{
    if has_failures(results) {
        CheckStatus::Failed
    } else if has_warnings(results) {
        CheckStatus::Warning
    } else {
        CheckStatus::Passed
    }
}

} // verus!
