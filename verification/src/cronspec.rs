//! Cron expression validation for the automation scheduler.

use vstd::prelude::*;

verus! {

/// Failures of the automation scheduler.
pub enum SchedulerError {
    InvalidCron(String),
    DatabaseError(String),
    RedisError(String),
    JobNotFound,
    ExecutionFailed(String),
}

/// Whether the cron grammar accepts an expression. It depends on the
/// expression alone; no contract of this crate says which expressions are
/// accepted.
pub uninterp spec fn cron_parses(expr: Seq<char>) -> bool;

/// Relies on `cron::Schedule::from_str`: whether an expression parses is
/// a function of the expression alone.
#[verifier::external_body]
fn cron_schedule_valid(expr: &str) -> (r: bool)
    ensures
        r == cron_parses(expr@),
{
    <cron::Schedule as core::str::FromStr>::from_str(expr).is_ok()
}

/// Validates a cron expression: accepted exactly when the cron grammar
/// parses it, with the rejected expression carried in the error.
pub fn validate_cron(cron_expr: &str) -> (r: Result<(), SchedulerError>)
    ensures
        (r is Ok) == cron_parses(cron_expr@),
        r matches Err(e) ==> e matches SchedulerError::InvalidCron(m) && m@ == cron_expr@,
{
    if cron_schedule_valid(cron_expr) {
        Ok(())
    } else {
        Err(SchedulerError::InvalidCron(cron_expr.to_owned()))
    }
}

} // verus!
