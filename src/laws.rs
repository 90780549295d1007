//! Properties of the ledger that relate several actions.

use crate::account::AccountId;
use crate::job::{
    assignable, budgets_kept, busy, in_progress, is_active_for, records_wf, spec_aproval, spec_create,
    spec_obtain, spec_reject, spec_submit, Balance, JobError, JobId, JobRecord, Payout, Status,
};
use vstd::prelude::*;

verus! {

/// A job's budget is the payment it was posted with, and no action changes
/// the budget of any job afterwards.
pub proof fn lemma_budget_fixed(
    s: Seq<JobRecord>,
    caller: AccountId,
    id: JobId,
    name: String,
    description: String,
    payment: Balance,
    result: String,
    transferred: bool,
)
    ensures
        spec_create(s, caller, name, description, payment)[s.len() as int].job.budget == payment,
        budgets_kept(s, spec_create(s, caller, name, description, payment)),
        spec_obtain(s, caller, id) is Ok ==> budgets_kept(s, spec_obtain(s, caller, id)->Ok_0),
        spec_submit(s, caller, id, result) is Ok ==> budgets_kept(
            s,
            spec_submit(s, caller, id, result)->Ok_0,
        ),
        spec_reject(s, caller, id) is Ok ==> budgets_kept(s, spec_reject(s, caller, id)->Ok_0),
        spec_aproval(s, caller, id, transferred) is Ok ==> budgets_kept(
            s,
            spec_aproval(s, caller, id, transferred)->Ok_0.0,
        ),
{
}

/// Obtaining a job that is neither `Open` nor `Reopen` fails with
/// `NotAssignable`, whatever its status and whoever asks.
pub proof fn lemma_obtain_needs_open(s: Seq<JobRecord>, caller: AccountId, id: JobId)
    requires
        id < s.len(),
        !assignable(s[id as int].job.status),
    ensures
        spec_obtain(s, caller, id) == Err::<Seq<JobRecord>, JobError>(JobError::NotAssignable),
{
}

/// A worker with an active job cannot obtain another one.
pub proof fn lemma_busy_worker_refused(s: Seq<JobRecord>, worker: AccountId, id: JobId)
    requires
        id < s.len(),
        assignable(s[id as int].job.status),
        busy(s, worker),
    ensures
        spec_obtain(s, worker, id) == Err::<Seq<JobRecord>, JobError>(JobError::WorkerBusy),
{
}

/// After its worker submits and its owner approves, a job is `Finish`, its
/// whole budget goes to that worker, the worker is free again, and the job
/// accepts no further submission, rejection or approval (`InvalidTransition`)
/// and cannot be obtained (`NotAssignable`).
pub proof fn lemma_submit_then_approve(
    s: Seq<JobRecord>,
    worker: AccountId,
    owner: AccountId,
    id: JobId,
    result: String,
)
    requires
        records_wf(s),
        spec_submit(s, worker, id, result) is Ok,
        spec_aproval(spec_submit(s, worker, id, result)->Ok_0, owner, id, true) is Ok,
    ensures
        ({
            let done = spec_aproval(spec_submit(s, worker, id, result)->Ok_0, owner, id, true)->Ok_0;
            let t = done.0;
            &&& done.1 == (Payout { to: worker, amount: s[id as int].job.budget })
            &&& t[id as int].job.status == Status::Finish
            &&& t[id as int].job.budget == s[id as int].job.budget
            &&& !busy(t, worker)
            &&& forall|c: AccountId, res: String|
                spec_submit(t, c, id, res) == Err::<Seq<JobRecord>, JobError>(
                    JobError::InvalidTransition,
                )
            &&& forall|c: AccountId|
                spec_reject(t, c, id) == Err::<Seq<JobRecord>, JobError>(JobError::InvalidTransition)
            &&& forall|c: AccountId, ok: bool|
                spec_aproval(t, c, id, ok) == Err::<(Seq<JobRecord>, Payout), JobError>(
                    JobError::InvalidTransition,
                )
            &&& forall|c: AccountId|
                spec_obtain(t, c, id) == Err::<Seq<JobRecord>, JobError>(JobError::NotAssignable)
        }),
{
    let t = spec_aproval(spec_submit(s, worker, id, result)->Ok_0, owner, id, true)->Ok_0.0;
    assert forall|k: int| 0 <= k < t.len() implies !#[trigger] is_active_for(t[k], worker) by {
        if k != id && in_progress(t[k].job.status) && t[k].worker == Some(worker) {
            assert(t[k] == s[k]);
            assert(in_progress(s[id as int].job.status));
            assert(s[k].worker != s[id as int].worker);
        }
    }
}

/// After its worker submits and its owner rejects, a job is `Reopen` with no
/// worker and no result, the worker is free again, and the budget stays in
/// escrow unchanged.
pub proof fn lemma_submit_then_reject(
    s: Seq<JobRecord>,
    worker: AccountId,
    owner: AccountId,
    id: JobId,
    result: String,
)
    requires
        records_wf(s),
        spec_submit(s, worker, id, result) is Ok,
        spec_reject(spec_submit(s, worker, id, result)->Ok_0, owner, id) is Ok,
    ensures
        ({
            let t = spec_reject(spec_submit(s, worker, id, result)->Ok_0, owner, id)->Ok_0;
            &&& t[id as int].job.status == Status::Reopen
            &&& t[id as int].worker == None::<AccountId>
            &&& t[id as int].job.result == None::<String>
            &&& t[id as int].job.budget == s[id as int].job.budget
            &&& budgets_kept(s, t)
            &&& !busy(t, worker)
        }),
{
    let t = spec_reject(spec_submit(s, worker, id, result)->Ok_0, owner, id)->Ok_0;
    assert forall|k: int| 0 <= k < t.len() implies !#[trigger] is_active_for(t[k], worker) by {
        if k != id && in_progress(t[k].job.status) && t[k].worker == Some(worker) {
            assert(t[k] == s[k]);
            assert(in_progress(s[id as int].job.status));
            assert(s[k].worker != s[id as int].worker);
        }
    }
}

} // verus!
