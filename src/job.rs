use crate::account::AccountId;
use vstd::prelude::*;

verus! {

/// Sequential job identifier, starting at 0 and never reused.
pub type JobId = u128;

/// An amount of value held in escrow or paid out.
pub type Balance = u128;

/// The lifecycle state of a job.
#[derive(Clone, Copy, Debug, PartialEq, Eq, Structural)]
pub enum Status {
    Open,
    Doing,
    Review,
    Reopen,
    Finish,
}

/// Why an action on the ledger was refused.
#[derive(Clone, Copy, Debug, PartialEq, Eq, Structural)]
pub enum JobError {
    /// No job was ever created under the given id.
    JobNotFound,
    /// The job is neither `Open` nor `Reopen`.
    NotAssignable,
    /// The caller already works on another job.
    WorkerBusy,
    /// The caller is not the worker assigned to the job.
    NotAssignedWorker,
    /// The caller does not own the job.
    NotOwner,
    /// The job's status does not permit the action.
    InvalidTransition,
    /// The escrowed payment could not be released.
    EscrowTransferFailed,
}

/// A job as posted by its owner.
#[derive(Clone, Debug, PartialEq, Eq)]
pub struct Job {
    pub name: String,
    pub description: String,
    pub result: Option<String>,
    pub status: Status,
    pub budget: Balance,
}

impl Job {
    /// A field-for-field copy of the job.
    pub fn duplicate(&self) -> (r: Job)
        ensures
            r == *self,
    {
        let result = match &self.result {
            Some(s) => Some(s.clone()),
            None => None,
        };
        Job {
            name: self.name.clone(),
            description: self.description.clone(),
            result,
            status: self.status,
            budget: self.budget,
        }
    }
}

/// What the ledger knows of one job: the job itself, who posted it and who
/// is (or, once finished, was) assigned to it.
#[derive(Clone, Debug, PartialEq, Eq)]
pub struct JobRecord {
    pub job: Job,
    pub owner: AccountId,
    pub worker: Option<AccountId>,
}

/// A release of escrow that the host must carry out.
#[derive(Clone, Copy, Debug, PartialEq, Eq)]
pub struct Payout {
    pub to: AccountId,
    pub amount: Balance,
}

/// A job in one of these states may be obtained by a worker.
pub open spec fn assignable(st: Status) -> bool {
    st == Status::Open || st == Status::Reopen
}

/// A job in one of these states binds its worker.
pub open spec fn in_progress(st: Status) -> bool {
    st == Status::Doing || st == Status::Review
}

/// `w` is currently working on the job of record `r`.
pub open spec fn is_active_for(r: JobRecord, w: AccountId) -> bool {
    r.worker == Some(w) && in_progress(r.job.status)
}

/// `w` has an active job among `s`.
pub open spec fn busy(s: Seq<JobRecord>, w: AccountId) -> bool {
    exists|i: int| 0 <= i < s.len() && #[trigger] is_active_for(s[i], w)
}

/// The consistency of one record: a worker is bound exactly while the job is
/// in progress or finished, and a result exists exactly while it is under
/// review or finished.
pub open spec fn record_wf(r: JobRecord) -> bool {
    &&& (in_progress(r.job.status) || r.job.status == Status::Finish) == r.worker.is_some()
    &&& (r.job.status == Status::Review || r.job.status == Status::Finish) == r.job.result.is_some()
}

/// Every record is consistent and no worker holds two active jobs.
pub open spec fn records_wf(s: Seq<JobRecord>) -> bool {
    &&& forall|i: int| 0 <= i < s.len() ==> #[trigger] record_wf(s[i])
    &&& forall|i: int, j: int|
        0 <= i < s.len() && 0 <= j < s.len() && i != j && in_progress(#[trigger] s[i].job.status)
            && in_progress(#[trigger] s[j].job.status) ==> s[i].worker != s[j].worker
}

/// The jobs of `s` that may be obtained, in ascending id order.
pub open spec fn open_jobs(s: Seq<JobRecord>) -> Seq<Job>
    decreases s.len(),
{
    if s.len() == 0 {
        Seq::empty()
    } else {
        let rest = open_jobs(s.drop_last());
        if assignable(s.last().job.status) {
            rest.push(s.last().job)
        } else {
            rest
        }
    }
}

/// What the escrow holds for the job of record `r`.
pub open spec fn escrow_of(r: JobRecord) -> Balance {
    if r.job.status == Status::Finish {
        0
    } else {
        r.job.budget
    }
}

/// No job's budget differs between `a` and `b`, and no job disappeared.
pub open spec fn budgets_kept(a: Seq<JobRecord>, b: Seq<JobRecord>) -> bool {
    &&& a.len() <= b.len()
    &&& forall|i: int| 0 <= i < a.len() ==> #[trigger] b[i].job.budget == a[i].job.budget
}

/// `r` with a new status, result and worker.
pub open spec fn with_state(
    r: JobRecord,
    status: Status,
    result: Option<String>,
    worker: Option<AccountId>,
) -> JobRecord {
    JobRecord {
        job: Job {
            name: r.job.name,
            description: r.job.description,
            result,
            status,
            budget: r.job.budget,
        },
        owner: r.owner,
        worker,
    }
}

/// The ledger after `caller` posts a job with the given payment.
pub open spec fn spec_create(
    s: Seq<JobRecord>,
    caller: AccountId,
    name: String,
    description: String,
    payment: Balance,
) -> Seq<JobRecord> {
    s.push(
        JobRecord {
            job: Job { name, description, result: None, status: Status::Open, budget: payment },
            owner: caller,
            worker: None,
        },
    )
}

/// The outcome of `caller` obtaining job `id`.
pub open spec fn spec_obtain(s: Seq<JobRecord>, caller: AccountId, id: JobId) -> Result<
    Seq<JobRecord>,
    JobError,
> {
    if id >= s.len() {
        Err(JobError::JobNotFound)
    } else if !assignable(s[id as int].job.status) {
        Err(JobError::NotAssignable)
    } else if busy(s, caller) {
        Err(JobError::WorkerBusy)
    } else {
        Ok(s.update(id as int, with_state(s[id as int], Status::Doing, s[id as int].job.result, Some(caller))))
    }
}

/// The outcome of `caller` submitting `result` for job `id`.
pub open spec fn spec_submit(
    s: Seq<JobRecord>,
    caller: AccountId,
    id: JobId,
    result: String,
) -> Result<Seq<JobRecord>, JobError> {
    if id >= s.len() {
        Err(JobError::JobNotFound)
    } else if s[id as int].job.status != Status::Doing {
        Err(JobError::InvalidTransition)
    } else if s[id as int].worker != Some(caller) {
        Err(JobError::NotAssignedWorker)
    } else {
        Ok(s.update(id as int, with_state(s[id as int], Status::Review, Some(result), s[id as int].worker)))
    }
}

/// The outcome of `caller` rejecting the submitted result of job `id`.
pub open spec fn spec_reject(s: Seq<JobRecord>, caller: AccountId, id: JobId) -> Result<
    Seq<JobRecord>,
    JobError,
> {
    if id >= s.len() {
        Err(JobError::JobNotFound)
    } else if s[id as int].job.status != Status::Review {
        Err(JobError::InvalidTransition)
    } else if s[id as int].owner != caller {
        Err(JobError::NotOwner)
    } else {
        Ok(s.update(id as int, with_state(s[id as int], Status::Reopen, None, None)))
    }
}

/// The payout owed if `caller` approves job `id`.
pub open spec fn spec_payout(s: Seq<JobRecord>, caller: AccountId, id: JobId) -> Result<
    Payout,
    JobError,
> {
    if id >= s.len() {
        Err(JobError::JobNotFound)
    } else if s[id as int].job.status != Status::Review {
        Err(JobError::InvalidTransition)
    } else if s[id as int].owner != caller {
        Err(JobError::NotOwner)
    } else {
        Ok(Payout { to: s[id as int].worker.unwrap(), amount: s[id as int].job.budget })
    }
}

/// The outcome of `caller` approving job `id`, where `transferred` tells
/// whether the host released the escrow.
pub open spec fn spec_aproval(
    s: Seq<JobRecord>,
    caller: AccountId,
    id: JobId,
    transferred: bool,
) -> Result<(Seq<JobRecord>, Payout), JobError> {
    match spec_payout(s, caller, id) {
        Err(e) => Err(e),
        Ok(p) => if !transferred {
            Err(JobError::EscrowTransferFailed)
        } else {
            Ok(
                (
                    s.update(
                        id as int,
                        with_state(s[id as int], Status::Finish, s[id as int].job.result, s[id as int].worker),
                    ),
                    p,
                ),
            )
        },
    }
}

} // verus!
