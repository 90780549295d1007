use crate::account::AccountId;
use crate::job::{
    budgets_kept, busy, escrow_of, in_progress, is_active_for, open_jobs, record_wf, records_wf,
    spec_aproval, spec_create, spec_obtain, spec_payout, spec_reject, spec_submit, with_state, Balance,
    Job, JobError, JobId, JobRecord, Payout, Status,
};
use vstd::prelude::*;

verus! {

/// The job ledger: every job ever posted, indexed by its id.
pub struct Freelancer {
    records: Vec<JobRecord>,
}

impl View for Freelancer {
    type V = Seq<JobRecord>;

    closed spec fn view(&self) -> Seq<JobRecord> {
        self.records@
    }
}

impl Freelancer {
    /// The ledger is consistent.
    pub open spec fn wf(&self) -> bool {
        records_wf(self@)
    }

    /// An empty ledger.
    pub fn new() -> (r: Freelancer)
        ensures
            r.wf(),
            r@ == Seq::<JobRecord>::empty(),
    {
        Freelancer { records: Vec::new() }
    }

    /// Restores a ledger from persisted records, which are accepted only if
    /// they are consistent.
    pub fn from_records(records: Vec<JobRecord>) -> (r: Option<Freelancer>)
        ensures
            r is Some == records_wf(records@),
            r matches Some(f) ==> f@ == records@ && f.wf(),
    {
        if consistent(&records) {
            Some(Freelancer { records })
        } else {
            None
        }
    }

    /// Every record of the ledger, indexed by job id.
    pub fn records(&self) -> (r: &Vec<JobRecord>)
        ensures
            r@ == self@,
    {
        &self.records
    }

    /// The id the next posted job will receive.
    pub fn next_job_id(&self) -> (r: JobId)
        ensures
            r == self@.len(),
    {
        proof {
            assert(self@ == self.records@);
        }
        self.records.len() as JobId
    }

    /// Posts a job on behalf of `caller`, holding `payment` in escrow for it.
    pub fn create(&mut self, caller: AccountId, name: String, description: String, payment: Balance) -> (r: JobId)
        requires
            old(self).wf(),
            old(self)@.len() < usize::MAX,
        ensures
            final(self).wf(),
            r == old(self)@.len(),
            final(self)@ == spec_create(old(self)@, caller, name, description, payment),
            final(self)@[r as int].job.budget == payment,
            final(self)@[r as int].job.status == Status::Open,
            budgets_kept(old(self)@, final(self)@),
    {
        let id = self.records.len() as JobId;
        let job = Job { name, description, result: None, status: Status::Open, budget: payment };
        self.records.push(JobRecord { job, owner: caller, worker: None });
        proof {
            let s = self@;
            assert(forall|i: int| 0 <= i < s.len() - 1 ==> s[i] == old(self)@[i]);
            assert(record_wf(s[s.len() - 1]));
        }
        id
    }

    /// Assigns job `job_id` to `caller`, who must not be working on another job.
    pub fn obtain(&mut self, caller: AccountId, job_id: JobId) -> (r: Result<(), JobError>)
        requires
            old(self).wf(),
        ensures
            final(self).wf(),
            budgets_kept(old(self)@, final(self)@),
            match spec_obtain(old(self)@, caller, job_id) {
                Ok(s) => r is Ok && final(self)@ == s,
                Err(e) => r == Err::<(), JobError>(e) && final(self)@ == old(self)@,
            },
    {
        if job_id >= self.records.len() as JobId {
            return Err(JobError::JobNotFound);
        }
        let i = job_id as usize;
        let free = match self.records[i].job.status {
            Status::Open | Status::Reopen => true,
            _ => false,
        };
        if !free {
            return Err(JobError::NotAssignable);
        }
        if self.active_job(&caller).is_some() {
            return Err(JobError::WorkerBusy);
        }
        self.records[i].job.status = Status::Doing;
        self.records[i].worker = Some(caller);
        proof {
            let s = self@;
            let o = old(self)@;
            assert(s =~= o.update(i as int, with_state(o[i as int], Status::Doing, o[i as int].job.result, Some(caller))));
            assert forall|a: int, b: int|
                0 <= a < s.len() && 0 <= b < s.len() && a != b && in_progress(#[trigger] s[a].job.status)
                    && in_progress(#[trigger] s[b].job.status) implies s[a].worker != s[b].worker by {
                if a == i {
                    assert(!is_active_for(o[b], caller));
                } else if b == i {
                    assert(!is_active_for(o[a], caller));
                }
            }
            assert forall|k: int| 0 <= k < s.len() implies #[trigger] record_wf(s[k]) by {
                assert(record_wf(o[k]));
                if k != i {
                    assert(s[k] == o[k]);
                }
            }
        }
        Ok(())
    }

    /// Records `result` for job `job_id`, submitted by its assigned worker.
    pub fn submit(&mut self, caller: AccountId, job_id: JobId, result: String) -> (r: Result<(), JobError>)
        requires
            old(self).wf(),
        ensures
            final(self).wf(),
            budgets_kept(old(self)@, final(self)@),
            match spec_submit(old(self)@, caller, job_id, result) {
                Ok(s) => r is Ok && final(self)@ == s,
                Err(e) => r == Err::<(), JobError>(e) && final(self)@ == old(self)@,
            },
    {
        if job_id >= self.records.len() as JobId {
            return Err(JobError::JobNotFound);
        }
        let i = job_id as usize;
        if self.records[i].job.status != Status::Doing {
            return Err(JobError::InvalidTransition);
        }
        let assigned = match &self.records[i].worker {
            Some(w) => w.same_as(&caller),
            None => false,
        };
        if !assigned {
            return Err(JobError::NotAssignedWorker);
        }
        self.records[i].job.status = Status::Review;
        self.records[i].job.result = Some(result);
        proof {
            let s = self@;
            let o = old(self)@;
            assert(s =~= o.update(i as int, with_state(o[i as int], Status::Review, Some(result), o[i as int].worker)));
            assert forall|k: int| 0 <= k < s.len() implies #[trigger] record_wf(s[k]) by {
                assert(record_wf(o[k]));
                if k != i {
                    assert(s[k] == o[k]);
                }
            }
            assert forall|a: int, b: int|
                0 <= a < s.len() && 0 <= b < s.len() && a != b && in_progress(#[trigger] s[a].job.status)
                    && in_progress(#[trigger] s[b].job.status) implies s[a].worker != s[b].worker by {
                assert(in_progress(o[a].job.status) && in_progress(o[b].job.status));
            }
        }
        Ok(())
    }

    /// Sends job `job_id` back for rework: its owner refused the submitted
    /// result. The worker is released and the escrow stays held.
    pub fn reject(&mut self, caller: AccountId, job_id: JobId) -> (r: Result<(), JobError>)
        requires
            old(self).wf(),
        ensures
            final(self).wf(),
            budgets_kept(old(self)@, final(self)@),
            match spec_reject(old(self)@, caller, job_id) {
                Ok(s) => r is Ok && final(self)@ == s,
                Err(e) => r == Err::<(), JobError>(e) && final(self)@ == old(self)@,
            },
    {
        if job_id >= self.records.len() as JobId {
            return Err(JobError::JobNotFound);
        }
        let i = job_id as usize;
        if self.records[i].job.status != Status::Review {
            return Err(JobError::InvalidTransition);
        }
        if !self.records[i].owner.same_as(&caller) {
            return Err(JobError::NotOwner);
        }
        self.records[i].job.status = Status::Reopen;
        self.records[i].job.result = None;
        self.records[i].worker = None;
        proof {
            let s = self@;
            let o = old(self)@;
            assert(s =~= o.update(i as int, with_state(o[i as int], Status::Reopen, None, None)));
            assert forall|k: int| 0 <= k < s.len() implies #[trigger] record_wf(s[k]) by {
                assert(record_wf(o[k]));
                if k != i {
                    assert(s[k] == o[k]);
                }
            }
            assert forall|a: int, b: int|
                0 <= a < s.len() && 0 <= b < s.len() && a != b && in_progress(#[trigger] s[a].job.status)
                    && in_progress(#[trigger] s[b].job.status) implies s[a].worker != s[b].worker by {
                assert(in_progress(o[a].job.status) && in_progress(o[b].job.status));
            }
        }
        Ok(())
    }

    /// The release of escrow that approving job `job_id` by `caller` calls
    /// for; the ledger is left as it is.
    pub fn payout(&self, caller: AccountId, job_id: JobId) -> (r: Result<Payout, JobError>)
        requires
            self.wf(),
        ensures
            r == spec_payout(self@, caller, job_id),
    {
        proof {
            assert(self@ == self.records@);
        }
        if job_id >= self.records.len() as JobId {
            return Err(JobError::JobNotFound);
        }
        let i = job_id as usize;
        let rec = &self.records[i];
        if rec.job.status != Status::Review {
            return Err(JobError::InvalidTransition);
        }
        if !rec.owner.same_as(&caller) {
            return Err(JobError::NotOwner);
        }
        proof {
            assert(record_wf(self@[i as int]));
        }
        match rec.worker {
            Some(w) => Ok(Payout { to: w, amount: rec.job.budget }),
            None => Err(JobError::InvalidTransition),
        }
    }

    /// Approves the submitted result of job `job_id`. `transferred` tells
    /// whether the host released the escrow to the worker named by
    /// [`Freelancer::payout`]; only then does the job become `Finish`, and
    /// otherwise the ledger is left as it was.
    pub fn aproval(&mut self, caller: AccountId, job_id: JobId, transferred: bool) -> (r: Result<Payout, JobError>)
        requires
            old(self).wf(),
        ensures
            final(self).wf(),
            budgets_kept(old(self)@, final(self)@),
            match spec_aproval(old(self)@, caller, job_id, transferred) {
                Ok((s, p)) => r == Ok::<Payout, JobError>(p) && final(self)@ == s,
                Err(e) => r == Err::<Payout, JobError>(e) && final(self)@ == old(self)@,
            },
    {
        proof {
            assert(self@ == self.records@);
        }
        let res = self.payout(caller, job_id);
        let p = match res {
            Ok(p) => p,
            Err(e) => {
                return Err(e);
            },
        };
        let n: usize = self.records.len();
        assert(job_id < n);
        if !transferred {
            return Err(JobError::EscrowTransferFailed);
        }
        let i = job_id as usize;
        self.records[i].job.status = Status::Finish;
        proof {
            assert(record_wf(old(self)@[i as int]));
            let s = self@;
            let o = old(self)@;
            assert(s =~= o.update(
                i as int,
                with_state(o[i as int], Status::Finish, o[i as int].job.result, o[i as int].worker),
            ));
            assert forall|k: int| 0 <= k < s.len() implies #[trigger] record_wf(s[k]) by {
                assert(record_wf(o[k]));
                if k != i {
                    assert(s[k] == o[k]);
                }
            }
            assert forall|a: int, b: int|
                0 <= a < s.len() && 0 <= b < s.len() && a != b && in_progress(#[trigger] s[a].job.status)
                    && in_progress(#[trigger] s[b].job.status) implies s[a].worker != s[b].worker by {
                assert(in_progress(o[a].job.status) && in_progress(o[b].job.status));
            }
        }
        Ok(p)
    }

    /// Copies of every job that may currently be obtained (`Open` or
    /// `Reopen`), in ascending id order.
    pub fn get_open_jobs(&self) -> (r: Vec<Job>)
        ensures
            r@ == open_jobs(self@),
    {
        proof {
            assert(self@ == self.records@);
        }
        let mut jobs: Vec<Job> = Vec::new();
        let mut i: usize = 0;
        while i < self.records.len()
            invariant
                0 <= i <= self.records@.len(),
                self@ == self.records@,
                jobs@ == open_jobs(self@.take(i as int)),
            decreases self.records@.len() - i,
        {
            let job = &self.records[i].job;
            proof {
                assert(self@.take(i + 1).drop_last() =~= self@.take(i as int));
            }
            match job.status {
                Status::Open | Status::Reopen => {
                    jobs.push(job.duplicate());
                },
                _ => {},
            }
            i = i + 1;
        }
        proof {
            assert(self@.take(i as int) =~= self@);
        }
        jobs
    }

    /// The job stored under `job_id`.
    pub fn job(&self, job_id: JobId) -> (r: Result<&Job, JobError>)
        ensures
            job_id < self@.len() ==> (r matches Ok(j) && *j == self@[job_id as int].job),
            job_id >= self@.len() ==> r == Err::<&Job, JobError>(JobError::JobNotFound),
    {
        proof {
            assert(self@ == self.records@);
        }
        if job_id >= self.records.len() as JobId {
            return Err(JobError::JobNotFound);
        }
        Ok(&self.records[job_id as usize].job)
    }

    /// The account that posted job `job_id`.
    pub fn owner_of(&self, job_id: JobId) -> (r: Result<AccountId, JobError>)
        ensures
            job_id < self@.len() ==> r == Ok::<AccountId, JobError>(self@[job_id as int].owner),
            job_id >= self@.len() ==> r == Err::<AccountId, JobError>(JobError::JobNotFound),
    {
        proof {
            assert(self@ == self.records@);
        }
        if job_id >= self.records.len() as JobId {
            return Err(JobError::JobNotFound);
        }
        Ok(self.records[job_id as usize].owner)
    }

    /// The worker assigned to job `job_id`; after approval, the worker who did it.
    pub fn assigned_worker(&self, job_id: JobId) -> (r: Result<Option<AccountId>, JobError>)
        ensures
            job_id < self@.len() ==> r == Ok::<Option<AccountId>, JobError>(self@[job_id as int].worker),
            job_id >= self@.len() ==> r == Err::<Option<AccountId>, JobError>(JobError::JobNotFound),
    {
        proof {
            assert(self@ == self.records@);
        }
        if job_id >= self.records.len() as JobId {
            return Err(JobError::JobNotFound);
        }
        Ok(self.records[job_id as usize].worker)
    }

    /// The amount held in escrow for job `job_id`: its budget until it is
    /// approved, nothing afterwards.
    pub fn escrowed(&self, job_id: JobId) -> (r: Result<Balance, JobError>)
        ensures
            job_id < self@.len() ==> r == Ok::<Balance, JobError>(escrow_of(self@[job_id as int])),
            job_id >= self@.len() ==> r == Err::<Balance, JobError>(JobError::JobNotFound),
    {
        proof {
            assert(self@ == self.records@);
        }
        if job_id >= self.records.len() as JobId {
            return Err(JobError::JobNotFound);
        }
        let job = &self.records[job_id as usize].job;
        if job.status == Status::Finish {
            Ok(0)
        } else {
            Ok(job.budget)
        }
    }

    /// Finds the job that `worker` is active on, if any.
    pub fn active_job(&self, worker: &AccountId) -> (r: Option<JobId>)
        requires
            self.wf(),
        ensures
            r.is_none() == !busy(self@, *worker),
            r matches Some(id) ==> id < self@.len() && is_active_for(self@[id as int], *worker),
    {
        proof {
            assert(self@ == self.records@);
        }
        let mut i: usize = 0;
        while i < self.records.len()
            invariant
                0 <= i <= self.records@.len(),
                self@ == self.records@,
                forall|k: int| 0 <= k < i ==> !#[trigger] is_active_for(self.records@[k], *worker),
            decreases self.records@.len() - i,
        {
            let rec = &self.records[i];
            let active = match rec.job.status {
                Status::Doing | Status::Review => true,
                _ => false,
            };
            if active {
                match &rec.worker {
                    Some(w) => {
                        if w.same_as(worker) {
                            assert(is_active_for(self@[i as int], *worker));
                            return Some(i as JobId);
                        }
                    },
                    None => {},
                }
            }
            assert(!is_active_for(self.records@[i as int], *worker));
            i = i + 1;
        }
        None
    }
}

/// The record is consistent on its own.
fn record_consistent(r: &JobRecord) -> (b: bool)
    ensures
        b == record_wf(*r),
{
    let (bound, reviewed) = match r.job.status {
        Status::Open | Status::Reopen => (false, false),
        Status::Doing => (true, false),
        Status::Review | Status::Finish => (true, true),
    };
    bound == r.worker.is_some() && reviewed == r.job.result.is_some()
}

/// Every record is consistent and no two jobs in progress share a worker.
fn consistent(s: &Vec<JobRecord>) -> (b: bool)
    ensures
        b == records_wf(s@),
{
    let n = s.len();
    let mut i: usize = 0;
    while i < n
        invariant
            n == s@.len(),
            0 <= i <= n,
            forall|k: int| 0 <= k < i ==> #[trigger] record_wf(s@[k]),
            forall|a: int, b: int|
                0 <= a < i && 0 <= b < n && a != b && in_progress(#[trigger] s@[a].job.status)
                    && in_progress(#[trigger] s@[b].job.status) ==> s@[a].worker != s@[b].worker,
        decreases n - i,
    {
        if !record_consistent(&s[i]) {
            return false;
        }
        let busy_i = match s[i].job.status {
            Status::Doing | Status::Review => true,
            _ => false,
        };
        let mut j: usize = 0;
        while j < n
            invariant
                n == s@.len(),
                0 <= i < n,
                0 <= j <= n,
                record_wf(s@[i as int]),
                busy_i == in_progress(s@[i as int].job.status),
                busy_i ==> forall|b: int|
                    0 <= b < j && b != i && in_progress(#[trigger] s@[b].job.status) ==> s@[i as int].worker
                        != s@[b].worker,
            decreases n - j,
        {
            if busy_i && j != i {
                let busy_j = match s[j].job.status {
                    Status::Doing | Status::Review => true,
                    _ => false,
                };
                if busy_j {
                    let same = match (&s[i].worker, &s[j].worker) {
                        (Some(x), Some(y)) => x.same_as(y),
                        (None, None) => true,
                        _ => false,
                    };
                    if same {
                        assert(!records_wf(s@)) by {
                            assert(in_progress(s@[i as int].job.status));
                            assert(in_progress(s@[j as int].job.status));
                        }
                        return false;
                    }
                }
            }
            j = j + 1;
        }
        i = i + 1;
    }
    true
}

} // verus!
