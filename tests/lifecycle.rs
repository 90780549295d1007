use freelancer::{AccountId, Freelancer, JobError, Payout, Status};

fn account(b: u8) -> AccountId {
    AccountId([b; 32])
}

fn posted(owner: AccountId, payment: u128) -> (Freelancer, u128) {
    let mut ledger = Freelancer::new();
    let id = ledger.create(owner, "A".to_string(), "d".to_string(), payment);
    (ledger, id)
}

#[test]
fn create_then_approve_pays_worker() {
    let owner = account(1);
    let w = account(2);
    let (mut ledger, id) = posted(owner, 100);
    assert_eq!(id, 0);
    assert_eq!(ledger.job(0).unwrap().status, Status::Open);
    assert_eq!(ledger.job(0).unwrap().budget, 100);

    assert_eq!(ledger.obtain(w, 0), Ok(()));
    assert_eq!(ledger.job(0).unwrap().status, Status::Doing);
    assert_eq!(ledger.assigned_worker(0), Ok(Some(w)));

    assert_eq!(ledger.submit(w, 0, "done".to_string()), Ok(()));
    assert_eq!(ledger.job(0).unwrap().status, Status::Review);
    assert_eq!(ledger.job(0).unwrap().result, Some("done".to_string()));

    let expected = Payout { to: w, amount: 100 };
    assert_eq!(ledger.payout(owner, 0), Ok(expected));
    assert_eq!(ledger.aproval(owner, 0, true), Ok(expected));
    assert_eq!(ledger.job(0).unwrap().status, Status::Finish);
    assert_eq!(ledger.job(0).unwrap().budget, 100);
    assert_eq!(ledger.escrowed(0), Ok(0));
    assert_eq!(ledger.active_job(&w), None);
}

#[test]
fn create_then_reject_reopens() {
    let owner = account(1);
    let w = account(2);
    let (mut ledger, _) = posted(owner, 100);
    ledger.obtain(w, 0).unwrap();
    ledger.submit(w, 0, "done".to_string()).unwrap();
    assert_eq!(ledger.active_job(&w), Some(0));

    assert_eq!(ledger.reject(owner, 0), Ok(()));
    assert_eq!(ledger.job(0).unwrap().status, Status::Reopen);
    assert_eq!(ledger.assigned_worker(0), Ok(None));
    assert_eq!(ledger.active_job(&w), None);
    assert_eq!(ledger.job(0).unwrap().result, None);
    assert_eq!(ledger.job(0).unwrap().budget, 100);
    assert_eq!(ledger.escrowed(0), Ok(100));
}

#[test]
fn reopened_job_is_listed_again() {
    let owner = account(1);
    let w = account(2);
    let (mut ledger, _) = posted(owner, 100);
    assert_eq!(ledger.get_open_jobs().len(), 1);
    ledger.obtain(w, 0).unwrap();
    assert!(ledger.get_open_jobs().is_empty());
    ledger.submit(w, 0, "done".to_string()).unwrap();
    assert!(ledger.get_open_jobs().is_empty());
    ledger.reject(owner, 0).unwrap();
    let open = ledger.get_open_jobs();
    assert_eq!(open.len(), 1);
    assert_eq!(open[0].name, "A");
    assert_eq!(open[0].description, "d");
    assert_eq!(open[0].status, Status::Reopen);
    assert_eq!(open[0].budget, 100);
    assert_eq!(ledger.obtain(w, 0), Ok(()));
}

#[test]
fn open_jobs_in_id_order_without_finished() {
    let owner = account(1);
    let w = account(2);
    let mut ledger = Freelancer::new();
    for (i, name) in ["a", "b", "c"].iter().enumerate() {
        let id = ledger.create(owner, name.to_string(), String::new(), i as u128);
        assert_eq!(id, i as u128);
    }
    assert_eq!(ledger.next_job_id(), 3);
    ledger.obtain(w, 1).unwrap();
    ledger.submit(w, 1, "r".to_string()).unwrap();
    ledger.aproval(owner, 1, true).unwrap();
    let names: Vec<String> = ledger.get_open_jobs().into_iter().map(|j| j.name).collect();
    assert_eq!(names, vec!["a".to_string(), "c".to_string()]);
}

#[test]
fn empty_ledger_lists_nothing() {
    let ledger = Freelancer::new();
    assert!(ledger.get_open_jobs().is_empty());
    assert_eq!(ledger.next_job_id(), 0);
    assert_eq!(ledger.job(0).err(), Some(JobError::JobNotFound));
}

#[test]
fn zero_payment_job_is_valid() {
    let owner = account(1);
    let (ledger, id) = posted(owner, 0);
    assert_eq!(ledger.job(id).unwrap().budget, 0);
    assert_eq!(ledger.owner_of(id), Ok(owner));
}

#[test]
fn largest_payment_is_kept() {
    let (ledger, id) = posted(account(1), u128::MAX);
    assert_eq!(ledger.escrowed(id), Ok(u128::MAX));
}

#[test]
fn unknown_job_is_not_found() {
    let owner = account(1);
    let (mut ledger, _) = posted(owner, 5);
    assert_eq!(ledger.obtain(owner, 1), Err(JobError::JobNotFound));
    assert_eq!(ledger.submit(owner, 1, "x".to_string()), Err(JobError::JobNotFound));
    assert_eq!(ledger.reject(owner, 1), Err(JobError::JobNotFound));
    assert_eq!(ledger.payout(owner, 1), Err(JobError::JobNotFound));
    assert_eq!(ledger.aproval(owner, 1, true), Err(JobError::JobNotFound));
    assert_eq!(ledger.owner_of(1), Err(JobError::JobNotFound));
    assert_eq!(ledger.assigned_worker(1), Err(JobError::JobNotFound));
    assert_eq!(ledger.escrowed(1), Err(JobError::JobNotFound));
}

#[test]
fn obtain_refused_unless_open_or_reopen() {
    let owner = account(1);
    let w = account(2);
    let other = account(3);
    let (mut ledger, _) = posted(owner, 10);
    ledger.obtain(w, 0).unwrap();
    assert_eq!(ledger.obtain(other, 0), Err(JobError::NotAssignable));
    ledger.submit(w, 0, "r".to_string()).unwrap();
    assert_eq!(ledger.obtain(other, 0), Err(JobError::NotAssignable));
    ledger.aproval(owner, 0, true).unwrap();
    assert_eq!(ledger.obtain(other, 0), Err(JobError::NotAssignable));
    assert_eq!(ledger.obtain(w, 0), Err(JobError::NotAssignable));
}

#[test]
fn busy_worker_cannot_take_second_job() {
    let owner = account(1);
    let w = account(2);
    let mut ledger = Freelancer::new();
    ledger.create(owner, "x".to_string(), "y".to_string(), 1);
    ledger.create(owner, "z".to_string(), "y".to_string(), 2);
    ledger.obtain(w, 0).unwrap();
    assert_eq!(ledger.obtain(w, 1), Err(JobError::WorkerBusy));
    ledger.submit(w, 0, "r".to_string()).unwrap();
    assert_eq!(ledger.obtain(w, 1), Err(JobError::WorkerBusy));
    ledger.reject(owner, 0).unwrap();
    assert_eq!(ledger.obtain(w, 1), Ok(()));
    assert_eq!(ledger.active_job(&w), Some(1));
    assert_eq!(ledger.job(1).unwrap().status, Status::Doing);
}

#[test]
fn worker_free_after_finish() {
    let owner = account(1);
    let w = account(2);
    let mut ledger = Freelancer::new();
    ledger.create(owner, "x".to_string(), "y".to_string(), 1);
    ledger.create(owner, "z".to_string(), "y".to_string(), 2);
    ledger.obtain(w, 0).unwrap();
    ledger.submit(w, 0, "r".to_string()).unwrap();
    ledger.aproval(owner, 0, true).unwrap();
    assert_eq!(ledger.obtain(w, 1), Ok(()));
    assert_eq!(ledger.assigned_worker(0), Ok(Some(w)));
}

#[test]
fn submit_only_by_assigned_worker_while_doing() {
    let owner = account(1);
    let w = account(2);
    let other = account(3);
    let (mut ledger, _) = posted(owner, 10);
    assert_eq!(ledger.submit(w, 0, "r".to_string()), Err(JobError::InvalidTransition));
    ledger.obtain(w, 0).unwrap();
    assert_eq!(ledger.submit(other, 0, "r".to_string()), Err(JobError::NotAssignedWorker));
    assert_eq!(ledger.job(0).unwrap().result, None);
    ledger.submit(w, 0, "r".to_string()).unwrap();
    assert_eq!(ledger.submit(w, 0, "again".to_string()), Err(JobError::InvalidTransition));
}

#[test]
fn approve_and_reject_only_by_owner_under_review() {
    let owner = account(1);
    let w = account(2);
    let (mut ledger, _) = posted(owner, 10);
    assert_eq!(ledger.aproval(owner, 0, true), Err(JobError::InvalidTransition));
    assert_eq!(ledger.reject(owner, 0), Err(JobError::InvalidTransition));
    ledger.obtain(w, 0).unwrap();
    ledger.submit(w, 0, "r".to_string()).unwrap();
    assert_eq!(ledger.aproval(w, 0, true), Err(JobError::NotOwner));
    assert_eq!(ledger.reject(w, 0), Err(JobError::NotOwner));
    assert_eq!(ledger.payout(w, 0), Err(JobError::NotOwner));
    assert_eq!(ledger.job(0).unwrap().status, Status::Review);
}

#[test]
fn finished_job_refuses_further_actions() {
    let owner = account(1);
    let w = account(2);
    let (mut ledger, _) = posted(owner, 10);
    ledger.obtain(w, 0).unwrap();
    ledger.submit(w, 0, "r".to_string()).unwrap();
    ledger.aproval(owner, 0, true).unwrap();
    assert_eq!(ledger.submit(w, 0, "s".to_string()), Err(JobError::InvalidTransition));
    assert_eq!(ledger.reject(owner, 0), Err(JobError::InvalidTransition));
    assert_eq!(ledger.aproval(owner, 0, true), Err(JobError::InvalidTransition));
    assert_eq!(ledger.job(0).unwrap().budget, 10);
}

#[test]
fn failed_transfer_leaves_job_in_review() {
    let owner = account(1);
    let w = account(2);
    let (mut ledger, _) = posted(owner, 10);
    ledger.obtain(w, 0).unwrap();
    ledger.submit(w, 0, "r".to_string()).unwrap();
    assert_eq!(ledger.aproval(owner, 0, false), Err(JobError::EscrowTransferFailed));
    assert_eq!(ledger.job(0).unwrap().status, Status::Review);
    assert_eq!(ledger.escrowed(0), Ok(10));
    assert_eq!(ledger.active_job(&w), Some(0));
    assert_eq!(ledger.aproval(owner, 0, true), Ok(Payout { to: w, amount: 10 }));
}

#[test]
fn accounts_compare_by_bytes() {
    let mut bytes = [7u8; 32];
    let a = AccountId(bytes);
    assert!(a.same_as(&AccountId(bytes)));
    bytes[31] = 8;
    assert!(!a.same_as(&AccountId(bytes)));
}

#[test]
fn duplicate_copies_every_field() {
    let (mut ledger, _) = posted(account(1), 42);
    ledger.obtain(account(2), 0).unwrap();
    ledger.submit(account(2), 0, "out".to_string()).unwrap();
    let original = ledger.job(0).unwrap();
    assert_eq!(&original.duplicate(), original);
}
