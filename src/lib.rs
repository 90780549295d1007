//! A job marketplace ledger: jobs are posted with an escrowed payment,
//! claimed by one worker at a time, submitted for review and then either
//! paid out or reopened by their owner.

pub mod account;
pub mod freelancer;
pub mod job;
pub mod laws;

pub use account::AccountId;
pub use freelancer::Freelancer;
pub use job::{Balance, Job, JobError, JobId, JobRecord, Payout, Status};
