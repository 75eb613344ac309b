use vstd::prelude::*;

use crate::errors::uuid_nibble;

verus! {

#[verifier::external_type_specification]
#[verifier::external_body]
pub struct ExJsonValue(serde_json::Value);

/// Copies a JSON value with `serde_json::Value`'s `Clone`.
///
/// Trusted: the clone is assumed equal to its source. `Value`'s `Clone` is
/// derived, so the copy holds the same tree of data.
#[verifier::external_body]
pub(crate) fn clone_value(v: &serde_json::Value) -> (res: serde_json::Value)
    ensures
        res == *v,
{
    v.clone()
}

/// Lifecycle state of a job.
#[derive(Debug, Clone, Copy, PartialEq, Eq, Structural)]
pub enum JobStatus {
    Queued,
    Processing,
    Done,
    Failed,
    DeadLetter,
}

/// An instant in UTC: whole seconds since the Unix epoch and the nanoseconds
/// past that second (which exceed 999,999,999 only inside a leap second).
#[derive(Debug, Clone, Copy, PartialEq, Eq, Structural)]
pub struct Timestamp {
    pub secs: i64,
    pub nanos: u32,
}

impl Timestamp {
    /// `self` comes strictly before `other`.
    pub open spec fn spec_before(self, other: Timestamp) -> bool {
        self.secs < other.secs || (self.secs == other.secs && self.nanos < other.nanos)
    }

    pub fn is_before(&self, other: &Timestamp) -> (res: bool)
        ensures
            res == self.spec_before(*other),
    {
        self.secs < other.secs || (self.secs == other.secs && self.nanos < other.nanos)
    }
}

/// A unit of work waiting in, or taken from, a named queue.
#[derive(Debug)]
pub struct Job {
    pub id: u128,
    pub queue: String,
    pub payload: serde_json::Value,
    pub status: JobStatus,
    pub priority: u8,
    pub retry_count: u32,
    pub max_retries: u32,
    pub created_at: Timestamp,
    pub scheduled_at: Option<Timestamp>,
    pub lease_expires_at: Option<Timestamp>,
    pub visibility_timeout_secs: u64,
    pub result: Option<serde_json::Value>,
    pub error: Option<String>,
}

impl Clone for Job {
    fn clone(&self) -> (res: Self)
        ensures
            res == *self,
    {
        let result = match &self.result {
            Some(v) => Some(clone_value(v)),
            None => None,
        };
        let error = match &self.error {
            Some(e) => Some(e.clone()),
            None => None,
        };
        Job {
            id: self.id,
            queue: self.queue.clone(),
            payload: clone_value(&self.payload),
            status: self.status,
            priority: self.priority,
            retry_count: self.retry_count,
            max_retries: self.max_retries,
            created_at: self.created_at,
            scheduled_at: self.scheduled_at,
            lease_expires_at: self.lease_expires_at,
            visibility_timeout_secs: self.visibility_timeout_secs,
            result,
            error,
        }
    }
}

/// A fresh random job id: the 128-bit value of `uuid::Uuid::new_v4()`.
///
/// Trusted: the version digit (the 13th hexadecimal digit) is 4 and the
/// variant bits (the top two bits of the 17th digit) are `10`, as
/// `new_v4` sets them; the other bits are random and nothing is claimed of
/// them.
#[verifier::external_body]
fn random_job_id() -> (res: u128)
    ensures
        uuid_nibble(res, 12) == 4,
        8 <= uuid_nibble(res, 16) < 12,
{
    uuid::Uuid::new_v4().as_u128()
}

/// The current time: the system clock read by `std::time::SystemTime::now()`
/// and converted by chrono's `From<SystemTime> for DateTime<Utc>`.
///
/// Trusted: the nanoseconds part is below one billion; chrono builds the
/// value from the clock's offset to the Unix epoch, as a negative timestamp
/// when the clock reads before 1970. The conversion fails only for a clock
/// more than 262,000 years away from 1970.
#[verifier::external_body]
fn current_time() -> (res: Timestamp)
    ensures
        res.nanos < 1_000_000_000,
{
    let now = chrono::DateTime::<chrono::Utc>::from(std::time::SystemTime::now());
    Timestamp { secs: now.timestamp(), nanos: now.timestamp_subsec_nanos() }
}

impl Job {
    /// The settings every new job starts with: queued, priority 0, no retries
    /// made out of 3 allowed, a 30 second visibility timeout, not scheduled,
    /// not leased, and no result or error.
    pub open spec fn has_new_job_defaults(self) -> bool {
        &&& self.status == JobStatus::Queued
        &&& self.priority == 0
        &&& self.retry_count == 0
        &&& self.max_retries == 3
        &&& self.scheduled_at is None
        &&& self.lease_expires_at is None
        &&& self.visibility_timeout_secs == 30
        &&& self.result is None
        &&& self.error is None
    }

    /// A new job for `queue` with a random version-4 UUID as id, created now.
    pub fn new(queue: &str, payload: serde_json::Value) -> (res: Job)
        ensures
            uuid_nibble(res.id, 12) == 4,
            8 <= uuid_nibble(res.id, 16) < 12,
            res.queue@ == queue@,
            res.payload == payload,
            res.has_new_job_defaults(),
            res.created_at.nanos < 1_000_000_000,
    {
        let id = random_job_id();
        let created_at = current_time();
        Job::new_at(id, queue, payload, created_at)
    }

    /// A new job for `queue` with the given id and creation time.
    pub fn new_at(id: u128, queue: &str, payload: serde_json::Value, created_at: Timestamp) -> (res:
        Job)
        ensures
            res.id == id,
            res.queue@ == queue@,
            res.payload == payload,
            res.created_at == created_at,
            res.has_new_job_defaults(),
    {
        Job {
            id,
            queue: queue.to_owned(),
            payload,
            status: JobStatus::Queued,
            priority: 0,
            retry_count: 0,
            max_retries: 3,
            created_at,
            scheduled_at: None,
            lease_expires_at: None,
            visibility_timeout_secs: 30,
            result: None,
            error: None,
        }
    }

    pub fn is_queued(&self) -> (res: bool)
        ensures
            res == (self.status == JobStatus::Queued),
    {
        self.status == JobStatus::Queued
    }

    pub fn is_processing(&self) -> (res: bool)
        ensures
            res == (self.status == JobStatus::Processing),
    {
        self.status == JobStatus::Processing
    }

    pub fn is_done(&self) -> (res: bool)
        ensures
            res == (self.status == JobStatus::Done),
    {
        self.status == JobStatus::Done
    }

    pub fn is_failed(&self) -> (res: bool)
        ensures
            res == (self.status == JobStatus::Failed),
    {
        self.status == JobStatus::Failed
    }

    pub fn is_dead_letter(&self) -> (res: bool)
        ensures
            res == (self.status == JobStatus::DeadLetter),
    {
        self.status == JobStatus::DeadLetter
    }

    /// The lease has a deadline and `now` is past it.
    pub open spec fn lease_expired_at(self, now: Timestamp) -> bool {
        match self.lease_expires_at {
            Some(deadline) => deadline.spec_before(now),
            None => false,
        }
    }

    /// Whether the lease has expired at the instant `now`.
    pub fn is_lease_expired_at(&self, now: &Timestamp) -> (res: bool)
        ensures
            res == self.lease_expired_at(*now),
    {
        match &self.lease_expires_at {
            Some(deadline) => deadline.is_before(now),
            None => false,
        }
    }

    /// Whether the lease has expired by the current time. A job without a
    /// lease deadline never has.
    pub fn is_lease_expired(&self) -> (res: bool)
        ensures
            self.lease_expires_at is None ==> !res,
            exists|now: Timestamp|
                now.nanos < 1_000_000_000 && res == #[trigger] self.lease_expired_at(now),
    {
        let now = current_time();
        self.is_lease_expired_at(&now)
    }
}

/// Each status makes exactly one of the status predicates true.
pub proof fn law_one_status_holds(status: JobStatus)
    ensures
        (if status == JobStatus::Queued { 1int } else { 0 }) + (if status == JobStatus::Processing {
            1int
        } else {
            0
        }) + (if status == JobStatus::Done { 1int } else { 0 }) + (if status == JobStatus::Failed {
            1int
        } else {
            0
        }) + (if status == JobStatus::DeadLetter { 1int } else { 0 }) == 1,
{
}

/// A new job is queued, has retries left and holds no lease that could
/// expire.
pub proof fn law_new_job_is_ready(job: Job, now: Timestamp)
    requires
        job.has_new_job_defaults(),
    ensures
        job.status == JobStatus::Queued,
        job.retry_count < job.max_retries,
        !job.lease_expired_at(now),
{
}

/// Whether a lease has expired at an instant depends only on the deadline:
/// it has when a deadline is set and lies strictly before the instant,
/// whatever the job's status or other fields.
pub proof fn law_lease_expiry_is_deadline_before(job: Job, other: Job, now: Timestamp)
    requires
        other.lease_expires_at == job.lease_expires_at,
    ensures
        job.lease_expired_at(now) <==> (job.lease_expires_at matches Some(d) && (d.secs < now.secs
            || (d.secs == now.secs && d.nanos < now.nanos))),
        other.lease_expired_at(now) == job.lease_expired_at(now),
{
}

/// Once a lease has expired it stays expired as time goes on.
pub proof fn law_lease_expiry_persists(job: Job, earlier: Timestamp, later: Timestamp)
    requires
        job.lease_expired_at(earlier),
        !later.spec_before(earlier),
    ensures
        job.lease_expired_at(later),
{
}

/// Settings of one queue.
#[derive(Debug, Clone, PartialEq, Eq)]
pub struct QueueConfig {
    pub visibility_timeout_secs: u64,
    pub max_retries: u32,
    pub max_concurrency: Option<usize>,
    pub dead_letter_queue: Option<String>,
}

impl QueueConfig {
    /// The settings a queue has unless told otherwise: a 30 second visibility
    /// timeout, 3 retries, no concurrency limit and no dead letter queue.
    pub open spec fn spec_default() -> QueueConfig {
        QueueConfig {
            visibility_timeout_secs: 30,
            max_retries: 3,
            max_concurrency: None,
            dead_letter_queue: None,
        }
    }

    /// A builder that starts from the default settings.
    pub fn builder() -> (res: QueueConfigBuilder)
        ensures
            res@ == QueueConfig::spec_default(),
    {
        QueueConfigBuilder {
            visibility_timeout_secs: 30,
            max_retries: 3,
            max_concurrency: None,
            dead_letter_queue: None,
        }
    }
}

impl Default for QueueConfig {
    fn default() -> (res: Self)
        ensures
            res == QueueConfig::spec_default(),
    {
        QueueConfig {
            visibility_timeout_secs: 30,
            max_retries: 3,
            max_concurrency: None,
            dead_letter_queue: None,
        }
    }
}

/// Step-by-step construction of a `QueueConfig`.
pub struct QueueConfigBuilder {
    visibility_timeout_secs: u64,
    max_retries: u32,
    max_concurrency: Option<usize>,
    dead_letter_queue: Option<String>,
}

impl View for QueueConfigBuilder {
    type V = QueueConfig;

    /// The settings gathered so far.
    closed spec fn view(&self) -> QueueConfig {
        QueueConfig {
            visibility_timeout_secs: self.visibility_timeout_secs,
            max_retries: self.max_retries,
            max_concurrency: self.max_concurrency,
            dead_letter_queue: self.dead_letter_queue,
        }
    }
}

impl QueueConfigBuilder {
    pub fn visibility_timeout_secs(self, secs: u64) -> (res: Self)
        ensures
            res@ == (QueueConfig { visibility_timeout_secs: secs, ..self@ }),
    {
        let mut builder = self;
        builder.visibility_timeout_secs = secs;
        builder
    }

    pub fn max_retries(self, retries: u32) -> (res: Self)
        ensures
            res@ == (QueueConfig { max_retries: retries, ..self@ }),
    {
        let mut builder = self;
        builder.max_retries = retries;
        builder
    }

    pub fn max_concurrency(self, concurrency: Option<usize>) -> (res: Self)
        ensures
            res@ == (QueueConfig { max_concurrency: concurrency, ..self@ }),
    {
        let mut builder = self;
        builder.max_concurrency = concurrency;
        builder
    }

    /// The configuration gathered so far.
    pub fn build(self) -> (res: QueueConfig)
        ensures
            res == self@,
    {
        QueueConfig {
            visibility_timeout_secs: self.visibility_timeout_secs,
            max_retries: self.max_retries,
            max_concurrency: self.max_concurrency,
            dead_letter_queue: self.dead_letter_queue,
        }
    }
}

} // verus!
