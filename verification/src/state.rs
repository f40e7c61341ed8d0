//! The authoritative job and worker registry, mutated only by the single
//! coordination task in response to client requests and engine lifecycle
//! events.
//!
//! Job state machine: `Submitted` to `Finished` or `Failed`, both terminal.
//! Worker state machine: online to offline, terminal; a node that reconnects
//! is represented upstream as a new worker id, never by reviving an old one.
//! Ids are never reused within one server lifetime.

use vstd::prelude::*;
use crate::datetime::DateTime;

verus! {

pub type TaskId = u64;

pub type WorkerId = u64;

// ---------------------------------------------------------------------------
// Program definitions, jobs
// ---------------------------------------------------------------------------

/// What to run for a job: argument vector, environment, optional working
/// directory and optional stdout/stderr redirection paths (which may carry
/// job/task-id placeholders). Forwarded to the scheduling engine on submit.
pub struct ProgramDefinition {
    pub args: Vec<String>,
    pub env: Vec<(String, String)>,
    pub stdout: Option<String>,
    pub stderr: Option<String>,
    pub cwd: Option<String>,
}

/// The mathematical content of a program definition.
pub ghost struct ProgramDefinitionModel {
    pub args: Seq<Seq<char>>,
    pub env: Seq<(Seq<char>, Seq<char>)>,
    pub stdout: Option<Seq<char>>,
    pub stderr: Option<Seq<char>>,
    pub cwd: Option<Seq<char>>,
}

impl View for ProgramDefinition {
    type V = ProgramDefinitionModel;

    open spec fn view(&self) -> ProgramDefinitionModel {
        ProgramDefinitionModel {
            args: Seq::new(self.args@.len(), |i: int| self.args@[i]@),
            env: Seq::new(self.env@.len(), |i: int| (self.env@[i].0@, self.env@[i].1@)),
            stdout: match self.stdout {
                Option::Some(ref s) => Option::Some(s@),
                Option::None => Option::None,
            },
            stderr: match self.stderr {
                Option::Some(ref s) => Option::Some(s@),
                Option::None => Option::None,
            },
            cwd: match self.cwd {
                Option::Some(ref s) => Option::Some(s@),
                Option::None => Option::None,
            },
        }
    }
}

/// Lifecycle status of a job. `Submitted` is the only non-terminal status.
pub enum JobStatus {
    Submitted,
    Finished,
    Failed(String),
}

/// The mathematical content of a job status.
pub ghost enum JobStatusModel {
    Submitted,
    Finished,
    Failed(Seq<char>),
}

impl View for JobStatus {
    type V = JobStatusModel;

    open spec fn view(&self) -> JobStatusModel {
        match self {
            JobStatus::Submitted => JobStatusModel::Submitted,
            JobStatus::Finished => JobStatusModel::Finished,
            JobStatus::Failed(ref s) => JobStatusModel::Failed(s@),
        }
    }
}

/// One submitted unit of work. Created on a submit request, mutated only by
/// task lifecycle events, never deleted during a server's lifetime.
pub struct Job {
    pub task_id: TaskId,
    pub name: String,
    pub program: ProgramDefinition,
    pub status: JobStatus,
}

/// The mathematical content of a job.
pub ghost struct JobModel {
    pub task_id: TaskId,
    pub name: Seq<char>,
    pub program: ProgramDefinitionModel,
    pub status: JobStatusModel,
}

impl View for Job {
    type V = JobModel;

    open spec fn view(&self) -> JobModel {
        JobModel {
            task_id: self.task_id,
            name: self.name@,
            program: self.program@,
            status: self.status@,
        }
    }
}

// ---------------------------------------------------------------------------
// Workers
// ---------------------------------------------------------------------------

/// Engine-reported configuration of one worker process.
pub struct WorkerConfiguration {
    pub hostname: String,
    pub n_cpus: u32,
}

/// The mathematical content of a worker configuration.
pub ghost struct WorkerConfigurationModel {
    pub hostname: Seq<char>,
    pub n_cpus: u32,
}

impl View for WorkerConfiguration {
    type V = WorkerConfigurationModel;

    open spec fn view(&self) -> WorkerConfigurationModel {
        WorkerConfigurationModel { hostname: self.hostname@, n_cpus: self.n_cpus }
    }
}

/// One registered compute node. Online until a lost-worker event marks it
/// offline; the row is retained afterwards for historical listing.
pub struct Worker {
    worker_id: WorkerId,
    configuration: WorkerConfiguration,
    ended_at: Option<DateTime>,
}

/// The mathematical content of a worker row.
pub ghost struct WorkerModel {
    pub worker_id: WorkerId,
    pub configuration: WorkerConfigurationModel,
    pub ended_at: Option<DateTime>,
}

impl View for Worker {
    type V = WorkerModel;

    closed spec fn view(&self) -> WorkerModel {
        WorkerModel {
            worker_id: self.worker_id,
            configuration: self.configuration@,
            ended_at: self.ended_at,
        }
    }
}

impl Worker {
    /// A fresh, online worker row for an engine-reported worker.
    pub fn new(worker_id: WorkerId, configuration: WorkerConfiguration) -> (r: Worker)
        ensures
            r@ == (WorkerModel {
                worker_id,
                configuration: configuration@,
                ended_at: Option::<DateTime>::None,
            }),
    {
        Worker { worker_id, configuration, ended_at: None }
    }

    pub fn worker_id(&self) -> (r: WorkerId)
        ensures
            r == self@.worker_id,
    {
        self.worker_id
    }

    pub fn configuration(&self) -> (r: &WorkerConfiguration)
        ensures
            r@ == self@.configuration,
    {
        &self.configuration
    }

    pub fn ended_at(&self) -> (r: Option<DateTime>)
        ensures
            r == self@.ended_at,
    {
        self.ended_at
    }

    /// Mark the worker offline, recording when it was lost. Terminal: the
    /// row never comes back online.
    pub fn set_offline_state(&mut self, ended_at: DateTime)
        ensures
            final(self)@ == (WorkerModel { ended_at: Option::Some(ended_at), ..old(self)@ }),
    {
        self.ended_at = Some(ended_at);
    }
}

// ---------------------------------------------------------------------------
// Engine lifecycle events (the scheduling engine is an external
// collaborator; these mirror the events it emits)
// ---------------------------------------------------------------------------

/// A task reached its terminal successful state.
pub struct TaskUpdate {
    pub id: TaskId,
}

/// Diagnostic payload of a failed task.
pub struct TaskFailInfo {
    pub message: String,
}

/// A task failed; carries the engine-supplied diagnostic text.
pub struct TaskFailedMessage {
    pub id: TaskId,
    pub info: TaskFailInfo,
}

/// A new worker connected to the engine.
pub struct NewWorkerMessage {
    pub worker_id: WorkerId,
    pub configuration: WorkerConfiguration,
}

/// A worker connection was lost.
pub struct LostWorkerMessage {
    pub worker_id: WorkerId,
}

// ---------------------------------------------------------------------------
// The registry
// ---------------------------------------------------------------------------

/// The mathematical content of the registry: the job rows in insertion
/// order, the worker rows in insertion order, and the next job id.
pub ghost struct StateModel {
    pub jobs: Seq<JobModel>,
    pub workers: Seq<WorkerModel>,
    pub id_counter: TaskId,
}

impl StateModel {
    /// There is a job row with this id.
    pub open spec fn has_job(self, id: TaskId) -> bool {
        exists|i: int| 0 <= i < self.jobs.len() && #[trigger] self.jobs[i].task_id == id
    }

    /// There is a worker row with this id.
    pub open spec fn has_worker(self, id: WorkerId) -> bool {
        exists|i: int| 0 <= i < self.workers.len() && #[trigger] self.workers[i].worker_id == id
    }

    /// Registry invariant: ids start above zero, every job id was allocated
    /// below the counter, and no job or worker id occurs twice.
    pub open spec fn wf(self) -> bool {
        &&& 1 <= self.id_counter
        &&& forall|i: int|
            0 <= i < self.jobs.len() ==> 1 <= #[trigger] self.jobs[i].task_id < self.id_counter
        &&& forall|i: int, j: int|
            0 <= i < j < self.jobs.len() ==> #[trigger] self.jobs[i].task_id
                != #[trigger] self.jobs[j].task_id
        &&& forall|i: int, j: int|
            0 <= i < j < self.workers.len() ==> #[trigger] self.workers[i].worker_id
                != #[trigger] self.workers[j].worker_id
    }
}

/// Map of one lost-worker event over the worker rows: the matching row goes
/// offline with the given end time, every other row is untouched.
pub open spec fn workers_after_lost(
    workers: Seq<WorkerModel>,
    worker_id: WorkerId,
    ended_at: DateTime,
) -> Seq<WorkerModel> {
    Seq::new(
        workers.len(),
        |i: int|
            if workers[i].worker_id == worker_id {
                WorkerModel { ended_at: Option::Some(ended_at), ..workers[i] }
            } else {
                workers[i]
            },
    )
}

/// Map of one terminal task event over the job rows: the matching row takes
/// the terminal status, every other row is untouched.
pub open spec fn jobs_after_status(
    jobs: Seq<JobModel>,
    id: TaskId,
    status: JobStatusModel,
) -> Seq<JobModel> {
    Seq::new(
        jobs.len(),
        |i: int|
            if jobs[i].task_id == id {
                JobModel { status, ..jobs[i] }
            } else {
                jobs[i]
            },
    )
}

/// The registry. Exclusively owned and mutated by the coordination task.
pub struct State {
    jobs: Vec<Job>,
    workers: Vec<Worker>,
    id_counter: TaskId,
}

/// View of a job row sequence.
pub open spec fn jobs_model(s: Seq<Job>) -> Seq<JobModel> {
    Seq::new(s.len(), |i: int| s[i]@)
}

/// View of a worker row sequence.
pub open spec fn workers_model(s: Seq<Worker>) -> Seq<WorkerModel> {
    Seq::new(s.len(), |i: int| s[i]@)
}

impl View for State {
    type V = StateModel;

    closed spec fn view(&self) -> StateModel {
        StateModel {
            jobs: jobs_model(self.jobs@),
            workers: workers_model(self.workers@),
            id_counter: self.id_counter,
        }
    }
}

impl State {
    /// All job rows, in insertion order.
    pub fn jobs(&self) -> (r: &Vec<Job>)
        ensures
            jobs_model(r@) == self@.jobs,
    {
        &self.jobs
    }

    /// Insert a worker row under its engine-assigned id. Id allocation is
    /// centrally controlled, so a duplicate insert is a wiring bug: the
    /// caller must ensure the id is not yet registered.
    pub fn add_worker(&mut self, worker: Worker)
        requires
            !old(self)@.has_worker(worker@.worker_id),
        ensures
            final(self)@ == (StateModel {
                workers: old(self)@.workers.push(worker@),
                ..old(self)@
            }),
            old(self)@.wf() ==> final(self)@.wf(),
    {
        let ghost pre = self@;
        self.workers.push(worker);
        proof {
            assert(final(self)@.workers =~= pre.workers.push(worker@));
            assert(final(self)@.jobs =~= pre.jobs);
            if pre.wf() {
                assert forall|i: int, j: int|
                    0 <= i < j < final(self)@.workers.len() implies #[trigger] final(self)@.workers[i].worker_id != #[trigger] final(self)@.workers[j].worker_id by {
                    if j == final(self)@.workers.len() - 1 {
                        assert(!pre.has_worker(worker@.worker_id));
                        assert(pre.workers[i].worker_id != worker@.worker_id);
                    }
                }
            }
        }
    }

    /// Insert a job row under a pre-allocated id. The id must come from
    /// `new_job_id`, hence lie below the counter and not be registered yet;
    /// a duplicate insert is a wiring bug, excluded by contract.
    pub fn add_job(&mut self, job: Job)
        requires
            1 <= job@.task_id < old(self)@.id_counter,
            !old(self)@.has_job(job@.task_id),
        ensures
            final(self)@ == (StateModel { jobs: old(self)@.jobs.push(job@), ..old(self)@ }),
            old(self)@.wf() ==> final(self)@.wf(),
    {
        let ghost pre = self@;
        self.jobs.push(job);
        proof {
            assert(final(self)@.jobs =~= pre.jobs.push(job@));
            assert(final(self)@.workers =~= pre.workers);
            if pre.wf() {
                assert forall|i: int, j: int|
                    0 <= i < j < final(self)@.jobs.len() implies #[trigger] final(self)@.jobs[i].task_id != #[trigger] final(self)@.jobs[j].task_id by {
                    if j == final(self)@.jobs.len() - 1 {
                        assert(!pre.has_job(job@.task_id));
                        assert(pre.jobs[i].task_id != job@.task_id);
                    }
                }
            }
        }
    }

    /// Allocate the next job id: returns the counter, then increments it.
    /// Strictly increasing across calls, never reused, starts above zero.
    pub fn new_job_id(&mut self) -> (r: TaskId)
        requires
            old(self)@.id_counter < TaskId::MAX,
        ensures
            r == old(self)@.id_counter,
            final(self)@ == (StateModel {
                id_counter: (old(self)@.id_counter + 1) as TaskId,
                ..old(self)@
            }),
            old(self)@.wf() ==> final(self)@.wf(),
    {
        let id = self.id_counter;
        self.id_counter = self.id_counter + 1;
        id
    }

    /// All worker rows, in insertion order.
    pub fn get_workers(&self) -> (r: &Vec<Worker>)
        ensures
            workers_model(r@) == self@.workers,
    {
        &self.workers
    }

    /// Borrow the worker row with this id mutably, if one is registered.
    /// On success, only the borrowed row can change; every other row, the
    /// jobs and the id counter stay as they were.
    pub fn get_worker_mut(&mut self, worker_id: WorkerId) -> (r: Option<&mut Worker>)
        ensures
            r is Some <==> old(self)@.has_worker(worker_id),
            (r matches Some(w) ==> exists|i: int|
                {
                    &&& 0 <= i < old(self)@.workers.len()
                    &&& old(self)@.workers[i].worker_id == worker_id
                    &&& (*w)@ == old(self)@.workers[i]
                    &&& final(self)@.jobs == old(self)@.jobs
                    &&& final(self)@.id_counter == old(self)@.id_counter
                    &&& final(self)@.workers.len() == old(self)@.workers.len()
                    &&& final(self)@.workers[i] == final(w)@
                    &&& forall|j: int|
                        0 <= j < old(self)@.workers.len() && j != i
                            ==> final(self)@.workers[j] == old(self)@.workers[j]
                }),
            r is None ==> final(self)@ == old(self)@,
    {
        let n = self.workers.len();
        let mut k: usize = 0;
        while k < n
            invariant
                n == self.workers.len(),
                k <= n,
                self@ == old(self)@,
                forall|i: int| 0 <= i < k ==> #[trigger] self@.workers[i].worker_id != worker_id,
            decreases n - k,
        {
            if self.workers[k].worker_id() == worker_id {
                proof {
                    assert(old(self)@.workers[k as int].worker_id == worker_id);
                    assert(old(self)@.has_worker(worker_id));
                }
                return Some(&mut self.workers[k]);
            }
            k = k + 1;
        }
        None
    }

    /// A failed-task event: the referenced job, which must be registered and
    /// still running (an event for an unknown or terminal job is a wiring
    /// bug, excluded by contract), becomes `Failed` with the engine-supplied
    /// diagnostic text. Terminal: no later event touches the row.
    pub fn process_task_failed(&mut self, msg: TaskFailedMessage)
        requires
            old(self)@.wf(),
            old(self)@.has_job(msg.id),
            forall|i: int|
                0 <= i < old(self)@.jobs.len() && #[trigger] old(self)@.jobs[i].task_id == msg.id
                    ==> old(self)@.jobs[i].status is Submitted,
        ensures
            final(self)@ == (StateModel {
                jobs: jobs_after_status(
                    old(self)@.jobs,
                    msg.id,
                    JobStatusModel::Failed(msg.info.message@),
                ),
                ..old(self)@
            }),
            final(self)@.wf(),
    {
        let ghost target = JobStatusModel::Failed(msg.info.message@);
        let id = msg.id;
        self.set_job_status(id, JobStatus::Failed(msg.info.message), Ghost(target));
    }

    /// A successful-task event: the referenced job, which must be registered
    /// and still running, becomes `Finished`. Terminal.
    pub fn process_task_update(&mut self, msg: TaskUpdate)
        requires
            old(self)@.wf(),
            old(self)@.has_job(msg.id),
            forall|i: int|
                0 <= i < old(self)@.jobs.len() && #[trigger] old(self)@.jobs[i].task_id == msg.id
                    ==> old(self)@.jobs[i].status is Submitted,
        ensures
            final(self)@ == (StateModel {
                jobs: jobs_after_status(old(self)@.jobs, msg.id, JobStatusModel::Finished),
                ..old(self)@
            }),
            final(self)@.wf(),
    {
        let ghost target = JobStatusModel::Finished;
        self.set_job_status(msg.id, JobStatus::Finished, Ghost(target));
    }

    /// Shared body of the two terminal task events.
    fn set_job_status(&mut self, id: TaskId, status: JobStatus, Ghost(target): Ghost<
        JobStatusModel,
    >)
        requires
            old(self)@.wf(),
            old(self)@.has_job(id),
            status@ == target,
        ensures
            final(self)@ == (StateModel {
                jobs: jobs_after_status(old(self)@.jobs, id, target),
                ..old(self)@
            }),
            final(self)@.wf(),
    {
        let ghost pre = self@;
        let n = self.jobs.len();
        let mut k: usize = 0;
        while k < n
            invariant
                n == self.jobs.len(),
                k <= n,
                self@ == pre,
                pre == old(self)@,
                pre.wf(),
                pre.has_job(id),
                status@ == target,
                forall|i: int| 0 <= i < k ==> #[trigger] pre.jobs[i].task_id != id,
            decreases n - k,
        {
            if self.jobs[k].task_id == id {
                let ghost ki = k as int;
                self.jobs[k].status = status;
                proof {
                    assert forall|i: int| 0 <= i < self@.jobs.len() implies self@.jobs[i]
                        == jobs_after_status(pre.jobs, id, target)[i] by {
                        if i != ki && pre.jobs[i].task_id == id {
                            if i < ki {
                                assert(pre.jobs[i].task_id != pre.jobs[ki].task_id);
                            } else {
                                assert(pre.jobs[ki].task_id != pre.jobs[i].task_id);
                            }
                        }
                    }
                    assert(self@.jobs =~= jobs_after_status(pre.jobs, id, target));
                    assert(self@.workers =~= pre.workers);
                    assert forall|i: int, j: int|
                        0 <= i < j < self@.jobs.len() implies #[trigger] self@.jobs[i].task_id
                        != #[trigger] self@.jobs[j].task_id by {
                        assert(pre.jobs[i].task_id != pre.jobs[j].task_id);
                    }
                }
                return ;
            }
            k = k + 1;
        }
        proof {
            assert(!pre.has_job(id));
        }
    }

    /// A new-worker event: insert a fresh online row built from the
    /// engine-reported id and configuration. The id must not be registered
    /// yet (the engine never reuses ids).
    pub fn process_worker_new(&mut self, msg: NewWorkerMessage)
        requires
            old(self)@.wf(),
            !old(self)@.has_worker(msg.worker_id),
        ensures
            final(self)@ == (StateModel {
                workers: old(self)@.workers.push(
                    WorkerModel {
                        worker_id: msg.worker_id,
                        configuration: msg.configuration@,
                        ended_at: Option::<DateTime>::None,
                    },
                ),
                ..old(self)@
            }),
            final(self)@.wf(),
    {
        let worker_id = msg.worker_id;
        self.add_worker(Worker::new(worker_id, msg.configuration));
    }

    /// A lost-worker event: the matching row, which must be registered and
    /// still online, goes offline with the given end time. The row is
    /// retained, never removed, to support historical listing.
    pub fn process_worker_lost(&mut self, msg: LostWorkerMessage, ended_at: DateTime)
        requires
            old(self)@.wf(),
            old(self)@.has_worker(msg.worker_id),
            forall|i: int|
                0 <= i < old(self)@.workers.len() && #[trigger] old(
                    self,
                )@.workers[i].worker_id == msg.worker_id ==> old(self)@.workers[i].ended_at
                    is None,
        ensures
            final(self)@ == (StateModel {
                workers: workers_after_lost(old(self)@.workers, msg.worker_id, ended_at),
                ..old(self)@
            }),
            final(self)@.wf(),
    {
        let ghost pre = self@;
        let id = msg.worker_id;
        match self.find_worker(id) {
            Some(k) => {
                let ghost ki = k as int;
                self.workers[k].set_offline_state(ended_at);
                proof {
                    assert forall|j: int| 0 <= j < self@.workers.len() implies self@.workers[j]
                        == workers_after_lost(pre.workers, id, ended_at)[j] by {
                        if j != ki && pre.workers[j].worker_id == id {
                            if j < ki {
                                assert(pre.workers[j].worker_id != pre.workers[ki].worker_id);
                            } else {
                                assert(pre.workers[ki].worker_id != pre.workers[j].worker_id);
                            }
                        }
                    }
                    assert(self@.workers =~= workers_after_lost(pre.workers, id, ended_at));
                    assert(self@.jobs =~= pre.jobs);
                    assert forall|i: int, j: int|
                        0 <= i < j < self@.workers.len() implies #[trigger] self@.workers[i].worker_id
                        != #[trigger] self@.workers[j].worker_id by {
                        assert(pre.workers[i].worker_id != pre.workers[j].worker_id);
                    }
                }
            },
            None => {
                proof {
                    assert(pre.has_worker(id));
                }
            },
        }
    }

    /// Position of the worker row with this id, if one is registered.
    fn find_worker(&self, worker_id: WorkerId) -> (r: Option<usize>)
        ensures
            match r {
                Some(k) => k < self@.workers.len() && self@.workers[k as int].worker_id
                    == worker_id,
                None => !self@.has_worker(worker_id),
            },
    {
        let n = self.workers.len();
        let mut k: usize = 0;
        while k < n
            invariant
                n == self.workers.len(),
                k <= n,
                forall|i: int| 0 <= i < k ==> #[trigger] self@.workers[i].worker_id != worker_id,
            decreases n - k,
        {
            if self.workers[k].worker_id() == worker_id {
                return Some(k);
            }
            k = k + 1;
        }
        None
    }
}

/// Job ids never collide: in any well-formed registry, two distinct job
/// rows carry distinct ids, whatever interleaving of submissions produced
/// them. Together with `new_job_id` returning the strictly increasing
/// counter, this pins down unique, monotone id allocation.
pub proof fn lemma_job_ids_unique(m: StateModel, i: int, j: int)
    requires
        m.wf(),
        0 <= i < m.jobs.len(),
        0 <= j < m.jobs.len(),
        i != j,
    ensures
        m.jobs[i].task_id != m.jobs[j].task_id,
{
}

/// Every id allocated so far lies strictly below the counter, so the id a
/// new submission receives (the counter itself) is strictly greater than
/// the id of every job already registered: allocation is strictly
/// increasing in any interleaving of submissions.
pub proof fn lemma_next_id_exceeds_all(m: StateModel, i: int)
    requires
        m.wf(),
        0 <= i < m.jobs.len(),
    ensures
        m.jobs[i].task_id < m.id_counter,
{
}

/// Single-owner handle to the registry.
///
/// A coordinator that multiplexes connections inside one cooperative
/// execution context could share the registry through an interior-mutable
/// cell without a lock; that design rests on strict single-owner execution
/// and does not transfer. Here the registry has exactly one owner, and a
/// host must serialize all access through this handle (on a multi-threaded
/// executor: behind a mutex or a serializing actor).
pub struct StateRef {
    state: State,
}

impl View for StateRef {
    type V = StateModel;

    closed spec fn view(&self) -> StateModel {
        self.state@
    }
}

impl StateRef {
    /// A fresh registry: no jobs, no workers, the id counter at one.
    pub fn new() -> (r: StateRef)
        ensures
            r@ == (StateModel {
                jobs: Seq::<JobModel>::empty(),
                workers: Seq::<WorkerModel>::empty(),
                id_counter: 1,
            }),
            r@.wf(),
    {
        let r = StateRef {
            state: State { jobs: Vec::new(), workers: Vec::new(), id_counter: 1 },
        };
        proof {
            assert(r@.jobs =~= Seq::<JobModel>::empty());
            assert(r@.workers =~= Seq::<WorkerModel>::empty());
        }
        r
    }

    /// Read access to the registry.
    pub fn get(&self) -> (r: &State)
        ensures
            r@ == self@,
    {
        &self.state
    }

    /// Exclusive access to the registry.
    pub fn get_mut(&mut self) -> (r: &mut State)
        ensures
            r@ == old(self)@,
            final(self)@ == final(r)@,
    {
        &mut self.state
    }
}

} // verus!
