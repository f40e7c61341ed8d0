//! Request dispatch: the effect of each client request on the registry,
//! the response it earns, and the side effect the host must carry out.
//!
//! Exactly one response is produced per request. The host owning the
//! connection performs the returned action: forwarding a submitted program
//! to the scheduling engine, or raising the process-wide shutdown signal.

use vstd::prelude::*;
use crate::messages::{
    FromClientMessage, FromClientMessageModel, JobInfo, JobInfoModel, JobListResponse,
    SubmitRequestModel, SubmitResponse, ToClientMessage, ToClientMessageModel, WorkerInfo,
    WorkerInfoModel, WorkerListResponse, job_infos_model, worker_infos_model,
};
use crate::state::{
    Job, JobModel, JobStatus, JobStatusModel, ProgramDefinition, ProgramDefinitionModel, State,
    TaskId, Worker, WorkerConfiguration, WorkerModel, jobs_model, workers_model,
};

verus! {

/// What the host must do after sending the response.
pub enum ServerAction {
    /// Nothing beyond the response.
    NoAction,
    /// Hand the submitted program to the scheduling engine.
    ForwardToEngine(ProgramDefinition),
    /// Raise the process-wide shutdown signal, then close the connection.
    RaiseStop,
}

/// The mathematical content of a server action.
pub ghost enum ServerActionModel {
    NoAction,
    ForwardToEngine(ProgramDefinitionModel),
    RaiseStop,
}

impl View for ServerAction {
    type V = ServerActionModel;

    open spec fn view(&self) -> ServerActionModel {
        match self {
            ServerAction::NoAction => ServerActionModel::NoAction,
            ServerAction::ForwardToEngine(ref p) => ServerActionModel::ForwardToEngine(p@),
            ServerAction::RaiseStop => ServerActionModel::RaiseStop,
        }
    }
}

/// The summary a client sees of one job row.
pub open spec fn job_summary(j: JobModel) -> JobInfoModel {
    JobInfoModel { id: j.task_id, name: j.name, status: j.status }
}

/// The summaries of all job rows, in insertion order.
pub open spec fn job_summaries(js: Seq<JobModel>) -> Seq<JobInfoModel> {
    js.map_values(|j: JobModel| job_summary(j))
}

/// The summary a client sees of one worker row.
pub open spec fn worker_summary(w: WorkerModel) -> WorkerInfoModel {
    WorkerInfoModel { id: w.worker_id, configuration: w.configuration, ended_at: w.ended_at }
}

/// The summaries of all worker rows, in insertion order.
pub open spec fn worker_summaries(ws: Seq<WorkerModel>) -> Seq<WorkerInfoModel> {
    ws.map_values(|w: WorkerModel| worker_summary(w))
}

/// The job row created for a submit request under the allocated id.
pub open spec fn submitted_job(req: SubmitRequestModel, id: TaskId) -> JobModel {
    JobModel { task_id: id, name: req.name, program: req.program, status: JobStatusModel::Submitted }
}

/// Copy a string, preserving its content.
fn clone_string(s: &String) -> (r: String)
    ensures
        r@ == s@,
{
    s.clone()
}

/// Copy an optional string, preserving its content.
fn clone_opt_string(s: &Option<String>) -> (r: Option<String>)
    ensures
        match s {
            Option::Some(v) => r matches Option::Some(w) && w@ == v@,
            Option::None => r is None,
        },
{
    match s {
        Some(v) => Some(v.clone()),
        None => None,
    }
}

/// Copy a program definition, preserving its content.
fn clone_program(p: &ProgramDefinition) -> (r: ProgramDefinition)
    ensures
        r@ == p@,
{
    let mut args: Vec<String> = Vec::new();
    let mut i: usize = 0;
    while i < p.args.len()
        invariant
            i <= p.args@.len(),
            args@.len() == i,
            forall|k: int| 0 <= k < i ==> #[trigger] args@[k]@ == p.args@[k]@,
        decreases p.args@.len() - i,
    {
        args.push(p.args[i].clone());
        i = i + 1;
    }
    let mut env: Vec<(String, String)> = Vec::new();
    let mut j: usize = 0;
    while j < p.env.len()
        invariant
            j <= p.env@.len(),
            env@.len() == j,
            forall|k: int|
                0 <= k < j ==> #[trigger] env@[k].0@ == p.env@[k].0@ && env@[k].1@ == p.env@[k].1@,
        decreases p.env@.len() - j,
    {
        let a = p.env[j].0.clone();
        let b = p.env[j].1.clone();
        env.push((a, b));
        j = j + 1;
    }
    let r = ProgramDefinition {
        args,
        env,
        stdout: clone_opt_string(&p.stdout),
        stderr: clone_opt_string(&p.stderr),
        cwd: clone_opt_string(&p.cwd),
    };
    proof {
        assert(r@.args =~= p@.args);
        assert(r@.env =~= p@.env);
    }
    r
}

/// Copy a job status, preserving its content.
fn clone_status(s: &JobStatus) -> (r: JobStatus)
    ensures
        r@ == s@,
{
    match s {
        JobStatus::Submitted => JobStatus::Submitted,
        JobStatus::Finished => JobStatus::Finished,
        JobStatus::Failed(m) => JobStatus::Failed(m.clone()),
    }
}

/// Copy a worker configuration, preserving its content.
fn clone_configuration(c: &WorkerConfiguration) -> (r: WorkerConfiguration)
    ensures
        r@ == c@,
{
    WorkerConfiguration { hostname: c.hostname.clone(), n_cpus: c.n_cpus }
}

/// The job summaries of all rows, for a job-list response.
fn build_job_infos(jobs: &Vec<Job>) -> (r: Vec<JobInfo>)
    ensures
        job_infos_model(r@) == job_summaries(jobs_model(jobs@)),
{
    let mut out: Vec<JobInfo> = Vec::new();
    let mut i: usize = 0;
    while i < jobs.len()
        invariant
            i <= jobs@.len(),
            out@.len() == i,
            forall|k: int| 0 <= k < i ==> #[trigger] out@[k]@ == job_summary(jobs@[k]@),
        decreases jobs@.len() - i,
    {
        let j = &jobs[i];
        out.push(JobInfo { id: j.task_id, name: j.name.clone(), status: clone_status(&j.status) });
        i = i + 1;
    }
    proof {
        assert(job_infos_model(out@) =~= job_summaries(jobs_model(jobs@)));
    }
    out
}

/// The worker summaries of all rows, for a worker-list response.
fn build_worker_infos(workers: &Vec<Worker>) -> (r: Vec<WorkerInfo>)
    ensures
        worker_infos_model(r@) == worker_summaries(workers_model(workers@)),
{
    let mut out: Vec<WorkerInfo> = Vec::new();
    let mut i: usize = 0;
    while i < workers.len()
        invariant
            i <= workers@.len(),
            out@.len() == i,
            forall|k: int| 0 <= k < i ==> #[trigger] out@[k]@ == worker_summary(workers@[k]@),
        decreases workers@.len() - i,
    {
        let w = &workers[i];
        out.push(
            WorkerInfo {
                id: w.worker_id(),
                configuration: clone_configuration(w.configuration()),
                ended_at: w.ended_at(),
            },
        );
        i = i + 1;
    }
    proof {
        assert(worker_infos_model(out@) =~= worker_summaries(workers_model(workers@)));
    }
    out
}

/// Dispatch one decoded client request against the registry.
///
/// Submit allocates the next job id, registers the job as `Submitted`, and
/// asks the host to forward the program to the engine; the response carries
/// the new job's summary. The two list requests are read-only snapshots.
/// Stop changes nothing and asks the host to raise the shutdown signal.
pub fn handle_request(state: &mut State, msg: FromClientMessage) -> (r: (
    ToClientMessage,
    ServerAction,
))
    requires
        old(state)@.wf(),
        msg@ is Submit ==> old(state)@.id_counter < TaskId::MAX,
    ensures
        final(state)@.wf(),
        match msg@ {
            FromClientMessageModel::Submit(req) => {
                &&& final(state)@ == (crate::state::StateModel {
                    jobs: old(state)@.jobs.push(submitted_job(req, old(state)@.id_counter)),
                    id_counter: (old(state)@.id_counter + 1) as TaskId,
                    ..old(state)@
                })
                &&& r.0@ == ToClientMessageModel::SubmitResponse(
                    JobInfoModel {
                        id: old(state)@.id_counter,
                        name: req.name,
                        status: JobStatusModel::Submitted,
                    },
                )
                &&& r.1@ == ServerActionModel::ForwardToEngine(req.program)
            },
            FromClientMessageModel::JobList => {
                &&& final(state)@ == old(state)@
                &&& r.0@ == ToClientMessageModel::JobListResponse(job_summaries(old(state)@.jobs))
                &&& r.1@ == ServerActionModel::NoAction
            },
            FromClientMessageModel::WorkerList => {
                &&& final(state)@ == old(state)@
                &&& r.0@ == ToClientMessageModel::WorkerListResponse(
                    worker_summaries(old(state)@.workers),
                )
                &&& r.1@ == ServerActionModel::NoAction
            },
            FromClientMessageModel::Stop => {
                &&& final(state)@ == old(state)@
                &&& r.0@ == ToClientMessageModel::StopAck
                &&& r.1@ == ServerActionModel::RaiseStop
            },
        },
{
    match msg {
        FromClientMessage::Submit(req) => {
            let id = state.new_job_id();
            proof {
                assert forall|i: int| 0 <= i < state@.jobs.len() implies #[trigger] state@.jobs[i].task_id
                    != id by {}
                assert(!state@.has_job(id));
            }
            let job = Job {
                task_id: id,
                name: clone_string(&req.name),
                program: clone_program(&req.program),
                status: JobStatus::Submitted,
            };
            state.add_job(job);
            let response = ToClientMessage::SubmitResponse(
                SubmitResponse {
                    job: JobInfo {
                        id,
                        name: clone_string(&req.name),
                        status: JobStatus::Submitted,
                    },
                },
            );
            (response, ServerAction::ForwardToEngine(req.program))
        },
        FromClientMessage::JobList => {
            let response = ToClientMessage::JobListResponse(
                JobListResponse { jobs: build_job_infos(state.jobs()) },
            );
            (response, ServerAction::NoAction)
        },
        FromClientMessage::WorkerList => {
            let response = ToClientMessage::WorkerListResponse(
                WorkerListResponse { workers: build_worker_infos(state.get_workers()) },
            );
            (response, ServerAction::NoAction)
        },
        FromClientMessage::Stop => (ToClientMessage::StopAck, ServerAction::RaiseStop),
    }
}

} // verus!
