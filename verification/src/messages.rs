//! Wire message kinds at the client boundary: one request enum, one
//! response enum, and the payload rows they carry. Each frame of the
//! transport carries exactly one message; the engine-facing lifecycle
//! events are not wire messages and live with the registry.

use vstd::prelude::*;
use crate::datetime::DateTime;
use crate::state::{
    JobStatus, JobStatusModel, ProgramDefinition, ProgramDefinitionModel, TaskId,
    WorkerConfiguration, WorkerConfigurationModel, WorkerId,
};

verus! {

/// An inclusive range of array-job indices.
#[derive(Clone, Copy, PartialEq, Eq, Structural, Debug)]
pub struct ArrayDef {
    pub start: u32,
    pub end: u32,
}

impl ArrayDef {
    /// A range never runs backwards.
    pub open spec fn wf(self) -> bool {
        self.start <= self.end
    }
}

/// A job is either one task or an array of tasks.
#[derive(Clone, Copy, PartialEq, Eq, Structural, Debug)]
pub enum JobType {
    Simple,
    Array(ArrayDef),
}

/// The submit request: what to run, under which name, from where.
pub struct SubmitRequest {
    pub job_type: JobType,
    pub name: String,
    pub submit_cwd: String,
    pub program: ProgramDefinition,
}

/// The mathematical content of a submit request.
pub ghost struct SubmitRequestModel {
    pub job_type: JobType,
    pub name: Seq<char>,
    pub submit_cwd: Seq<char>,
    pub program: ProgramDefinitionModel,
}

impl View for SubmitRequest {
    type V = SubmitRequestModel;

    open spec fn view(&self) -> SubmitRequestModel {
        SubmitRequestModel {
            job_type: self.job_type,
            name: self.name@,
            submit_cwd: self.submit_cwd@,
            program: self.program@,
        }
    }
}

/// One request from a client. Exactly one response answers each request.
pub enum FromClientMessage {
    Submit(SubmitRequest),
    JobList,
    WorkerList,
    Stop,
}

/// The mathematical content of a request.
pub ghost enum FromClientMessageModel {
    Submit(SubmitRequestModel),
    JobList,
    WorkerList,
    Stop,
}

impl View for FromClientMessage {
    type V = FromClientMessageModel;

    open spec fn view(&self) -> FromClientMessageModel {
        match self {
            FromClientMessage::Submit(ref r) => FromClientMessageModel::Submit(r@),
            FromClientMessage::JobList => FromClientMessageModel::JobList,
            FromClientMessage::WorkerList => FromClientMessageModel::WorkerList,
            FromClientMessage::Stop => FromClientMessageModel::Stop,
        }
    }
}

/// Summary of one job, as reported to clients.
pub struct JobInfo {
    pub id: TaskId,
    pub name: String,
    pub status: JobStatus,
}

/// The mathematical content of a job summary.
pub ghost struct JobInfoModel {
    pub id: TaskId,
    pub name: Seq<char>,
    pub status: JobStatusModel,
}

impl View for JobInfo {
    type V = JobInfoModel;

    open spec fn view(&self) -> JobInfoModel {
        JobInfoModel { id: self.id, name: self.name@, status: self.status@ }
    }
}

/// Summary of one worker, as reported to clients.
pub struct WorkerInfo {
    pub id: WorkerId,
    pub configuration: WorkerConfiguration,
    pub ended_at: Option<DateTime>,
}

/// The mathematical content of a worker summary.
pub ghost struct WorkerInfoModel {
    pub id: WorkerId,
    pub configuration: WorkerConfigurationModel,
    pub ended_at: Option<DateTime>,
}

impl View for WorkerInfo {
    type V = WorkerInfoModel;

    open spec fn view(&self) -> WorkerInfoModel {
        WorkerInfoModel {
            id: self.id,
            configuration: self.configuration@,
            ended_at: self.ended_at,
        }
    }
}

/// Response to a submit: the summary of the job just created.
pub struct SubmitResponse {
    pub job: JobInfo,
}

/// Response to a job-list request: every job, in insertion order.
pub struct JobListResponse {
    pub jobs: Vec<JobInfo>,
}

/// Response to a worker-list request: every worker row ever registered;
/// the caller sorts by id for stable display.
pub struct WorkerListResponse {
    pub workers: Vec<WorkerInfo>,
}

/// One response to a client. A `StopAck` acknowledges a stop request just
/// before the connection closes.
pub enum ToClientMessage {
    SubmitResponse(SubmitResponse),
    JobListResponse(JobListResponse),
    WorkerListResponse(WorkerListResponse),
    StopAck,
}

/// The mathematical content of a response.
pub ghost enum ToClientMessageModel {
    SubmitResponse(JobInfoModel),
    JobListResponse(Seq<JobInfoModel>),
    WorkerListResponse(Seq<WorkerInfoModel>),
    StopAck,
}

/// View of a job summary sequence.
pub open spec fn job_infos_model(s: Seq<JobInfo>) -> Seq<JobInfoModel> {
    Seq::new(s.len(), |i: int| s[i]@)
}

/// View of a worker summary sequence.
pub open spec fn worker_infos_model(s: Seq<WorkerInfo>) -> Seq<WorkerInfoModel> {
    Seq::new(s.len(), |i: int| s[i]@)
}

impl View for ToClientMessage {
    type V = ToClientMessageModel;

    open spec fn view(&self) -> ToClientMessageModel {
        match self {
            ToClientMessage::SubmitResponse(ref r) => ToClientMessageModel::SubmitResponse(
                r.job@,
            ),
            ToClientMessage::JobListResponse(ref r) => ToClientMessageModel::JobListResponse(
                job_infos_model(r.jobs@),
            ),
            ToClientMessage::WorkerListResponse(ref r) => ToClientMessageModel::WorkerListResponse(
                worker_infos_model(r.workers@),
            ),
            ToClientMessage::StopAck => ToClientMessageModel::StopAck,
        }
    }
}

} // verus!
