//! The job/worker registry driven by requests and engine events.

use hyperqueue::datetime::DateTime;
use hyperqueue::handler::{handle_request, ServerAction};
use hyperqueue::messages::{FromClientMessage, ToClientMessage};
use hyperqueue::state::{
    JobStatus, LostWorkerMessage, NewWorkerMessage, TaskFailInfo, TaskFailedMessage, TaskUpdate,
    Worker, WorkerConfiguration, StateRef,
};
use hyperqueue::client::{build_submit_request, worker_status_label, SubmitOpts};

fn lost_date() -> DateTime {
    DateTime {
        year: 2021,
        month: 6,
        day: 30,
        hour: 12,
        minute: 0,
        second: 0,
        offset_minutes: 0,
    }
}

fn submit(command: &str, args: &[&str]) -> FromClientMessage {
    let opts = SubmitOpts {
        command: command.to_string(),
        args: args.iter().map(|a| a.to_string()).collect(),
        array: None,
        name: None,
    };
    let req = build_submit_request(opts, "/work".to_string()).unwrap();
    FromClientMessage::Submit(req)
}

#[test]
fn test_job_id_allocation_is_strictly_increasing() {
    let mut state_ref = StateRef::new();
    let state = state_ref.get_mut();
    let a = state.new_job_id();
    let b = state.new_job_id();
    let c = state.new_job_id();
    assert_eq!(a, 1);
    assert_eq!(b, 2);
    assert_eq!(c, 3);
    assert!(a < b && b < c);
}

#[test]
fn test_submit_scenario() {
    let mut state_ref = StateRef::new();
    let state = state_ref.get_mut();

    let (response, action) = handle_request(state, submit("echo", &["hi"]));
    match response {
        ToClientMessage::SubmitResponse(r) => {
            assert_eq!(r.job.id, 1);
            assert_eq!(r.job.name, "echo".to_string());
            assert!(matches!(r.job.status, JobStatus::Submitted));
        }
        _ => panic!("expected a submit response"),
    }
    match action {
        ServerAction::ForwardToEngine(program) => {
            assert_eq!(program.args, vec!["echo".to_string(), "hi".to_string()]);
            assert_eq!(
                program.stdout,
                Some("/work/stdout.%{JOB_ID}.%{TASK_ID}".to_string())
            );
            assert_eq!(
                program.stderr,
                Some("/work/stderr.%{JOB_ID}.%{TASK_ID}".to_string())
            );
        }
        _ => panic!("expected the program to be forwarded"),
    }

    let (response, _) = handle_request(state, FromClientMessage::JobList);
    match response {
        ToClientMessage::JobListResponse(r) => {
            assert_eq!(r.jobs.len(), 1);
            assert_eq!(r.jobs[0].id, 1);
            assert_eq!(r.jobs[0].name, "echo".to_string());
            assert!(matches!(r.jobs[0].status, JobStatus::Submitted));
        }
        _ => panic!("expected a job list response"),
    }

    let (response, _) = handle_request(state, submit("true", &[]));
    match response {
        ToClientMessage::SubmitResponse(r) => assert_eq!(r.job.id, 2),
        _ => panic!("expected a submit response"),
    }
}

#[test]
fn test_worker_list_scenario() {
    let mut state_ref = StateRef::new();
    let state = state_ref.get_mut();

    let (response, _) = handle_request(state, FromClientMessage::WorkerList);
    match response {
        ToClientMessage::WorkerListResponse(r) => assert!(r.workers.is_empty()),
        _ => panic!("expected a worker list response"),
    }

    state.process_worker_new(NewWorkerMessage {
        worker_id: 7,
        configuration: WorkerConfiguration {
            hostname: "node1".to_string(),
            n_cpus: 16,
        },
    });
    let (response, _) = handle_request(state, FromClientMessage::WorkerList);
    match response {
        ToClientMessage::WorkerListResponse(r) => {
            assert_eq!(r.workers.len(), 1);
            assert_eq!(r.workers[0].id, 7);
            assert_eq!(r.workers[0].configuration.hostname, "node1".to_string());
            assert_eq!(r.workers[0].configuration.n_cpus, 16);
            assert_eq!(worker_status_label(&r.workers[0]), "RUNNING");
        }
        _ => panic!("expected a worker list response"),
    }

    state.process_worker_lost(LostWorkerMessage { worker_id: 7 }, lost_date());
    let (response, _) = handle_request(state, FromClientMessage::WorkerList);
    match response {
        ToClientMessage::WorkerListResponse(r) => {
            assert_eq!(r.workers.len(), 1);
            assert_eq!(r.workers[0].id, 7);
            assert_eq!(worker_status_label(&r.workers[0]), "OFFLINE");
        }
        _ => panic!("expected a worker list response"),
    }
}

#[test]
fn test_stop_raises_shutdown_and_keeps_state() {
    let mut state_ref = StateRef::new();
    let state = state_ref.get_mut();
    handle_request(state, submit("echo", &[]));

    let (response, action) = handle_request(state, FromClientMessage::Stop);
    assert!(matches!(response, ToClientMessage::StopAck));
    assert!(matches!(action, ServerAction::RaiseStop));
    assert_eq!(state.jobs().len(), 1);
}

#[test]
fn test_task_update_finishes_job() {
    let mut state_ref = StateRef::new();
    let state = state_ref.get_mut();
    handle_request(state, submit("echo", &[]));

    state.process_task_update(TaskUpdate { id: 1 });
    assert!(matches!(state.jobs()[0].status, JobStatus::Finished));
}

#[test]
fn test_task_failed_records_reason() {
    let mut state_ref = StateRef::new();
    let state = state_ref.get_mut();
    handle_request(state, submit("echo", &[]));

    state.process_task_failed(TaskFailedMessage {
        id: 1,
        info: TaskFailInfo {
            message: "command not found".to_string(),
        },
    });
    match &state.jobs()[0].status {
        JobStatus::Failed(reason) => assert_eq!(reason, &"command not found".to_string()),
        _ => panic!("expected the job to be failed"),
    }
}

#[test]
fn test_add_worker_and_get_worker_mut() {
    let mut state_ref = StateRef::new();
    let state = state_ref.get_mut();
    let worker = Worker::new(
        3,
        WorkerConfiguration {
            hostname: "node9".to_string(),
            n_cpus: 4,
        },
    );
    assert_eq!(worker.worker_id(), 3);
    assert!(worker.ended_at().is_none());
    state.add_worker(worker);

    assert!(state.get_worker_mut(3).is_some());
    assert!(state.get_worker_mut(4).is_none());
    let w = state.get_worker_mut(3).unwrap();
    w.set_offline_state(lost_date());
    assert_eq!(state.get_workers()[0].ended_at(), Some(lost_date()));
}
