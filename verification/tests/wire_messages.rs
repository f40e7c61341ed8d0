//! Wire message serialization: every message kind round trips through one
//! frame payload, and malformed payloads are rejected.

use hyperqueue::datetime::DateTime;
use hyperqueue::error::HqError;
use hyperqueue::messages::{
    ArrayDef, FromClientMessage, JobInfo, JobListResponse, JobType, SubmitRequest, SubmitResponse,
    ToClientMessage, WorkerInfo, WorkerListResponse,
};
use hyperqueue::state::{JobStatus, ProgramDefinition, WorkerConfiguration};
use hyperqueue::wire::{
    decode_client_message, decode_server_message, encode_client_message, encode_server_message,
};

fn sample_request() -> FromClientMessage {
    FromClientMessage::Submit(SubmitRequest {
        job_type: JobType::Array(ArrayDef { start: 2, end: 9 }),
        name: "render".to_string(),
        submit_cwd: "/work".to_string(),
        program: ProgramDefinition {
            args: vec!["render".to_string(), "--fast".to_string()],
            env: vec![("LEVEL".to_string(), "3".to_string())],
            stdout: Some("/work/out".to_string()),
            stderr: None,
            cwd: None,
        },
    })
}

#[test]
fn test_submit_request_round_trip() {
    let bytes = encode_client_message(&sample_request());
    let back = decode_client_message(&bytes).unwrap();
    match back {
        FromClientMessage::Submit(req) => {
            assert!(matches!(req.job_type, JobType::Array(ArrayDef { start: 2, end: 9 })));
            assert_eq!(req.name, "render".to_string());
            assert_eq!(req.submit_cwd, "/work".to_string());
            assert_eq!(req.program.args, vec!["render".to_string(), "--fast".to_string()]);
            assert_eq!(req.program.env, vec![("LEVEL".to_string(), "3".to_string())]);
            assert_eq!(req.program.stdout, Some("/work/out".to_string()));
            assert_eq!(req.program.stderr, None);
            assert_eq!(req.program.cwd, None);
        }
        _ => panic!("expected a submit request"),
    }
}

#[test]
fn test_plain_request_round_trips() {
    for (msg, probe) in [
        (FromClientMessage::JobList, 1u8),
        (FromClientMessage::WorkerList, 2u8),
        (FromClientMessage::Stop, 3u8),
    ] {
        let bytes = encode_client_message(&msg);
        assert_eq!(bytes, vec![probe]);
        let back = decode_client_message(&bytes).unwrap();
        let again = encode_client_message(&back);
        assert_eq!(again, bytes);
    }
}

#[test]
fn test_response_round_trip() {
    let ended = DateTime {
        year: 2021,
        month: 12,
        day: 31,
        hour: 23,
        minute: 59,
        second: 58,
        offset_minutes: -120,
    };
    let msg = ToClientMessage::WorkerListResponse(WorkerListResponse {
        workers: vec![
            WorkerInfo {
                id: 7,
                configuration: WorkerConfiguration {
                    hostname: "node1".to_string(),
                    n_cpus: 16,
                },
                ended_at: None,
            },
            WorkerInfo {
                id: 8,
                configuration: WorkerConfiguration {
                    hostname: "node2".to_string(),
                    n_cpus: 8,
                },
                ended_at: Some(ended),
            },
        ],
    });
    let bytes = encode_server_message(&msg);
    let back = decode_server_message(&bytes).unwrap();
    match back {
        ToClientMessage::WorkerListResponse(r) => {
            assert_eq!(r.workers.len(), 2);
            assert_eq!(r.workers[0].id, 7);
            assert_eq!(r.workers[0].ended_at, None);
            assert_eq!(r.workers[1].id, 8);
            assert_eq!(r.workers[1].configuration.hostname, "node2".to_string());
            assert_eq!(r.workers[1].ended_at, Some(ended));
        }
        _ => panic!("expected a worker list response"),
    }
}

#[test]
fn test_job_list_response_round_trip() {
    let msg = ToClientMessage::JobListResponse(JobListResponse {
        jobs: vec![
            JobInfo {
                id: 1,
                name: "echo".to_string(),
                status: JobStatus::Submitted,
            },
            JobInfo {
                id: 2,
                name: "render".to_string(),
                status: JobStatus::Failed("out of memory".to_string()),
            },
        ],
    });
    let bytes = encode_server_message(&msg);
    let back = decode_server_message(&bytes).unwrap();
    match back {
        ToClientMessage::JobListResponse(r) => {
            assert_eq!(r.jobs.len(), 2);
            assert_eq!(r.jobs[0].id, 1);
            assert!(matches!(r.jobs[0].status, JobStatus::Submitted));
            assert_eq!(r.jobs[1].name, "render".to_string());
            match &r.jobs[1].status {
                JobStatus::Failed(reason) => assert_eq!(reason, &"out of memory".to_string()),
                _ => panic!("expected a failed status"),
            }
        }
        _ => panic!("expected a job list response"),
    }

    let submit = ToClientMessage::SubmitResponse(SubmitResponse {
        job: JobInfo {
            id: 5,
            name: "echo".to_string(),
            status: JobStatus::Submitted,
        },
    });
    let bytes = encode_server_message(&submit);
    match decode_server_message(&bytes).unwrap() {
        ToClientMessage::SubmitResponse(r) => assert_eq!(r.job.id, 5),
        _ => panic!("expected a submit response"),
    }
}

#[test]
fn test_malformed_frames_are_rejected() {
    assert!(matches!(
        decode_client_message(&vec![9]),
        Err(HqError::ProtocolError(_))
    ));
    assert!(matches!(
        decode_client_message(&vec![1, 0]),
        Err(HqError::ProtocolError(_))
    ));
    assert!(matches!(
        decode_server_message(&vec![]),
        Err(HqError::ProtocolError(_))
    ));
    let mut truncated = encode_client_message(&sample_request());
    truncated.pop();
    assert!(matches!(
        decode_client_message(&truncated),
        Err(HqError::ProtocolError(_))
    ));
    let mut trailing = encode_server_message(&ToClientMessage::StopAck);
    trailing.push(0);
    assert!(matches!(
        decode_server_message(&trailing),
        Err(HqError::ProtocolError(_))
    ));
}
