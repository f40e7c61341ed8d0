//! Client-side logic: name validation, request building, response
//! expectations, worker-list ordering, and global settings.

use hyperqueue::client::{
    build_submit_request, expect_submit_response, job_list_from_response, job_name_from_command,
    make_global_settings, parse_color_policy, validate_name, worker_list_from_response,
    ColorChoice, ColorPolicy, SubmitOpts,
};
use hyperqueue::error::HqError;
use hyperqueue::messages::{
    ArrayDef, JobType, ToClientMessage, WorkerInfo, WorkerListResponse,
};
use hyperqueue::state::WorkerConfiguration;

#[test]
fn test_validate_name_accepts_plain_names() {
    assert_eq!(validate_name("render-frames".to_string()).unwrap(), "render-frames".to_string());
    let forty = "a".repeat(40);
    assert_eq!(validate_name(forty.clone()).unwrap(), forty);
}

#[test]
fn test_validate_name_rejects_newline_tab_and_length() {
    assert!(matches!(
        validate_name("bad\nname".to_string()),
        Err(HqError::ConfigurationError(_))
    ));
    assert!(matches!(
        validate_name("bad\tname".to_string()),
        Err(HqError::ConfigurationError(_))
    ));
    assert!(matches!(
        validate_name("a".repeat(41)),
        Err(HqError::ConfigurationError(_))
    ));
}

#[test]
fn test_job_name_from_command() {
    assert_eq!(job_name_from_command(&"/usr/bin/prog".to_string()), "prog".to_string());
    assert_eq!(job_name_from_command(&"prog".to_string()), "prog".to_string());
    assert_eq!(job_name_from_command(&"dir/".to_string()), "job".to_string());
}

#[test]
fn test_build_submit_request() {
    let opts = SubmitOpts {
        command: "/usr/bin/echo".to_string(),
        args: vec!["a".to_string(), "b".to_string()],
        array: Some(ArrayDef { start: 1, end: 10 }),
        name: None,
    };
    let req = build_submit_request(opts, "/work".to_string()).unwrap();
    assert_eq!(req.name, "echo".to_string());
    assert!(matches!(req.job_type, JobType::Array(ArrayDef { start: 1, end: 10 })));
    assert_eq!(req.submit_cwd, "/work".to_string());
    assert_eq!(
        req.program.args,
        vec!["/usr/bin/echo".to_string(), "a".to_string(), "b".to_string()]
    );
    assert!(req.program.env.is_empty());
    assert!(req.program.cwd.is_none());
    assert_eq!(req.program.stdout, Some("/work/stdout.%{JOB_ID}.%{TASK_ID}".to_string()));
    assert_eq!(req.program.stderr, Some("/work/stderr.%{JOB_ID}.%{TASK_ID}".to_string()));
}

#[test]
fn test_build_submit_request_rejects_bad_name() {
    let opts = SubmitOpts {
        command: "echo".to_string(),
        args: vec![],
        array: None,
        name: Some("with\ttab".to_string()),
    };
    assert!(matches!(
        build_submit_request(opts, "/work".to_string()),
        Err(HqError::ConfigurationError(_))
    ));
}

fn worker(id: u64) -> WorkerInfo {
    WorkerInfo {
        id,
        configuration: WorkerConfiguration {
            hostname: format!("node{}", id),
            n_cpus: 8,
        },
        ended_at: None,
    }
}

#[test]
fn test_worker_list_is_sorted_by_id() {
    let msg = ToClientMessage::WorkerListResponse(WorkerListResponse {
        workers: vec![worker(3), worker(1), worker(2)],
    });
    let list = worker_list_from_response(msg).unwrap();
    let ids: Vec<u64> = list.iter().map(|w| w.id).collect();
    assert_eq!(ids, vec![1, 2, 3]);
    assert_eq!(list[0].configuration.hostname, "node1".to_string());
}

#[test]
fn test_unexpected_response_is_protocol_error() {
    assert!(matches!(
        worker_list_from_response(ToClientMessage::StopAck),
        Err(HqError::ProtocolError(_))
    ));
    assert!(matches!(
        expect_submit_response(ToClientMessage::StopAck),
        Err(HqError::ProtocolError(_))
    ));
    assert!(matches!(
        job_list_from_response(ToClientMessage::StopAck),
        Err(HqError::ProtocolError(_))
    ));
}

#[test]
fn test_parse_color_policy() {
    assert!(matches!(parse_color_policy("auto"), Ok(ColorPolicy::Auto)));
    assert!(matches!(parse_color_policy("always"), Ok(ColorPolicy::Always)));
    assert!(matches!(parse_color_policy("never"), Ok(ColorPolicy::Never)));
    assert!(matches!(parse_color_policy("sometimes"), Err(HqError::GenericError(_))));
}

#[test]
fn test_make_global_settings() {
    let s = make_global_settings(
        Some("/explicit".to_string()),
        "/default".to_string(),
        ColorPolicy::Auto,
        true,
    );
    assert_eq!(s.server_directory(), &"/explicit".to_string());
    assert_eq!(s.color_policy(), ColorChoice::Auto);

    let s = make_global_settings(None, "/default".to_string(), ColorPolicy::Auto, false);
    assert_eq!(s.server_directory(), &"/default".to_string());
    assert_eq!(s.color_policy(), ColorChoice::Never);

    let s = make_global_settings(None, "/default".to_string(), ColorPolicy::Always, false);
    assert_eq!(s.color_policy(), ColorChoice::AlwaysAnsi);
}

#[test]
fn test_codec_primitives() {
    let mut buf: Vec<u8> = Vec::new();
    hyperqueue::codec::put_u64(&mut buf, 0x1122334455667788);
    hyperqueue::codec::put_string(&mut buf, &"hi".to_string());
    let (x, p) = hyperqueue::codec::take_u64(&buf, 0).unwrap();
    assert_eq!(x, 0x1122334455667788);
    let (s, p2) = hyperqueue::codec::take_string(&buf, p).unwrap();
    assert_eq!(s, "hi".to_string());
    assert_eq!(p2, buf.len());
    assert!(matches!(
        hyperqueue::codec::take_u64(&buf, buf.len() - 4),
        Err(HqError::ProtocolError(_))
    ));
}
