//! Bootstrap protocol: record round trips, liveness interpretation, and
//! the at-most-one-live-server rule.

use hyperqueue::datetime::DateTime;
use hyperqueue::error::HqError;
use hyperqueue::record::{decode_access_record, encode_access_record, AccessRecord};
use hyperqueue::rundir::{
    bootstrap_decision, read_access_record_from_rundir, resolve_active_directory,
    server_status_from_probe, RunDirectory, ServerStatus,
};

fn sample_date() -> DateTime {
    DateTime {
        year: 2021,
        month: 1,
        day: 2,
        hour: 3,
        minute: 4,
        second: 5,
        offset_minutes: 60,
    }
}

fn sample_record() -> AccessRecord {
    AccessRecord::new(
        "foo".to_string(),
        1234,
        42,
        43,
        vec![7, 0, 255, 1],
        vec![9, 9, 9],
        sample_date(),
        "0.1.0".to_string(),
    )
}

#[test]
fn test_access_record_round_trip() {
    let record = sample_record();
    let bytes = encode_access_record(&record);
    let back = decode_access_record(&bytes).unwrap();
    assert_eq!(back.hostname(), &"foo".to_string());
    assert_eq!(back.pid(), 1234);
    assert_eq!(back.server_port(), 42);
    assert_eq!(back.worker_port(), 43);
    assert_eq!(back.hq_secret_key(), &vec![7, 0, 255, 1]);
    assert_eq!(back.tako_secret_key(), &vec![9, 9, 9]);
    assert_eq!(back.start_date(), sample_date());
    assert_eq!(back.version(), &"0.1.0".to_string());
}

#[test]
fn test_access_record_rejects_truncated() {
    let record = sample_record();
    let mut bytes = encode_access_record(&record);
    bytes.pop();
    let r = decode_access_record(&bytes);
    assert!(matches!(r, Err(HqError::DiscoveryError(_))));
}

#[test]
fn test_access_record_rejects_trailing_bytes() {
    let record = sample_record();
    let mut bytes = encode_access_record(&record);
    bytes.push(0);
    let r = decode_access_record(&bytes);
    assert!(matches!(r, Err(HqError::DiscoveryError(_))));
}

#[test]
fn test_generation_name_format() {
    let name = sample_date().format_generation_name();
    assert_eq!(name, "2021-01-02-03-04-05".to_string());
}

#[test]
fn test_no_record_is_discovery_error() {
    let r = read_access_record_from_rundir(None);
    assert!(matches!(r, Err(HqError::DiscoveryError(_))));
}

#[test]
fn test_stored_record_unreachable_is_offline() {
    let record = sample_record();
    let bytes = encode_access_record(&record);
    let loaded = read_access_record_from_rundir(Some(bytes)).unwrap();
    let status = server_status_from_probe(loaded, false);
    assert!(matches!(status, ServerStatus::Offline(_)));
}

#[test]
fn test_start_allowed_on_fresh_root() {
    let root = "/tmp/foo".to_string();
    let status: Result<ServerStatus, HqError> =
        Err(HqError::DiscoveryError("no access record found".to_string()));
    assert!(bootstrap_decision(&root, &status).is_ok());
}

#[test]
fn test_start_allowed_on_offline_record() {
    let root = "/tmp/foo".to_string();
    let status = Ok(server_status_from_probe(sample_record(), false));
    assert!(bootstrap_decision(&root, &status).is_ok());
}

#[test]
fn test_start_refused_on_online_record() {
    let root = "/tmp/foo".to_string();
    let status = Ok(server_status_from_probe(sample_record(), true));
    let r = bootstrap_decision(&root, &status);
    match r {
        Err(HqError::AlreadyRunningError(at)) => assert_eq!(at, "/tmp/foo".to_string()),
        _ => panic!("expected the already-running error"),
    }
    let msg = HqError::AlreadyRunningError(root).message();
    assert_eq!(msg, "server already running at /tmp/foo".to_string());
}

#[test]
fn test_resolve_active_directory() {
    let r = resolve_active_directory("/root/dir".to_string(), Some("/data/gen".to_string()));
    assert_eq!(r, "/data/gen".to_string());
    let r = resolve_active_directory("/root/dir".to_string(), None);
    assert_eq!(r, "/root/dir".to_string());
}

#[test]
fn test_rundir_layout() {
    let rundir = RunDirectory::new("/tmp/foo".to_string());
    assert_eq!(rundir.directory(), &"/tmp/foo".to_string());
    assert_eq!(rundir.access_filename(), "/tmp/foo/access-file".to_string());
    let gen = hyperqueue::rundir::generation_dir_path(&"/tmp/foo".to_string(), sample_date());
    assert_eq!(gen, "/tmp/foo/2021-01-02-03-04-05".to_string());
}
