//! Bootstrap protocol decisions: run-directory resolution through the
//! active symlink, liveness interpretation, the at-most-one-live-server
//! rule, and the layout of a generation directory.
//!
//! The host performs the filesystem and connection work (reading the link
//! target, loading record bytes, probing the record's address) and hands
//! the outcomes in as plain values; every decision on them is made here.

use vstd::prelude::*;
use crate::client::path_join;
use crate::datetime::{DateTime, generation_name};
use crate::error::HqError;
use crate::record::{AccessRecord, decode_access_record, dec_record};

verus! {

/// Name of the symlink at the root that points to the active generation.
pub fn symlink_path_name() -> (r: &'static str)
    ensures
        r@ == "hq-active-dir"@,
{
    "hq-active-dir"
}

/// Name of the record file inside a generation directory.
pub fn access_file_name() -> (r: &'static str)
    ensures
        r@ == "access-file"@,
{
    "access-file"
}

/// One directory that holds (or will hold) an access record.
pub struct RunDirectory {
    directory: String,
}

impl RunDirectory {
    pub closed spec fn directory_spec(&self) -> Seq<char> {
        self.directory@
    }

    pub fn new(directory: String) -> (r: RunDirectory)
        ensures
            r.directory_spec() == directory@,
    {
        RunDirectory { directory }
    }

    pub fn directory(&self) -> (r: &String)
        ensures
            r@ == self.directory_spec(),
    {
        &self.directory
    }

    /// The path of the record file in this directory.
    pub fn access_filename(&self) -> (r: String)
        ensures
            r@ == self.directory_spec() + "/"@ + "access-file"@,
    {
        path_join(&self.directory, access_file_name())
    }
}

/// What a liveness probe of a stored record found. Liveness is determined
/// solely by a live connection attempt, never by file presence alone.
pub enum ServerStatus {
    /// A record exists but its address did not answer: a stale or crashed
    /// generation, safe to start over.
    Offline(AccessRecord),
    /// A record exists and its address answered: a live server.
    Online(AccessRecord),
}

/// Resolve the directory that discovery should use: the target of the
/// active symlink when the host resolved it to an existing directory,
/// otherwise the root itself. The indirection lets a new server take over
/// discovery without client reconfiguration.
pub fn resolve_active_directory(path: String, active_target: Option<String>) -> (r: String)
    ensures
        match active_target {
            Option::Some(t) => r@ == t@,
            Option::None => r@ == path@,
        },
{
    match active_target {
        Some(t) => t,
        None => path,
    }
}

/// Interpret the loaded record file of a run directory: absent exactly when
/// the host found no file, otherwise decoded, with any malformed content a
/// discovery error (treated upstream as the absence of a record).
pub fn read_access_record_from_rundir(contents: Option<Vec<u8>>) -> (r: Result<
    AccessRecord,
    HqError,
>)
    ensures
        match contents {
            Option::Some(bytes) => match r {
                Ok(rec) => dec_record(bytes@) == Some(rec@),
                Err(e) => dec_record(bytes@) is None && e is DiscoveryError,
            },
            Option::None => r matches Err(e) && e is DiscoveryError,
        },
{
    match contents {
        Some(bytes) => decode_access_record(&bytes),
        None => Err(HqError::DiscoveryError("no access record found".to_owned())),
    }
}

/// Classify a stored record by the outcome of the connection probe against
/// its address.
pub fn server_status_from_probe(record: AccessRecord, reachable: bool) -> (r: ServerStatus)
    ensures
        reachable ==> (r matches ServerStatus::Online(rec) && rec@ == record@),
        !reachable ==> (r matches ServerStatus::Offline(rec) && rec@ == record@),
{
    if reachable {
        ServerStatus::Online(record)
    } else {
        ServerStatus::Offline(record)
    }
}

/// The singleton rule of `start`: starting is allowed exactly when no
/// record could be read (no prior generation) or the stored record's
/// address is unreachable (stale generation); a live server fails the
/// start attempt, and only that attempt, naming the root.
pub fn bootstrap_decision(rundir_path: &String, status: &Result<ServerStatus, HqError>) -> (r:
    Result<(), HqError>)
    ensures
        match status {
            Result::Err(_) => r is Ok,
            Result::Ok(ServerStatus::Offline(_)) => r is Ok,
            Result::Ok(ServerStatus::Online(_)) => r matches Err(e) && e
                is AlreadyRunningError && e.payload() == rundir_path@,
        },
{
    match status {
        Err(_) => Ok(()),
        Ok(ServerStatus::Offline(_)) => Ok(()),
        Ok(ServerStatus::Online(_)) => Err(HqError::AlreadyRunningError(rundir_path.clone())),
    }
}

/// The path of the generation directory for a server started at `start`:
/// the root joined with the start time at second granularity.
pub fn generation_dir_path(directory: &String, start: DateTime) -> (r: String)
    requires
        start.wf(),
    ensures
        r@ == directory@ + "/"@ + generation_name(start),
{
    let name = start.format_generation_name();
    path_join(directory, name.as_str())
}

} // verus!
