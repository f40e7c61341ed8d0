//! Client-side logic: submit-request construction with job-name
//! validation, response expectation checks (each call expects exactly one
//! response kind), stable ordering of worker listings, and the global CLI
//! settings decisions.

use vstd::prelude::*;
use vstd::utf8::{encode_utf8, valid_utf8};
use crate::error::HqError;
use crate::messages::{
    ArrayDef, JobInfo, JobType, SubmitRequest, SubmitResponse, ToClientMessage, WorkerInfo,
};
use crate::state::ProgramDefinition;
use crate::codec::utf8_to_string;

verus! {

// ---------------------------------------------------------------------------
// Job names
// ---------------------------------------------------------------------------

/// A job name is acceptable when it is at most 40 bytes long and carries
/// neither a newline nor a tab.
pub open spec fn valid_job_name(b: Seq<u8>) -> bool {
    &&& b.len() <= 40
    &&& forall|i: int| 0 <= i < b.len() ==> b[i] != 10 && b[i] != 9
}

/// Accept a job name or reject it with a configuration error: rejected
/// exactly when it holds a newline or a tab or runs over 40 bytes.
pub fn validate_name(name: String) -> (r: Result<String, HqError>)
    ensures
        match r {
            Ok(n) => n@ == name@ && valid_job_name(encode_utf8(name@)),
            Err(e) => e is ConfigurationError && !valid_job_name(encode_utf8(name@)),
        },
{
    let b = name.as_str().as_bytes();
    let mut i: usize = 0;
    while i < b.len()
        invariant
            i <= b@.len(),
            b@ == encode_utf8(name@),
            forall|k: int| 0 <= k < i ==> b@[k] != 10 && b@[k] != 9,
        decreases b@.len() - i,
    {
        if b[i] == 10 || b[i] == 9 {
            return Err(
                HqError::ConfigurationError("name cannot have a newline or a tab".to_owned()),
            );
        }
        i = i + 1;
    }
    if b.len() > 40 {
        return Err(
            HqError::ConfigurationError("name cannot be more than 40 characters".to_owned()),
        );
    }
    Ok(name)
}

/// The bytes after the last path separator: empty when the input ends in a
/// separator, the whole input when it has none.
pub open spec fn tail_after_slash(b: Seq<u8>) -> Seq<u8>
    decreases b.len(),
{
    if b.len() == 0 {
        b
    } else if b.last() == 47 {
        Seq::<u8>::empty()
    } else {
        tail_after_slash(b.drop_last()).push(b.last())
    }
}

proof fn lemma_tail_no_slash(b: Seq<u8>)
    requires
        forall|i: int| 0 <= i < b.len() ==> b[i] != 47,
    ensures
        tail_after_slash(b) == b,
    decreases b.len(),
{
    if b.len() > 0 {
        lemma_tail_no_slash(b.drop_last());
        assert(tail_after_slash(b) =~= b);
    }
}

proof fn lemma_tail_at_slash(b: Seq<u8>, k: int)
    requires
        0 <= k < b.len(),
        b[k] == 47,
        forall|i: int| k < i < b.len() ==> b[i] != 47,
    ensures
        tail_after_slash(b) == b.subrange(k + 1, b.len() as int),
    decreases b.len(),
{
    if k == b.len() - 1 {
        assert(tail_after_slash(b) =~= b.subrange(k + 1, b.len() as int));
    } else {
        lemma_tail_at_slash(b.drop_last(), k);
        assert(tail_after_slash(b) =~= b.subrange(k + 1, b.len() as int));
    }
}

/// The default job name for a command: the text after the last path
/// separator, or `job` when that is empty (or, for a command that is not
/// valid UTF-8 past the separator, which a `String` input never produces).
pub fn job_name_from_command(command: &String) -> (r: String)
    ensures
        ({
            let tail = tail_after_slash(encode_utf8(command@));
            if tail.len() == 0 {
                r@ == "job"@
            } else if valid_utf8(tail) {
                encode_utf8(r@) == tail
            } else {
                r@ == "job"@
            }
        }),
{
    let b = command.as_str().as_bytes_vec();
    let ghost bs = b@;
    let n = b.len();
    let mut last: usize = n;
    let mut i: usize = 0;
    while i < n
        invariant
            i <= n,
            n == b@.len(),
            b@ == bs,
            last <= n,
            last == n ==> forall|t: int| 0 <= t < i ==> bs[t] != 47,
            last < n ==> last < i && bs[last as int] == 47 && (forall|t: int|
                last < t < i ==> bs[t] != 47),
        decreases n - i,
    {
        if b[i] == 47 {
            last = i;
        }
        i = i + 1;
    }
    let k: usize = if last == n {
        0
    } else {
        last + 1
    };
    proof {
        if last == n {
            lemma_tail_no_slash(bs);
        } else {
            lemma_tail_at_slash(bs, last as int);
        }
    }
    let tail = vstd::slice::slice_to_vec(vstd::slice::slice_subrange(b.as_slice(), k, n));
    proof {
        assert(bs == encode_utf8(command@));
        assert(tail@ == bs.subrange(k as int, n as int));
        assert(tail@ == tail_after_slash(bs));
    }
    if tail.len() == 0 {
        "job".to_owned()
    } else {
        match utf8_to_string(tail) {
            Some(s) => s,
            None => "job".to_owned(),
        }
    }
}

// ---------------------------------------------------------------------------
// Submit requests
// ---------------------------------------------------------------------------

/// Options of one submit invocation, as collected from the command line.
pub struct SubmitOpts {
    pub command: String,
    pub args: Vec<String>,
    pub array: Option<ArrayDef>,
    pub name: Option<String>,
}

/// The name a submit request carries: the validated explicit name when one
/// was given, else the command's file name.
pub fn job_name_for(name: Option<String>, command: &String) -> (r: Result<String, HqError>)
    ensures
        match name {
            Option::Some(n) => match r {
                Ok(s) => s@ == n@ && valid_job_name(encode_utf8(n@)),
                Err(e) => e is ConfigurationError && !valid_job_name(encode_utf8(n@)),
            },
            Option::None => r is Ok,
        },
{
    match name {
        Some(n) => validate_name(n),
        None => Ok(job_name_from_command(command)),
    }
}

/// `dir` and `name` joined by one path separator.
pub fn path_join(dir: &String, name: &str) -> (r: String)
    ensures
        r@ == dir@ + "/"@ + name@,
{
    let mut r = dir.clone();
    r.append("/");
    r.append(name);
    r
}

/// Build the submit request for one invocation: the command becomes the
/// first argument, the job type follows the array option, and stdout and
/// stderr are redirected into the submission directory under names carrying
/// job- and task-id placeholders. Fails exactly when an explicit job name
/// is rejected.
pub fn build_submit_request(opts: SubmitOpts, submit_cwd: String) -> (r: Result<
    SubmitRequest,
    HqError,
>)
    ensures
        match r {
            Ok(req) => {
                &&& req@.job_type == (match opts.array {
                    Option::Some(a) => JobType::Array(a),
                    Option::None => JobType::Simple,
                })
                &&& req@.submit_cwd == submit_cwd@
                &&& req@.program.args == Seq::new(
                    opts.args@.len() + 1,
                    |i: int|
                        if i == 0 {
                            opts.command@
                        } else {
                            opts.args@[i - 1]@
                        },
                )
                &&& req@.program.env.len() == 0
                &&& req@.program.stdout == Option::Some(
                    submit_cwd@ + "/"@ + "stdout.%{JOB_ID}.%{TASK_ID}"@,
                )
                &&& req@.program.stderr == Option::Some(
                    submit_cwd@ + "/"@ + "stderr.%{JOB_ID}.%{TASK_ID}"@,
                )
                &&& req@.program.cwd is None
                &&& (opts.name matches Option::Some(n) ==> req@.name == n@ && valid_job_name(
                    encode_utf8(n@),
                ))
            },
            Err(e) => {
                &&& e is ConfigurationError
                &&& (opts.name matches Option::Some(n) && !valid_job_name(encode_utf8(n@)))
            },
        },
{
    let SubmitOpts { command, mut args, array, name } = opts;
    let job_name = match job_name_for(name, &command) {
        Ok(n) => n,
        Err(e) => {
            return Err(e);
        },
    };
    let job_type = match array {
        Some(a) => JobType::Array(a),
        None => JobType::Simple,
    };
    let stdout = path_join(&submit_cwd, "stdout.%{JOB_ID}.%{TASK_ID}");
    let stderr = path_join(&submit_cwd, "stderr.%{JOB_ID}.%{TASK_ID}");
    args.insert(0, command);
    let ghost argsv = args@;
    let program = ProgramDefinition {
        args,
        env: Vec::new(),
        stdout: Some(stdout),
        stderr: Some(stderr),
        cwd: None,
    };
    proof {
        assert(program@.args =~= Seq::new(
            argsv.len() as nat,
            |i: int| argsv[i]@,
        ));
        assert(program@.env =~= Seq::<(Seq<char>, Seq<char>)>::empty());
    }
    Ok(SubmitRequest { job_type, name: job_name, submit_cwd, program })
}

// ---------------------------------------------------------------------------
// Responses
// ---------------------------------------------------------------------------

/// Unwrap the response to a submit; any other kind is a protocol violation,
/// fatal to this call only.
pub fn expect_submit_response(msg: ToClientMessage) -> (r: Result<SubmitResponse, HqError>)
    ensures
        match msg {
            ToClientMessage::SubmitResponse(resp) => r matches Ok(got) && got == resp,
            _ => r matches Err(e) && e is ProtocolError,
        },
{
    match msg {
        ToClientMessage::SubmitResponse(resp) => Ok(resp),
        _ => Err(HqError::ProtocolError("received an invalid message".to_owned())),
    }
}

/// Unwrap the response to a job-list request.
pub fn job_list_from_response(msg: ToClientMessage) -> (r: Result<Vec<JobInfo>, HqError>)
    ensures
        match msg {
            ToClientMessage::JobListResponse(resp) => r matches Ok(got) && got@ == resp.jobs@,
            _ => r matches Err(e) && e is ProtocolError,
        },
{
    match msg {
        ToClientMessage::JobListResponse(resp) => Ok(resp.jobs),
        _ => Err(HqError::ProtocolError("received an invalid message".to_owned())),
    }
}

/// Worker rows are displayed in ascending id order.
pub open spec fn sorted_by_id(ws: Seq<WorkerInfo>) -> bool {
    forall|i: int, j: int| 0 <= i < j < ws.len() ==> #[trigger] ws[i].id <= #[trigger] ws[j].id
}

/// Sort worker rows by id. The result holds exactly the input rows.
pub fn sort_workers_by_id(ws: Vec<WorkerInfo>) -> (r: Vec<WorkerInfo>)
    ensures
        r@.to_multiset() == ws@.to_multiset(),
        sorted_by_id(r@),
{
    broadcast use vstd::seq_lib::group_to_multiset_ensures, vstd::multiset::group_multiset_axioms;

    let ghost orig = ws@;
    let mut src = ws;
    let mut out: Vec<WorkerInfo> = Vec::new();
    while src.len() > 0
        invariant
            out@.to_multiset().add(src@.to_multiset()) =~= orig.to_multiset(),
            sorted_by_id(out@),
            forall|i: int, j: int|
                0 <= i < out@.len() && 0 <= j < src@.len() ==> #[trigger] out@[i].id
                    <= #[trigger] src@[j].id,
        decreases src.len(),
    {
        let mut m: usize = 0;
        let mut k: usize = 1;
        while k < src.len()
            invariant
                src@.len() > 0,
                m < k,
                k <= src@.len(),
                forall|t: int| 0 <= t < k ==> src@[m as int].id <= #[trigger] src@[t].id,
            decreases src@.len() - k,
        {
            if src[k].id < src[m].id {
                m = k;
            }
            k = k + 1;
        }
        let ghost pre_src = src@;
        let ghost pre_out = out@;
        let x = src.remove(m);
        out.push(x);
        proof {
            broadcast use vstd::multiset::group_multiset_axioms;

            vstd::seq_lib::to_multiset_remove(pre_src, m as int);
            vstd::seq_lib::to_multiset_build(pre_out, x);
            vstd::seq_lib::to_multiset_contains(pre_src, x);
            assert(src@ == pre_src.remove(m as int));
            assert(out@ == pre_out.push(x));
            assert(pre_src[m as int] == x);
            assert(pre_src.contains(x));
            assert(pre_src.remove(m as int).to_multiset() == pre_src.to_multiset().remove(x));
            assert(pre_out.push(x).to_multiset() =~= pre_out.to_multiset().insert(x));
            assert(out@.to_multiset() == pre_out.to_multiset().insert(x));
            assert(src@.to_multiset() == pre_src.to_multiset().remove(x));
            assert(pre_src.to_multiset().count(x) > 0);
            assert forall|e: WorkerInfo|
                out@.to_multiset().add(src@.to_multiset()).count(e) == orig.to_multiset().count(
                    e,
                ) by {
                assert(pre_out.to_multiset().add(pre_src.to_multiset()).count(e)
                    == orig.to_multiset().count(e));
            }
            assert(out@.to_multiset().add(src@.to_multiset()) =~= orig.to_multiset());
        }
    }
    out
}

/// Unwrap the response to a worker-list request and sort the rows by id
/// for stable display.
pub fn worker_list_from_response(msg: ToClientMessage) -> (r: Result<Vec<WorkerInfo>, HqError>)
    ensures
        match msg {
            ToClientMessage::WorkerListResponse(resp) => r matches Ok(got) && got@.to_multiset()
                == resp.workers@.to_multiset() && sorted_by_id(got@),
            _ => r matches Err(e) && e is ProtocolError,
        },
{
    match msg {
        ToClientMessage::WorkerListResponse(resp) => Ok(sort_workers_by_id(resp.workers)),
        _ => Err(HqError::ProtocolError("received an invalid message".to_owned())),
    }
}

/// The state column of one worker row: `RUNNING` until the row went
/// offline, `OFFLINE` from then on.
pub fn worker_status_label(w: &WorkerInfo) -> (r: &'static str)
    ensures
        w.ended_at is None ==> r@ == "RUNNING"@,
        w.ended_at is Some ==> r@ == "OFFLINE"@,
{
    match w.ended_at {
        None => "RUNNING",
        Some(_) => "OFFLINE",
    }
}

// ---------------------------------------------------------------------------
// Global settings
// ---------------------------------------------------------------------------

/// Requested colour behaviour, as given on the command line.
#[derive(Clone, Copy, PartialEq, Eq, Structural, Debug)]
pub enum ColorPolicy {
    Auto,
    Always,
    Never,
}

/// The colour mode handed to the table renderer.
#[derive(Clone, Copy, PartialEq, Eq, Structural, Debug)]
pub enum ColorChoice {
    AlwaysAnsi,
    Auto,
    Never,
}

/// `a` and `b` hold the same text.
fn str_eq(a: &str, b: &str) -> (r: bool)
    ensures
        r == (a@ == b@),
{
    let sa = a.to_owned();
    let sb = b.to_owned();
    sa == sb
}

/// Parse a colour policy: exactly `auto`, `always` or `never`.
pub fn parse_color_policy(s: &str) -> (r: Result<ColorPolicy, HqError>)
    ensures
        match r {
            Ok(p) => (s@ == "auto"@ && p is Auto) || (s@ == "always"@ && p is Always) || (s@
                == "never"@ && p is Never),
            Err(e) => s@ != "auto"@ && s@ != "always"@ && s@ != "never"@ && e is GenericError,
        },
{
    if str_eq(s, "auto") {
        Ok(ColorPolicy::Auto)
    } else if str_eq(s, "always") {
        Ok(ColorPolicy::Always)
    } else if str_eq(s, "never") {
        Ok(ColorPolicy::Never)
    } else {
        Err(HqError::GenericError("Invalid color policy".to_owned()))
    }
}

impl core::str::FromStr for ColorPolicy {
    type Err = HqError;

    fn from_str(s: &str) -> Result<Self, Self::Err> {
        parse_color_policy(s)
    }
}

/// The colour mode a policy selects: `always` forces ANSI colours, `never`
/// disables them, and `auto` enables them only on a terminal.
pub open spec fn spec_color_choice(colors: ColorPolicy, stdout_is_tty: bool) -> ColorChoice {
    match colors {
        ColorPolicy::Always => ColorChoice::AlwaysAnsi,
        ColorPolicy::Auto => if stdout_is_tty {
            ColorChoice::Auto
        } else {
            ColorChoice::Never
        },
        ColorPolicy::Never => ColorChoice::Never,
    }
}

/// Settings shared by every command of one invocation.
pub struct GlobalSettings {
    server_dir: String,
    color_policy: ColorChoice,
}

impl GlobalSettings {
    pub fn new(server_dir: String, color_policy: ColorChoice) -> (r: GlobalSettings)
        ensures
            r.server_directory_spec() == server_dir@,
            r.color_policy_spec() == color_policy,
    {
        GlobalSettings { server_dir, color_policy }
    }

    pub closed spec fn server_directory_spec(&self) -> Seq<char> {
        self.server_dir@
    }

    pub closed spec fn color_policy_spec(&self) -> ColorChoice {
        self.color_policy
    }

    pub fn server_directory(&self) -> (r: &String)
        ensures
            r@ == self.server_directory_spec(),
    {
        &self.server_dir
    }

    pub fn color_policy(&self) -> (r: ColorChoice)
        ensures
            r == self.color_policy_spec(),
    {
        self.color_policy
    }
}

/// Combine the command-line options with the environment into the global
/// settings: the server directory is the explicit one or the default, and
/// the colour mode follows the policy and whether stdout is a terminal.
pub fn make_global_settings(
    server_dir: Option<String>,
    default_dir: String,
    colors: ColorPolicy,
    stdout_is_tty: bool,
) -> (r: GlobalSettings)
    ensures
        r.server_directory_spec() == (match server_dir {
            Option::Some(d) => d@,
            Option::None => default_dir@,
        }),
        r.color_policy_spec() == spec_color_choice(colors, stdout_is_tty),
{
    let dir = match server_dir {
        Some(d) => d,
        None => default_dir,
    };
    let choice = match colors {
        ColorPolicy::Always => ColorChoice::AlwaysAnsi,
        ColorPolicy::Auto => if stdout_is_tty {
            ColorChoice::Auto
        } else {
            ColorChoice::Never
        },
        ColorPolicy::Never => ColorChoice::Never,
    };
    GlobalSettings::new(dir, choice)
}

} // verus!
