//! Byte encoding of the wire messages. Each transport frame carries
//! exactly one complete serialized message; this module defines that
//! serialization, with a spec-level encoder and parser for every message
//! kind, and executable functions that match them exactly.

use vstd::prelude::*;
use crate::codec::{
    enc_u16, enc_u32, enc_u64, enc_string, dec_byte, dec_u32, dec_u64, dec_string,
    lemma_dec_string_prefix, lemma_dec_u32_prefix, lemma_dec_u64_prefix, put_u32, put_u64,
    put_string, take_byte, take_u32, take_u64, take_string,
};
use vstd::utf8::encode_utf8;
use crate::datetime::DateTime;
use crate::error::HqError;
use crate::messages::{
    ArrayDef, FromClientMessage, FromClientMessageModel, JobInfo, JobInfoModel, JobListResponse,
    JobType, SubmitRequest, SubmitRequestModel, SubmitResponse, ToClientMessage,
    ToClientMessageModel, WorkerInfo, WorkerInfoModel, WorkerListResponse, job_infos_model,
    worker_infos_model,
};
use crate::record::{enc_datetime, dec_datetime};
use crate::state::{
    JobStatus, JobStatusModel, ProgramDefinition, ProgramDefinitionModel, WorkerConfiguration,
};

verus! {

// ---------------------------------------------------------------------------
// Spec-level encoders
// ---------------------------------------------------------------------------

/// An optional string: an absence byte, or a presence byte and the text.
pub open spec fn enc_opt_string(o: Option<Seq<char>>) -> Seq<u8> {
    match o {
        Option::None => seq![0u8],
        Option::Some(s) => seq![1u8] + enc_string(s),
    }
}

/// The items of a string list, back to back.
pub open spec fn enc_string_items(ss: Seq<Seq<char>>) -> Seq<u8>
    decreases ss.len(),
{
    if ss.len() == 0 {
        Seq::<u8>::empty()
    } else {
        enc_string(ss[0]) + enc_string_items(ss.drop_first())
    }
}

/// A counted string list.
pub open spec fn enc_string_list(ss: Seq<Seq<char>>) -> Seq<u8> {
    enc_u64(ss.len() as u64) + enc_string_items(ss)
}

/// One environment entry: its key, then its value.
pub open spec fn enc_env_pair(p: (Seq<char>, Seq<char>)) -> Seq<u8> {
    enc_string(p.0) + enc_string(p.1)
}

/// The entries of an environment, back to back.
pub open spec fn enc_env_items(es: Seq<(Seq<char>, Seq<char>)>) -> Seq<u8>
    decreases es.len(),
{
    if es.len() == 0 {
        Seq::<u8>::empty()
    } else {
        enc_env_pair(es[0]) + enc_env_items(es.drop_first())
    }
}

/// A counted environment list.
pub open spec fn enc_env_list(es: Seq<(Seq<char>, Seq<char>)>) -> Seq<u8> {
    enc_u64(es.len() as u64) + enc_env_items(es)
}

/// A program definition: arguments, environment, and the three optional
/// paths, in order.
pub open spec fn enc_program(p: ProgramDefinitionModel) -> Seq<u8> {
    enc_string_list(p.args) + enc_env_list(p.env) + enc_opt_string(p.stdout) + enc_opt_string(
        p.stderr,
    ) + enc_opt_string(p.cwd)
}

/// A job type: a tag, and for an array job its inclusive range.
pub open spec fn enc_job_type(t: JobType) -> Seq<u8> {
    match t {
        JobType::Simple => seq![0u8],
        JobType::Array(a) => seq![1u8] + enc_u32(a.start) + enc_u32(a.end),
    }
}

/// A submit request: job type, name, submission directory, program.
pub open spec fn enc_submit_request(r: SubmitRequestModel) -> Seq<u8> {
    enc_job_type(r.job_type) + enc_string(r.name) + enc_string(r.submit_cwd) + enc_program(
        r.program,
    )
}

/// A request: a kind tag, and for a submit its payload.
pub open spec fn enc_from_client(m: FromClientMessageModel) -> Seq<u8> {
    match m {
        FromClientMessageModel::Submit(r) => seq![0u8] + enc_submit_request(r),
        FromClientMessageModel::JobList => seq![1u8],
        FromClientMessageModel::WorkerList => seq![2u8],
        FromClientMessageModel::Stop => seq![3u8],
    }
}

/// A job status: a tag, and for a failure its diagnostic text.
pub open spec fn enc_status(s: JobStatusModel) -> Seq<u8> {
    match s {
        JobStatusModel::Submitted => seq![0u8],
        JobStatusModel::Finished => seq![1u8],
        JobStatusModel::Failed(reason) => seq![2u8] + enc_string(reason),
    }
}

/// A job summary: id, name, status.
pub open spec fn enc_job_info(j: JobInfoModel) -> Seq<u8> {
    enc_u64(j.id) + enc_string(j.name) + enc_status(j.status)
}

/// The rows of a job listing, back to back.
pub open spec fn enc_job_info_items(js: Seq<JobInfoModel>) -> Seq<u8>
    decreases js.len(),
{
    if js.len() == 0 {
        Seq::<u8>::empty()
    } else {
        enc_job_info(js[0]) + enc_job_info_items(js.drop_first())
    }
}

/// An optional end time: an absence byte, or a presence byte and the date.
pub open spec fn enc_opt_datetime(o: Option<DateTime>) -> Seq<u8> {
    match o {
        Option::None => seq![0u8],
        Option::Some(d) => seq![1u8] + enc_datetime(d),
    }
}

/// A worker summary: id, hostname, cpu count, optional end time.
pub open spec fn enc_worker_info(w: WorkerInfoModel) -> Seq<u8> {
    enc_u64(w.id) + enc_string(w.configuration.hostname) + enc_u32(w.configuration.n_cpus)
        + enc_opt_datetime(w.ended_at)
}

/// The rows of a worker listing, back to back.
pub open spec fn enc_worker_info_items(ws: Seq<WorkerInfoModel>) -> Seq<u8>
    decreases ws.len(),
{
    if ws.len() == 0 {
        Seq::<u8>::empty()
    } else {
        enc_worker_info(ws[0]) + enc_worker_info_items(ws.drop_first())
    }
}

/// A response: a kind tag, then its payload; listings are counted.
pub open spec fn enc_to_client(m: ToClientMessageModel) -> Seq<u8> {
    match m {
        ToClientMessageModel::SubmitResponse(j) => seq![0u8] + enc_job_info(j),
        ToClientMessageModel::JobListResponse(js) => seq![1u8] + enc_u64(js.len() as u64)
            + enc_job_info_items(js),
        ToClientMessageModel::WorkerListResponse(ws) => seq![2u8] + enc_u64(ws.len() as u64)
            + enc_worker_info_items(ws),
        ToClientMessageModel::StopAck => seq![3u8],
    }
}

// ---------------------------------------------------------------------------
// Append lemmas for the list encoders
// ---------------------------------------------------------------------------

proof fn lemma_enc_string_items_snoc(ss: Seq<Seq<char>>, s: Seq<char>)
    ensures
        enc_string_items(ss.push(s)) == enc_string_items(ss) + enc_string(s),
    decreases ss.len(),
{
    reveal_with_fuel(enc_string_items, 3);
    if ss.len() == 0 {
        assert(ss.push(s)[0] == s);
        assert(ss.push(s).drop_first() =~= Seq::<Seq<char>>::empty());
        assert(enc_string_items(ss.push(s)) =~= enc_string_items(ss) + enc_string(s));
    } else {
        assert(ss.push(s)[0] == ss[0]);
        assert(ss.push(s).drop_first() =~= ss.drop_first().push(s));
        lemma_enc_string_items_snoc(ss.drop_first(), s);
        assert(enc_string_items(ss.push(s)) == enc_string(ss[0]) + (enc_string_items(
            ss.drop_first(),
        ) + enc_string(s)));
        vstd::seq_lib::lemma_concat_associative(
            enc_string(ss[0]),
            enc_string_items(ss.drop_first()),
            enc_string(s),
        );
    }
}

proof fn lemma_enc_env_items_snoc(es: Seq<(Seq<char>, Seq<char>)>, e: (Seq<char>, Seq<char>))
    ensures
        enc_env_items(es.push(e)) == enc_env_items(es) + enc_env_pair(e),
    decreases es.len(),
{
    reveal_with_fuel(enc_env_items, 3);
    if es.len() == 0 {
        assert(es.push(e).drop_first() =~= Seq::<(Seq<char>, Seq<char>)>::empty());
        assert(enc_env_items(es.push(e)) =~= enc_env_items(es) + enc_env_pair(e));
    } else {
        assert(es.push(e)[0] == es[0]);
        assert(es.push(e).drop_first() =~= es.drop_first().push(e));
        lemma_enc_env_items_snoc(es.drop_first(), e);
        assert(enc_env_items(es.push(e)) == enc_env_pair(es[0]) + (enc_env_items(
            es.drop_first(),
        ) + enc_env_pair(e)));
        vstd::seq_lib::lemma_concat_associative(
            enc_env_pair(es[0]),
            enc_env_items(es.drop_first()),
            enc_env_pair(e),
        );
    }
}

proof fn lemma_enc_job_info_items_snoc(js: Seq<JobInfoModel>, j: JobInfoModel)
    ensures
        enc_job_info_items(js.push(j)) == enc_job_info_items(js) + enc_job_info(j),
    decreases js.len(),
{
    reveal_with_fuel(enc_job_info_items, 3);
    if js.len() == 0 {
        assert(js.push(j).drop_first() =~= Seq::<JobInfoModel>::empty());
        assert(enc_job_info_items(js.push(j)) =~= enc_job_info_items(js) + enc_job_info(j));
    } else {
        assert(js.push(j)[0] == js[0]);
        assert(js.push(j).drop_first() =~= js.drop_first().push(j));
        lemma_enc_job_info_items_snoc(js.drop_first(), j);
        assert(enc_job_info_items(js.push(j)) == enc_job_info(js[0]) + (enc_job_info_items(
            js.drop_first(),
        ) + enc_job_info(j)));
        vstd::seq_lib::lemma_concat_associative(
            enc_job_info(js[0]),
            enc_job_info_items(js.drop_first()),
            enc_job_info(j),
        );
    }
}

proof fn lemma_enc_worker_info_items_snoc(ws: Seq<WorkerInfoModel>, w: WorkerInfoModel)
    ensures
        enc_worker_info_items(ws.push(w)) == enc_worker_info_items(ws) + enc_worker_info(w),
    decreases ws.len(),
{
    reveal_with_fuel(enc_worker_info_items, 3);
    if ws.len() == 0 {
        assert(ws.push(w).drop_first() =~= Seq::<WorkerInfoModel>::empty());
        assert(enc_worker_info_items(ws.push(w)) =~= enc_worker_info_items(ws) + enc_worker_info(
            w,
        ));
    } else {
        assert(ws.push(w)[0] == ws[0]);
        assert(ws.push(w).drop_first() =~= ws.drop_first().push(w));
        lemma_enc_worker_info_items_snoc(ws.drop_first(), w);
        assert(enc_worker_info_items(ws.push(w)) == enc_worker_info(ws[0]) + (
        enc_worker_info_items(ws.drop_first()) + enc_worker_info(w)));
        vstd::seq_lib::lemma_concat_associative(
            enc_worker_info(ws[0]),
            enc_worker_info_items(ws.drop_first()),
            enc_worker_info(w),
        );
    }
}

// ---------------------------------------------------------------------------
// Executable encoders
// ---------------------------------------------------------------------------

fn put_opt_string(out: &mut Vec<u8>, v: &Option<String>)
    ensures
        final(out)@ == old(out)@ + enc_opt_string(
            match v {
                Option::Some(s) => Option::Some(s@),
                Option::None => Option::None,
            },
        ),
{
    match v {
        None => {
            out.push(0);
            assert(final(out)@ =~= old(out)@ + seq![0u8]);
        },
        Some(s) => {
            out.push(1);
            put_string(out, s);
            assert(final(out)@ =~= old(out)@ + (seq![1u8] + enc_string(s@)));
        },
    }
}

#[verifier::rlimit(60)]
fn put_program(out: &mut Vec<u8>, p: &ProgramDefinition)
    ensures
        final(out)@ == old(out)@ + enc_program(p@),
{
    let ghost base = out@;
    put_u64(out, p.args.len() as u64);
    let mut i: usize = 0;
    while i < p.args.len()
        invariant
            i <= p.args@.len(),
            out@ == base + enc_u64(p.args@.len() as u64) + enc_string_items(p@.args.take(i as int)),
        decreases p.args@.len() - i,
    {
        let ghost done = p@.args.take(i as int);
        put_string(out, &p.args[i]);
        proof {
            lemma_enc_string_items_snoc(done, p@.args[i as int]);
            assert(p@.args.take(i + 1) =~= done.push(p@.args[i as int]));
        }
        i = i + 1;
    }
    proof {
        assert(p@.args.take(p.args@.len() as int) =~= p@.args);
    }
    let ghost base2 = out@;
    put_u64(out, p.env.len() as u64);
    let mut j: usize = 0;
    while j < p.env.len()
        invariant
            j <= p.env@.len(),
            out@ == base2 + enc_u64(p.env@.len() as u64) + enc_env_items(p@.env.take(j as int)),
        decreases p.env@.len() - j,
    {
        let ghost done = p@.env.take(j as int);
        put_string(out, &p.env[j].0);
        put_string(out, &p.env[j].1);
        proof {
            lemma_enc_env_items_snoc(done, p@.env[j as int]);
            assert(p@.env.take(j + 1) =~= done.push(p@.env[j as int]));
        }
        j = j + 1;
    }
    proof {
        assert(p@.env.take(p.env@.len() as int) =~= p@.env);
    }
    put_opt_string(out, &p.stdout);
    put_opt_string(out, &p.stderr);
    put_opt_string(out, &p.cwd);
    proof {
        assert(final(out)@ =~= old(out)@ + enc_program(p@));
    }
}

fn put_job_type(out: &mut Vec<u8>, t: &JobType)
    ensures
        final(out)@ == old(out)@ + enc_job_type(*t),
{
    match t {
        JobType::Simple => {
            out.push(0);
            assert(final(out)@ =~= old(out)@ + seq![0u8]);
        },
        JobType::Array(a) => {
            out.push(1);
            put_u32(out, a.start);
            put_u32(out, a.end);
            assert(final(out)@ =~= old(out)@ + (seq![1u8] + enc_u32(a.start) + enc_u32(a.end)));
        },
    }
}

/// Serialize a request into one frame payload.
pub fn encode_client_message(m: &FromClientMessage) -> (out: Vec<u8>)
    ensures
        out@ == enc_from_client(m@),
{
    let mut out: Vec<u8> = Vec::new();
    match m {
        FromClientMessage::Submit(req) => {
            out.push(0);
            put_job_type(&mut out, &req.job_type);
            put_string(&mut out, &req.name);
            put_string(&mut out, &req.submit_cwd);
            put_program(&mut out, &req.program);
            assert(out@ =~= enc_from_client(m@));
        },
        FromClientMessage::JobList => {
            out.push(1);
            assert(out@ =~= enc_from_client(m@));
        },
        FromClientMessage::WorkerList => {
            out.push(2);
            assert(out@ =~= enc_from_client(m@));
        },
        FromClientMessage::Stop => {
            out.push(3);
            assert(out@ =~= enc_from_client(m@));
        },
    }
    out
}

fn put_status(out: &mut Vec<u8>, s: &JobStatus)
    ensures
        final(out)@ == old(out)@ + enc_status(s@),
{
    match s {
        JobStatus::Submitted => {
            out.push(0);
            assert(final(out)@ =~= old(out)@ + seq![0u8]);
        },
        JobStatus::Finished => {
            out.push(1);
            assert(final(out)@ =~= old(out)@ + seq![1u8]);
        },
        JobStatus::Failed(reason) => {
            out.push(2);
            put_string(out, reason);
            assert(final(out)@ =~= old(out)@ + (seq![2u8] + enc_string(reason@)));
        },
    }
}

fn put_job_info(out: &mut Vec<u8>, j: &JobInfo)
    ensures
        final(out)@ == old(out)@ + enc_job_info(j@),
{
    put_u64(out, j.id);
    put_string(out, &j.name);
    put_status(out, &j.status);
    assert(final(out)@ =~= old(out)@ + enc_job_info(j@));
}

fn put_opt_datetime(out: &mut Vec<u8>, o: &Option<DateTime>)
    requires
        o matches Some(d) ==> d.wf(),
    ensures
        final(out)@ == old(out)@ + enc_opt_datetime(*o),
{
    match o {
        None => {
            out.push(0);
            assert(final(out)@ =~= old(out)@ + seq![0u8]);
        },
        Some(d) => {
            out.push(1);
            put_datetime(out, d);
            assert(final(out)@ =~= old(out)@ + (seq![1u8] + enc_datetime(*d)));
        },
    }
}

/// Append the nine-byte encoding of a date.
fn put_datetime(out: &mut Vec<u8>, d: &DateTime)
    requires
        d.wf(),
    ensures
        final(out)@ == old(out)@ + enc_datetime(*d),
{
    crate::codec::put_u16(out, d.year);
    out.push(d.month);
    out.push(d.day);
    out.push(d.hour);
    out.push(d.minute);
    out.push(d.second);
    crate::codec::put_u16(out, (d.offset_minutes + 1440) as u16);
    assert(final(out)@ =~= old(out)@ + enc_datetime(*d));
}

fn put_worker_info(out: &mut Vec<u8>, w: &WorkerInfo)
    requires
        w.ended_at matches Some(d) ==> d.wf(),
    ensures
        final(out)@ == old(out)@ + enc_worker_info(w@),
{
    put_u64(out, w.id);
    put_string(out, &w.configuration.hostname);
    put_u32(out, w.configuration.n_cpus);
    put_opt_datetime(out, &w.ended_at);
    assert(final(out)@ =~= old(out)@ + enc_worker_info(w@));
}

/// Every end time in a listing is a calendar date; rows built by the
/// registry always satisfy this.
pub open spec fn worker_dates_wf(ws: Seq<WorkerInfo>) -> bool {
    forall|i: int|
        0 <= i < ws.len() ==> (#[trigger] ws[i].ended_at matches Some(d) ==> d.wf())
}

/// Serialize a response into one frame payload.
pub fn encode_server_message(m: &ToClientMessage) -> (out: Vec<u8>)
    requires
        m matches ToClientMessage::WorkerListResponse(r) ==> worker_dates_wf(r.workers@),
    ensures
        out@ == enc_to_client(m@),
{
    let mut out: Vec<u8> = Vec::new();
    match m {
        ToClientMessage::SubmitResponse(r) => {
            out.push(0);
            put_job_info(&mut out, &r.job);
            assert(out@ =~= enc_to_client(m@));
        },
        ToClientMessage::JobListResponse(r) => {
            out.push(1);
            put_u64(&mut out, r.jobs.len() as u64);
            let ghost base = out@;
            let mut i: usize = 0;
            while i < r.jobs.len()
                invariant
                    i <= r.jobs@.len(),
                    out@ == base + enc_job_info_items(job_infos_model(r.jobs@).take(i as int)),
                decreases r.jobs@.len() - i,
            {
                let ghost done = job_infos_model(r.jobs@).take(i as int);
                put_job_info(&mut out, &r.jobs[i]);
                proof {
                    lemma_enc_job_info_items_snoc(done, r.jobs@[i as int]@);
                    assert(job_infos_model(r.jobs@).take(i + 1) =~= done.push(
                        r.jobs@[i as int]@,
                    ));
                }
                i = i + 1;
            }
            proof {
                assert(job_infos_model(r.jobs@).take(r.jobs@.len() as int) =~= job_infos_model(
                    r.jobs@,
                ));
                assert(out@ =~= enc_to_client(m@));
            }
        },
        ToClientMessage::WorkerListResponse(r) => {
            out.push(2);
            put_u64(&mut out, r.workers.len() as u64);
            let ghost base = out@;
            let mut i: usize = 0;
            while i < r.workers.len()
                invariant
                    i <= r.workers@.len(),
                    worker_dates_wf(r.workers@),
                    out@ == base + enc_worker_info_items(
                        worker_infos_model(r.workers@).take(i as int),
                    ),
                decreases r.workers@.len() - i,
            {
                let ghost done = worker_infos_model(r.workers@).take(i as int);
                put_worker_info(&mut out, &r.workers[i]);
                proof {
                    lemma_enc_worker_info_items_snoc(done, r.workers@[i as int]@);
                    assert(worker_infos_model(r.workers@).take(i + 1) =~= done.push(
                        r.workers@[i as int]@,
                    ));
                }
                i = i + 1;
            }
            proof {
                assert(worker_infos_model(r.workers@).take(r.workers@.len() as int)
                    =~= worker_infos_model(r.workers@));
                assert(out@ =~= enc_to_client(m@));
            }
        },
        ToClientMessage::StopAck => {
            out.push(3);
            assert(out@ =~= enc_to_client(m@));
        },
    }
    out
}


// ---------------------------------------------------------------------------
// Spec-level parsers
// ---------------------------------------------------------------------------

/// Parse an optional string at `pos`.
pub open spec fn dec_opt_string(bytes: Seq<u8>, pos: int) -> Option<(Option<Seq<char>>, int)> {
    match dec_byte(bytes, pos) {
        Option::None => Option::None,
        Option::Some((tag, p)) => if tag == 0 {
            Option::Some((Option::None, p))
        } else if tag == 1 {
            match dec_string(bytes, p) {
                Option::None => Option::None,
                Option::Some((s, q)) => Option::Some((Option::Some(s), q)),
            }
        } else {
            Option::None
        },
    }
}

/// Parse `n` strings at `pos`, back to back.
pub open spec fn dec_string_items(bytes: Seq<u8>, pos: int, n: nat) -> Option<
    (Seq<Seq<char>>, int),
>
    decreases n,
{
    if n == 0 {
        Option::Some((Seq::<Seq<char>>::empty(), pos))
    } else {
        match dec_string(bytes, pos) {
            Option::None => Option::None,
            Option::Some((s, p)) => match dec_string_items(bytes, p, (n - 1) as nat) {
                Option::None => Option::None,
                Option::Some((ss, q)) => Option::Some((seq![s] + ss, q)),
            },
        }
    }
}

/// Parse a counted string list at `pos`.
pub open spec fn dec_string_list(bytes: Seq<u8>, pos: int) -> Option<(Seq<Seq<char>>, int)> {
    match dec_u64(bytes, pos) {
        Option::None => Option::None,
        Option::Some((n, p)) => dec_string_items(bytes, p, n as nat),
    }
}

/// Parse one environment entry at `pos`.
pub open spec fn dec_env_pair(bytes: Seq<u8>, pos: int) -> Option<((Seq<char>, Seq<char>), int)> {
    match dec_string(bytes, pos) {
        Option::None => Option::None,
        Option::Some((k, p)) => match dec_string(bytes, p) {
            Option::None => Option::None,
            Option::Some((v, q)) => Option::Some(((k, v), q)),
        },
    }
}

/// Parse `n` environment entries at `pos`, back to back.
pub open spec fn dec_env_items(bytes: Seq<u8>, pos: int, n: nat) -> Option<
    (Seq<(Seq<char>, Seq<char>)>, int),
>
    decreases n,
{
    if n == 0 {
        Option::Some((Seq::<(Seq<char>, Seq<char>)>::empty(), pos))
    } else {
        match dec_env_pair(bytes, pos) {
            Option::None => Option::None,
            Option::Some((e, p)) => match dec_env_items(bytes, p, (n - 1) as nat) {
                Option::None => Option::None,
                Option::Some((es, q)) => Option::Some((seq![e] + es, q)),
            },
        }
    }
}

/// Parse a counted environment list at `pos`.
pub open spec fn dec_env_list(bytes: Seq<u8>, pos: int) -> Option<
    (Seq<(Seq<char>, Seq<char>)>, int),
> {
    match dec_u64(bytes, pos) {
        Option::None => Option::None,
        Option::Some((n, p)) => dec_env_items(bytes, p, n as nat),
    }
}

/// Parse a program definition at `pos`.
pub open spec fn dec_program(bytes: Seq<u8>, pos: int) -> Option<(ProgramDefinitionModel, int)> {
    match dec_string_list(bytes, pos) {
        Option::None => Option::None,
        Option::Some((args, p1)) => match dec_env_list(bytes, p1) {
            Option::None => Option::None,
            Option::Some((env, p2)) => match dec_opt_string(bytes, p2) {
                Option::None => Option::None,
                Option::Some((stdout, p3)) => match dec_opt_string(bytes, p3) {
                    Option::None => Option::None,
                    Option::Some((stderr, p4)) => match dec_opt_string(bytes, p4) {
                        Option::None => Option::None,
                        Option::Some((cwd, p5)) => Option::Some(
                            (ProgramDefinitionModel { args, env, stdout, stderr, cwd }, p5),
                        ),
                    },
                },
            },
        },
    }
}

/// Parse a job type at `pos`.
pub open spec fn dec_job_type(bytes: Seq<u8>, pos: int) -> Option<(JobType, int)> {
    match dec_byte(bytes, pos) {
        Option::None => Option::None,
        Option::Some((tag, p)) => if tag == 0 {
            Option::Some((JobType::Simple, p))
        } else if tag == 1 {
            match dec_u32(bytes, p) {
                Option::None => Option::None,
                Option::Some((start, p1)) => match dec_u32(bytes, p1) {
                    Option::None => Option::None,
                    Option::Some((end, p2)) => Option::Some(
                        (JobType::Array(ArrayDef { start, end }), p2),
                    ),
                },
            }
        } else {
            Option::None
        },
    }
}

/// Parse a submit request at `pos`.
pub open spec fn dec_submit_request(bytes: Seq<u8>, pos: int) -> Option<(SubmitRequestModel, int)> {
    match dec_job_type(bytes, pos) {
        Option::None => Option::None,
        Option::Some((job_type, p1)) => match dec_string(bytes, p1) {
            Option::None => Option::None,
            Option::Some((name, p2)) => match dec_string(bytes, p2) {
                Option::None => Option::None,
                Option::Some((submit_cwd, p3)) => match dec_program(bytes, p3) {
                    Option::None => Option::None,
                    Option::Some((program, p4)) => Option::Some(
                        (SubmitRequestModel { job_type, name, submit_cwd, program }, p4),
                    ),
                },
            },
        },
    }
}

/// Parse a whole request frame: one message, consumed to its end.
pub open spec fn dec_from_client(bytes: Seq<u8>) -> Option<FromClientMessageModel> {
    match dec_byte(bytes, 0) {
        Option::None => Option::None,
        Option::Some((tag, p)) => if tag == 0 {
            match dec_submit_request(bytes, p) {
                Option::None => Option::None,
                Option::Some((r, q)) => if q == bytes.len() {
                    Option::Some(FromClientMessageModel::Submit(r))
                } else {
                    Option::None
                },
            }
        } else if bytes.len() != 1 {
            Option::None
        } else if tag == 1 {
            Option::Some(FromClientMessageModel::JobList)
        } else if tag == 2 {
            Option::Some(FromClientMessageModel::WorkerList)
        } else if tag == 3 {
            Option::Some(FromClientMessageModel::Stop)
        } else {
            Option::None
        },
    }
}

/// Parse a job status at `pos`.
pub open spec fn dec_status(bytes: Seq<u8>, pos: int) -> Option<(JobStatusModel, int)> {
    match dec_byte(bytes, pos) {
        Option::None => Option::None,
        Option::Some((tag, p)) => if tag == 0 {
            Option::Some((JobStatusModel::Submitted, p))
        } else if tag == 1 {
            Option::Some((JobStatusModel::Finished, p))
        } else if tag == 2 {
            match dec_string(bytes, p) {
                Option::None => Option::None,
                Option::Some((reason, q)) => Option::Some((JobStatusModel::Failed(reason), q)),
            }
        } else {
            Option::None
        },
    }
}

/// Parse a job summary at `pos`.
pub open spec fn dec_job_info(bytes: Seq<u8>, pos: int) -> Option<(JobInfoModel, int)> {
    match dec_u64(bytes, pos) {
        Option::None => Option::None,
        Option::Some((id, p1)) => match dec_string(bytes, p1) {
            Option::None => Option::None,
            Option::Some((name, p2)) => match dec_status(bytes, p2) {
                Option::None => Option::None,
                Option::Some((status, p3)) => Option::Some(
                    (JobInfoModel { id, name, status }, p3),
                ),
            },
        },
    }
}

/// Parse `n` job summaries at `pos`, back to back.
pub open spec fn dec_job_info_items(bytes: Seq<u8>, pos: int, n: nat) -> Option<
    (Seq<JobInfoModel>, int),
>
    decreases n,
{
    if n == 0 {
        Option::Some((Seq::<JobInfoModel>::empty(), pos))
    } else {
        match dec_job_info(bytes, pos) {
            Option::None => Option::None,
            Option::Some((j, p)) => match dec_job_info_items(bytes, p, (n - 1) as nat) {
                Option::None => Option::None,
                Option::Some((js, q)) => Option::Some((seq![j] + js, q)),
            },
        }
    }
}

/// Parse an optional end time at `pos`.
pub open spec fn dec_opt_datetime(bytes: Seq<u8>, pos: int) -> Option<(Option<DateTime>, int)> {
    match dec_byte(bytes, pos) {
        Option::None => Option::None,
        Option::Some((tag, p)) => if tag == 0 {
            Option::Some((Option::None, p))
        } else if tag == 1 {
            match dec_datetime(bytes, p) {
                Option::None => Option::None,
                Option::Some((d, q)) => Option::Some((Option::Some(d), q)),
            }
        } else {
            Option::None
        },
    }
}

/// Parse a worker summary at `pos`.
pub open spec fn dec_worker_info(bytes: Seq<u8>, pos: int) -> Option<(WorkerInfoModel, int)> {
    match dec_u64(bytes, pos) {
        Option::None => Option::None,
        Option::Some((id, p1)) => match dec_string(bytes, p1) {
            Option::None => Option::None,
            Option::Some((hostname, p2)) => match dec_u32(bytes, p2) {
                Option::None => Option::None,
                Option::Some((n_cpus, p3)) => match dec_opt_datetime(bytes, p3) {
                    Option::None => Option::None,
                    Option::Some((ended_at, p4)) => Option::Some(
                        (
                            WorkerInfoModel {
                                id,
                                configuration: crate::state::WorkerConfigurationModel {
                                    hostname,
                                    n_cpus,
                                },
                                ended_at,
                            },
                            p4,
                        ),
                    ),
                },
            },
        },
    }
}

/// Parse `n` worker summaries at `pos`, back to back.
pub open spec fn dec_worker_info_items(bytes: Seq<u8>, pos: int, n: nat) -> Option<
    (Seq<WorkerInfoModel>, int),
>
    decreases n,
{
    if n == 0 {
        Option::Some((Seq::<WorkerInfoModel>::empty(), pos))
    } else {
        match dec_worker_info(bytes, pos) {
            Option::None => Option::None,
            Option::Some((w, p)) => match dec_worker_info_items(bytes, p, (n - 1) as nat) {
                Option::None => Option::None,
                Option::Some((ws, q)) => Option::Some((seq![w] + ws, q)),
            },
        }
    }
}

/// Parse a whole response frame: one message, consumed to its end.
pub open spec fn dec_to_client(bytes: Seq<u8>) -> Option<ToClientMessageModel> {
    match dec_byte(bytes, 0) {
        Option::None => Option::None,
        Option::Some((tag, p)) => if tag == 0 {
            match dec_job_info(bytes, p) {
                Option::None => Option::None,
                Option::Some((j, q)) => if q == bytes.len() {
                    Option::Some(ToClientMessageModel::SubmitResponse(j))
                } else {
                    Option::None
                },
            }
        } else if tag == 1 {
            match dec_u64(bytes, p) {
                Option::None => Option::None,
                Option::Some((n, p1)) => match dec_job_info_items(bytes, p1, n as nat) {
                    Option::None => Option::None,
                    Option::Some((js, q)) => if q == bytes.len() {
                        Option::Some(ToClientMessageModel::JobListResponse(js))
                    } else {
                        Option::None
                    },
                },
            }
        } else if tag == 2 {
            match dec_u64(bytes, p) {
                Option::None => Option::None,
                Option::Some((n, p1)) => match dec_worker_info_items(bytes, p1, n as nat) {
                    Option::None => Option::None,
                    Option::Some((ws, q)) => if q == bytes.len() {
                        Option::Some(ToClientMessageModel::WorkerListResponse(ws))
                    } else {
                        Option::None
                    },
                },
            }
        } else if tag == 3 && bytes.len() == 1 {
            Option::Some(ToClientMessageModel::StopAck)
        } else {
            Option::None
        },
    }
}


// ---------------------------------------------------------------------------
// Executable decoders: each returns exactly what the spec-level parser says.
// ---------------------------------------------------------------------------

/// View of a string sequence.
pub open spec fn strings_model(s: Seq<String>) -> Seq<Seq<char>> {
    Seq::new(s.len(), |i: int| s[i]@)
}

/// View of an environment entry sequence.
pub open spec fn env_model(s: Seq<(String, String)>) -> Seq<(Seq<char>, Seq<char>)> {
    Seq::new(s.len(), |i: int| (s[i].0@, s[i].1@))
}

fn wire_error() -> (r: HqError)
    ensures
        r is ProtocolError,
{
    HqError::ProtocolError("malformed message".to_owned())
}

/// Read an optional string; fails exactly where the spec-level parser does.
fn take_opt_string(bytes: &Vec<u8>, pos: usize) -> (r: Result<(Option<String>, usize), HqError>)
    ensures
        match r {
            Ok((v, p)) => dec_opt_string(bytes@, pos as int) == Some(
                (
                    match v {
                        Option::Some(s) => Option::Some(s@),
                        Option::None => Option::<Seq<char>>::None,
                    },
                    p as int,
                ),
            ),
            Err(e) => dec_opt_string(bytes@, pos as int) is None && e is ProtocolError,
        },
{
    let (tag, p) = match take_byte(bytes, pos) {
        Ok(v) => v,
        Err(e) => {
            return Err(e);
        },
    };
    if tag == 0 {
        Ok((None, p))
    } else if tag == 1 {
        let (s, q) = match take_string(bytes, p) {
            Ok(v) => v,
            Err(e) => {
                return Err(e);
            },
        };
        Ok((Some(s), q))
    } else {
        Err(wire_error())
    }
}

/// Read `n` strings, back to back.
fn take_string_items(bytes: &Vec<u8>, pos: usize, n: u64) -> (r: Result<
    (Vec<String>, usize),
    HqError,
>)
    ensures
        match r {
            Ok((vs, p)) => dec_string_items(bytes@, pos as int, n as nat) == Some(
                (strings_model(vs@), p as int),
            ),
            Err(e) => dec_string_items(bytes@, pos as int, n as nat) is None && e
                is ProtocolError,
        },
{
    let mut acc: Vec<String> = Vec::new();
    let mut cur: usize = pos;
    let mut i: u64 = 0;
    while i < n
        invariant
            i <= n,
            dec_string_items(bytes@, pos as int, n as nat) == (match dec_string_items(
                bytes@,
                cur as int,
                (n - i) as nat,
            ) {
                Option::None => Option::<(Seq<Seq<char>>, int)>::None,
                Option::Some((ss, q)) => Option::Some((strings_model(acc@) + ss, q)),
            }),
        decreases n - i,
    {
        let ghost pre_acc = acc@;
        let ghost rem = (n - i) as nat;
        match take_string(bytes, cur) {
            Ok((s, p)) => {
                acc.push(s);
                proof {
                    reveal_with_fuel(dec_string_items, 2);
                    assert((rem - 1) as nat == (n - (i + 1)) as nat);
                    assert(strings_model(acc@) =~= strings_model(pre_acc).push(acc@[acc@.len()
                        - 1]@));
                    let rest = dec_string_items(bytes@, p as int, (rem - 1) as nat);
                    match rest {
                        Option::None => {},
                        Option::Some((ss, q)) => {
                            vstd::seq_lib::lemma_concat_associative(
                                strings_model(pre_acc),
                                seq![acc@[acc@.len() - 1]@],
                                ss,
                            );
                            assert(strings_model(pre_acc).push(acc@[acc@.len() - 1]@)
                                =~= strings_model(pre_acc) + seq![acc@[acc@.len() - 1]@]);
                        },
                    }
                }
                cur = p;
            },
            Err(e) => {
                proof {
                    reveal_with_fuel(dec_string_items, 2);
                }
                return Err(e);
            },
        }
        i = i + 1;
    }
    proof {
        reveal_with_fuel(dec_string_items, 1);
        assert(dec_string_items(bytes@, cur as int, 0nat) == Some(
            (Seq::<Seq<char>>::empty(), cur as int),
        ));
        assert(strings_model(acc@) + Seq::<Seq<char>>::empty() =~= strings_model(acc@));
    }
    Ok((acc, cur))
}

/// Read `n` environment entries, back to back.
fn take_env_items(bytes: &Vec<u8>, pos: usize, n: u64) -> (r: Result<
    (Vec<(String, String)>, usize),
    HqError,
>)
    ensures
        match r {
            Ok((vs, p)) => dec_env_items(bytes@, pos as int, n as nat) == Some(
                (env_model(vs@), p as int),
            ),
            Err(e) => dec_env_items(bytes@, pos as int, n as nat) is None && e is ProtocolError,
        },
{
    let mut acc: Vec<(String, String)> = Vec::new();
    let mut cur: usize = pos;
    let mut i: u64 = 0;
    while i < n
        invariant
            i <= n,
            dec_env_items(bytes@, pos as int, n as nat) == (match dec_env_items(
                bytes@,
                cur as int,
                (n - i) as nat,
            ) {
                Option::None => Option::<(Seq<(Seq<char>, Seq<char>)>, int)>::None,
                Option::Some((es, q)) => Option::Some((env_model(acc@) + es, q)),
            }),
        decreases n - i,
    {
        let ghost pre_acc = acc@;
        let ghost rem = (n - i) as nat;
        let (k, p1) = match take_string(bytes, cur) {
            Ok(v) => v,
            Err(e) => {
                proof {
                    reveal_with_fuel(dec_env_items, 2);
                }
                return Err(e);
            },
        };
        let (v, p2) = match take_string(bytes, p1) {
            Ok(v) => v,
            Err(e) => {
                proof {
                    reveal_with_fuel(dec_env_items, 2);
                }
                return Err(e);
            },
        };
        acc.push((k, v));
        proof {
            reveal_with_fuel(dec_env_items, 2);
            assert((rem - 1) as nat == (n - (i + 1)) as nat);
            let e = (acc@[acc@.len() - 1].0@, acc@[acc@.len() - 1].1@);
            assert(env_model(acc@) =~= env_model(pre_acc).push(e));
            let rest = dec_env_items(bytes@, p2 as int, (rem - 1) as nat);
            match rest {
                Option::None => {},
                Option::Some((es, q)) => {
                    vstd::seq_lib::lemma_concat_associative(env_model(pre_acc), seq![e], es);
                    assert(env_model(pre_acc).push(e) =~= env_model(pre_acc) + seq![e]);
                },
            }
        }
        cur = p2;
        i = i + 1;
    }
    proof {
        reveal_with_fuel(dec_env_items, 1);
        assert(env_model(acc@) + Seq::<(Seq<char>, Seq<char>)>::empty() =~= env_model(acc@));
    }
    Ok((acc, cur))
}

/// Read a program definition; fails exactly where the spec-level parser does.
fn take_program(bytes: &Vec<u8>, pos: usize) -> (r: Result<(ProgramDefinition, usize), HqError>)
    ensures
        match r {
            Ok((p, q)) => dec_program(bytes@, pos as int) == Some((p@, q as int)),
            Err(e) => dec_program(bytes@, pos as int) is None && e is ProtocolError,
        },
{
    let (n_args, p0) = match take_u64(bytes, pos) {
        Ok(v) => v,
        Err(e) => {
            return Err(e);
        },
    };
    let (args, p1) = match take_string_items(bytes, p0, n_args) {
        Ok(v) => v,
        Err(e) => {
            return Err(e);
        },
    };
    let (n_env, p1b) = match take_u64(bytes, p1) {
        Ok(v) => v,
        Err(e) => {
            return Err(e);
        },
    };
    let (env, p2) = match take_env_items(bytes, p1b, n_env) {
        Ok(v) => v,
        Err(e) => {
            return Err(e);
        },
    };
    let (stdout, p3) = match take_opt_string(bytes, p2) {
        Ok(v) => v,
        Err(e) => {
            return Err(e);
        },
    };
    let (stderr, p4) = match take_opt_string(bytes, p3) {
        Ok(v) => v,
        Err(e) => {
            return Err(e);
        },
    };
    let (cwd, p5) = match take_opt_string(bytes, p4) {
        Ok(v) => v,
        Err(e) => {
            return Err(e);
        },
    };
    let prog = ProgramDefinition { args, env, stdout, stderr, cwd };
    proof {
        assert(prog@.args =~= strings_model(prog.args@));
        assert(prog@.env =~= env_model(prog.env@));
    }
    Ok((prog, p5))
}

/// Read a job type; fails exactly where the spec-level parser does.
fn take_job_type(bytes: &Vec<u8>, pos: usize) -> (r: Result<(JobType, usize), HqError>)
    ensures
        match r {
            Ok((t, p)) => dec_job_type(bytes@, pos as int) == Some((t, p as int)),
            Err(e) => dec_job_type(bytes@, pos as int) is None && e is ProtocolError,
        },
{
    let (tag, p) = match take_byte(bytes, pos) {
        Ok(v) => v,
        Err(e) => {
            return Err(e);
        },
    };
    if tag == 0 {
        Ok((JobType::Simple, p))
    } else if tag == 1 {
        let (start, p1) = match take_u32(bytes, p) {
            Ok(v) => v,
            Err(e) => {
                return Err(e);
            },
        };
        let (end, p2) = match take_u32(bytes, p1) {
            Ok(v) => v,
            Err(e) => {
                return Err(e);
            },
        };
        Ok((JobType::Array(ArrayDef { start, end }), p2))
    } else {
        Err(wire_error())
    }
}

/// Deserialize a request frame. Succeeds exactly when the bytes are one
/// complete request encoding.
pub fn decode_client_message(bytes: &Vec<u8>) -> (r: Result<FromClientMessage, HqError>)
    ensures
        match r {
            Ok(m) => dec_from_client(bytes@) == Some(m@),
            Err(e) => dec_from_client(bytes@) is None && e is ProtocolError,
        },
{
    let (tag, p) = match take_byte(bytes, 0) {
        Ok(v) => v,
        Err(e) => {
            return Err(e);
        },
    };
    if tag == 0 {
        let (job_type, p1) = match take_job_type(bytes, p) {
            Ok(v) => v,
            Err(e) => {
                return Err(e);
            },
        };
        let (name, p2) = match take_string(bytes, p1) {
            Ok(v) => v,
            Err(e) => {
                return Err(e);
            },
        };
        let (submit_cwd, p3) = match take_string(bytes, p2) {
            Ok(v) => v,
            Err(e) => {
                return Err(e);
            },
        };
        let (program, p4) = match take_program(bytes, p3) {
            Ok(v) => v,
            Err(e) => {
                return Err(e);
            },
        };
        if p4 == bytes.len() {
            Ok(FromClientMessage::Submit(SubmitRequest { job_type, name, submit_cwd, program }))
        } else {
            Err(wire_error())
        }
    } else if bytes.len() != 1 {
        Err(wire_error())
    } else if tag == 1 {
        Ok(FromClientMessage::JobList)
    } else if tag == 2 {
        Ok(FromClientMessage::WorkerList)
    } else if tag == 3 {
        Ok(FromClientMessage::Stop)
    } else {
        Err(wire_error())
    }
}

/// Read a job status; fails exactly where the spec-level parser does.
fn take_status(bytes: &Vec<u8>, pos: usize) -> (r: Result<(JobStatus, usize), HqError>)
    ensures
        match r {
            Ok((s, p)) => dec_status(bytes@, pos as int) == Some((s@, p as int)),
            Err(e) => dec_status(bytes@, pos as int) is None && e is ProtocolError,
        },
{
    let (tag, p) = match take_byte(bytes, pos) {
        Ok(v) => v,
        Err(e) => {
            return Err(e);
        },
    };
    if tag == 0 {
        Ok((JobStatus::Submitted, p))
    } else if tag == 1 {
        Ok((JobStatus::Finished, p))
    } else if tag == 2 {
        let (reason, q) = match take_string(bytes, p) {
            Ok(v) => v,
            Err(e) => {
                return Err(e);
            },
        };
        Ok((JobStatus::Failed(reason), q))
    } else {
        Err(wire_error())
    }
}

/// Read a job summary; fails exactly where the spec-level parser does.
fn take_job_info(bytes: &Vec<u8>, pos: usize) -> (r: Result<(JobInfo, usize), HqError>)
    ensures
        match r {
            Ok((j, p)) => dec_job_info(bytes@, pos as int) == Some((j@, p as int)),
            Err(e) => dec_job_info(bytes@, pos as int) is None && e is ProtocolError,
        },
{
    let (id, p1) = match take_u64(bytes, pos) {
        Ok(v) => v,
        Err(e) => {
            return Err(e);
        },
    };
    let (name, p2) = match take_string(bytes, p1) {
        Ok(v) => v,
        Err(e) => {
            return Err(e);
        },
    };
    let (status, p3) = match take_status(bytes, p2) {
        Ok(v) => v,
        Err(e) => {
            return Err(e);
        },
    };
    Ok((JobInfo { id, name, status }, p3))
}

/// Read `n` job summaries, back to back.
fn take_job_info_items(bytes: &Vec<u8>, pos: usize, n: u64) -> (r: Result<
    (Vec<JobInfo>, usize),
    HqError,
>)
    ensures
        match r {
            Ok((vs, p)) => dec_job_info_items(bytes@, pos as int, n as nat) == Some(
                (job_infos_model(vs@), p as int),
            ),
            Err(e) => dec_job_info_items(bytes@, pos as int, n as nat) is None && e
                is ProtocolError,
        },
{
    let mut acc: Vec<JobInfo> = Vec::new();
    let mut cur: usize = pos;
    let mut i: u64 = 0;
    while i < n
        invariant
            i <= n,
            dec_job_info_items(bytes@, pos as int, n as nat) == (match dec_job_info_items(
                bytes@,
                cur as int,
                (n - i) as nat,
            ) {
                Option::None => Option::<(Seq<JobInfoModel>, int)>::None,
                Option::Some((js, q)) => Option::Some((job_infos_model(acc@) + js, q)),
            }),
        decreases n - i,
    {
        let ghost pre_acc = acc@;
        let ghost rem = (n - i) as nat;
        match take_job_info(bytes, cur) {
            Ok((j, p)) => {
                acc.push(j);
                proof {
                    reveal_with_fuel(dec_job_info_items, 2);
                    assert((rem - 1) as nat == (n - (i + 1)) as nat);
                    assert(job_infos_model(acc@) =~= job_infos_model(pre_acc).push(
                        acc@[acc@.len() - 1]@,
                    ));
                    let rest = dec_job_info_items(bytes@, p as int, (rem - 1) as nat);
                    match rest {
                        Option::None => {},
                        Option::Some((js, q)) => {
                            vstd::seq_lib::lemma_concat_associative(
                                job_infos_model(pre_acc),
                                seq![acc@[acc@.len() - 1]@],
                                js,
                            );
                            assert(job_infos_model(pre_acc).push(acc@[acc@.len() - 1]@)
                                =~= job_infos_model(pre_acc) + seq![acc@[acc@.len() - 1]@]);
                        },
                    }
                }
                cur = p;
            },
            Err(e) => {
                proof {
                    reveal_with_fuel(dec_job_info_items, 2);
                }
                return Err(e);
            },
        }
        i = i + 1;
    }
    proof {
        reveal_with_fuel(dec_job_info_items, 1);
        assert(job_infos_model(acc@) + Seq::<JobInfoModel>::empty() =~= job_infos_model(acc@));
    }
    Ok((acc, cur))
}

/// Read an optional end time; fails exactly where the spec-level parser
/// does.
fn take_opt_datetime(bytes: &Vec<u8>, pos: usize) -> (r: Result<(Option<DateTime>, usize), HqError>)
    ensures
        match r {
            Ok((o, p)) => dec_opt_datetime(bytes@, pos as int) == Some((o, p as int)),
            Err(e) => dec_opt_datetime(bytes@, pos as int) is None && e is ProtocolError,
        },
{
    let (tag, p) = match take_byte(bytes, pos) {
        Ok(v) => v,
        Err(e) => {
            return Err(e);
        },
    };
    if tag == 0 {
        Ok((None, p))
    } else if tag == 1 {
        let (d, q) = match crate::record::take_datetime(bytes, p) {
            Ok(v) => v,
            Err(e) => {
                return Err(e);
            },
        };
        Ok((Some(d), q))
    } else {
        Err(wire_error())
    }
}

/// Read a worker summary; fails exactly where the spec-level parser does.
fn take_worker_info(bytes: &Vec<u8>, pos: usize) -> (r: Result<(WorkerInfo, usize), HqError>)
    ensures
        match r {
            Ok((w, p)) => dec_worker_info(bytes@, pos as int) == Some((w@, p as int)),
            Err(e) => dec_worker_info(bytes@, pos as int) is None && e is ProtocolError,
        },
{
    let (id, p1) = match take_u64(bytes, pos) {
        Ok(v) => v,
        Err(e) => {
            return Err(e);
        },
    };
    let (hostname, p2) = match take_string(bytes, p1) {
        Ok(v) => v,
        Err(e) => {
            return Err(e);
        },
    };
    let (n_cpus, p3) = match take_u32(bytes, p2) {
        Ok(v) => v,
        Err(e) => {
            return Err(e);
        },
    };
    let (ended_at, p4) = match take_opt_datetime(bytes, p3) {
        Ok(v) => v,
        Err(e) => {
            return Err(e);
        },
    };
    Ok((WorkerInfo { id, configuration: WorkerConfiguration { hostname, n_cpus }, ended_at }, p4))
}

/// Read `n` worker summaries, back to back.
fn take_worker_info_items(bytes: &Vec<u8>, pos: usize, n: u64) -> (r: Result<
    (Vec<WorkerInfo>, usize),
    HqError,
>)
    ensures
        match r {
            Ok((vs, p)) => dec_worker_info_items(bytes@, pos as int, n as nat) == Some(
                (worker_infos_model(vs@), p as int),
            ),
            Err(e) => dec_worker_info_items(bytes@, pos as int, n as nat) is None && e
                is ProtocolError,
        },
{
    let mut acc: Vec<WorkerInfo> = Vec::new();
    let mut cur: usize = pos;
    let mut i: u64 = 0;
    while i < n
        invariant
            i <= n,
            dec_worker_info_items(bytes@, pos as int, n as nat) == (match dec_worker_info_items(
                bytes@,
                cur as int,
                (n - i) as nat,
            ) {
                Option::None => Option::<(Seq<WorkerInfoModel>, int)>::None,
                Option::Some((ws, q)) => Option::Some((worker_infos_model(acc@) + ws, q)),
            }),
        decreases n - i,
    {
        let ghost pre_acc = acc@;
        let ghost rem = (n - i) as nat;
        match take_worker_info(bytes, cur) {
            Ok((w, p)) => {
                acc.push(w);
                proof {
                    reveal_with_fuel(dec_worker_info_items, 2);
                    assert((rem - 1) as nat == (n - (i + 1)) as nat);
                    assert(worker_infos_model(acc@) =~= worker_infos_model(pre_acc).push(
                        acc@[acc@.len() - 1]@,
                    ));
                    let rest = dec_worker_info_items(bytes@, p as int, (rem - 1) as nat);
                    match rest {
                        Option::None => {},
                        Option::Some((ws, q)) => {
                            vstd::seq_lib::lemma_concat_associative(
                                worker_infos_model(pre_acc),
                                seq![acc@[acc@.len() - 1]@],
                                ws,
                            );
                            assert(worker_infos_model(pre_acc).push(acc@[acc@.len() - 1]@)
                                =~= worker_infos_model(pre_acc) + seq![acc@[acc@.len() - 1]@]);
                        },
                    }
                }
                cur = p;
            },
            Err(e) => {
                proof {
                    reveal_with_fuel(dec_worker_info_items, 2);
                }
                return Err(e);
            },
        }
        i = i + 1;
    }
    proof {
        reveal_with_fuel(dec_worker_info_items, 1);
        assert(worker_infos_model(acc@) + Seq::<WorkerInfoModel>::empty() =~= worker_infos_model(
            acc@,
        ));
    }
    Ok((acc, cur))
}

/// Deserialize a response frame. Succeeds exactly when the bytes are one
/// complete response encoding.
pub fn decode_server_message(bytes: &Vec<u8>) -> (r: Result<ToClientMessage, HqError>)
    ensures
        match r {
            Ok(m) => dec_to_client(bytes@) == Some(m@),
            Err(e) => dec_to_client(bytes@) is None && e is ProtocolError,
        },
{
    let (tag, p) = match take_byte(bytes, 0) {
        Ok(v) => v,
        Err(e) => {
            return Err(e);
        },
    };
    if tag == 0 {
        let (job, q) = match take_job_info(bytes, p) {
            Ok(v) => v,
            Err(e) => {
                return Err(e);
            },
        };
        if q == bytes.len() {
            Ok(ToClientMessage::SubmitResponse(SubmitResponse { job }))
        } else {
            Err(wire_error())
        }
    } else if tag == 1 {
        let (n, p1) = match take_u64(bytes, p) {
            Ok(v) => v,
            Err(e) => {
                return Err(e);
            },
        };
        let (jobs, q) = match take_job_info_items(bytes, p1, n) {
            Ok(v) => v,
            Err(e) => {
                return Err(e);
            },
        };
        if q == bytes.len() {
            Ok(ToClientMessage::JobListResponse(JobListResponse { jobs }))
        } else {
            Err(wire_error())
        }
    } else if tag == 2 {
        let (n, p1) = match take_u64(bytes, p) {
            Ok(v) => v,
            Err(e) => {
                return Err(e);
            },
        };
        let (workers, q) = match take_worker_info_items(bytes, p1, n) {
            Ok(v) => v,
            Err(e) => {
                return Err(e);
            },
        };
        if q == bytes.len() {
            Ok(ToClientMessage::WorkerListResponse(WorkerListResponse { workers }))
        } else {
            Err(wire_error())
        }
    } else if tag == 3 {
        if bytes.len() == 1 {
            Ok(ToClientMessage::StopAck)
        } else {
            Err(wire_error())
        }
    } else {
        Err(wire_error())
    }
}


// ---------------------------------------------------------------------------
// Round trip: parsing inverts encoding for every message kind
// ---------------------------------------------------------------------------

/// The text fits its length prefix; text held in a `String` always does.
pub open spec fn text_fits(s: Seq<char>) -> bool {
    encode_utf8(s).len() <= u64::MAX
}

/// Every variable-length field of a program fits its length prefix.
pub open spec fn wf_program_model(p: ProgramDefinitionModel) -> bool {
    &&& p.args.len() <= u64::MAX
    &&& forall|k: int| 0 <= k < p.args.len() ==> text_fits(#[trigger] p.args[k])
    &&& p.env.len() <= u64::MAX
    &&& forall|k: int|
        0 <= k < p.env.len() ==> text_fits(#[trigger] p.env[k].0) && text_fits(p.env[k].1)
    &&& (p.stdout matches Some(t) ==> text_fits(t))
    &&& (p.stderr matches Some(t) ==> text_fits(t))
    &&& (p.cwd matches Some(t) ==> text_fits(t))
}

/// Every variable-length field of a submit request fits its length prefix.
pub open spec fn wf_submit_model(r: SubmitRequestModel) -> bool {
    &&& text_fits(r.name)
    &&& text_fits(r.submit_cwd)
    &&& wf_program_model(r.program)
}

/// Every variable-length field of a request fits its length prefix.
pub open spec fn wf_from_client_model(m: FromClientMessageModel) -> bool {
    match m {
        FromClientMessageModel::Submit(r) => wf_submit_model(r),
        _ => true,
    }
}

/// Every variable-length field of a job summary fits its length prefix.
pub open spec fn wf_job_info_model(j: JobInfoModel) -> bool {
    &&& text_fits(j.name)
    &&& (j.status matches JobStatusModel::Failed(reason) ==> text_fits(reason))
}

/// The fields of a worker summary fit the encoding: text within its length
/// prefix, and the end time a calendar date.
pub open spec fn wf_worker_info_model(w: WorkerInfoModel) -> bool {
    &&& text_fits(w.configuration.hostname)
    &&& (w.ended_at matches Some(d) ==> d.wf())
}

/// Every variable-length field of a response fits its encoding.
pub open spec fn wf_to_client_model(m: ToClientMessageModel) -> bool {
    match m {
        ToClientMessageModel::SubmitResponse(j) => wf_job_info_model(j),
        ToClientMessageModel::JobListResponse(js) => js.len() <= u64::MAX && (forall|k: int|
            0 <= k < js.len() ==> wf_job_info_model(#[trigger] js[k])),
        ToClientMessageModel::WorkerListResponse(ws) => ws.len() <= u64::MAX && (forall|k: int|
            0 <= k < ws.len() ==> wf_worker_info_model(#[trigger] ws[k])),
        ToClientMessageModel::StopAck => true,
    }
}

/// A window into a larger buffer indexes the buffer at a shifted position.
proof fn lemma_shift_subrange(bytes: Seq<u8>, pos: int, len: int, o1: int, o2: int)
    requires
        0 <= pos,
        pos + len <= bytes.len(),
        0 <= o1 <= o2 <= len,
    ensures
        bytes.subrange(pos + o1, pos + o2) == bytes.subrange(pos, pos + len).subrange(o1, o2),
{
    assert(bytes.subrange(pos + o1, pos + o2) =~= bytes.subrange(pos, pos + len).subrange(
        o1,
        o2,
    ));
}

proof fn lemma_dec_opt_string_prefix(bytes: Seq<u8>, pos: int, o: Option<Seq<char>>)
    requires
        (o matches Some(s) ==> text_fits(s)),
        0 <= pos,
        pos + enc_opt_string(o).len() <= bytes.len(),
        bytes.subrange(pos, pos + enc_opt_string(o).len()) == enc_opt_string(o),
    ensures
        dec_opt_string(bytes, pos) == Some((o, pos + enc_opt_string(o).len())),
{
    let len = enc_opt_string(o).len() as int;
    let whole = bytes.subrange(pos, pos + len);
    assert(bytes[pos] == whole[0]);
    match o {
        Option::None => {
            assert(whole[0] == 0u8);
        },
        Option::Some(s) => {
            vstd::bytes::lemma_auto_spec_u64_to_from_le_bytes();
            let e = enc_string(s);
            assert(e.len() == 8 + encode_utf8(s).len());
            assert(whole[0] == 1u8);
            assert(whole.subrange(1, 1 + e.len() as int) =~= e);
            lemma_shift_subrange(bytes, pos, len, 1, 1 + e.len() as int);
            lemma_dec_string_prefix(bytes, pos + 1, s);
        },
    }
}

proof fn lemma_dec_string_items_prefix(bytes: Seq<u8>, pos: int, ss: Seq<Seq<char>>)
    requires
        forall|k: int| 0 <= k < ss.len() ==> text_fits(#[trigger] ss[k]),
        0 <= pos,
        pos + enc_string_items(ss).len() <= bytes.len(),
        bytes.subrange(pos, pos + enc_string_items(ss).len()) == enc_string_items(ss),
    ensures
        dec_string_items(bytes, pos, ss.len() as nat) == Some(
            (ss, pos + enc_string_items(ss).len()),
        ),
    decreases ss.len(),
{
    if ss.len() == 0 {
    } else {
        vstd::bytes::lemma_auto_spec_u64_to_from_le_bytes();
        let len = enc_string_items(ss).len() as int;
        let whole = bytes.subrange(pos, pos + len);
        let s0 = ss[0];
        let e0 = enc_string(s0);
        let rest = enc_string_items(ss.drop_first());
        assert(e0.len() == 8 + encode_utf8(s0).len());
        assert(whole.subrange(0, e0.len() as int) =~= e0);
        lemma_shift_subrange(bytes, pos, len, 0, e0.len() as int);
        lemma_dec_string_prefix(bytes, pos, s0);
        assert(whole.subrange(e0.len() as int, len) =~= rest);
        lemma_shift_subrange(bytes, pos, len, e0.len() as int, len);
        assert forall|k: int| 0 <= k < ss.drop_first().len() implies text_fits(
            #[trigger] ss.drop_first()[k],
        ) by {
            assert(ss.drop_first()[k] == ss[k + 1]);
        }
        lemma_dec_string_items_prefix(bytes, pos + e0.len(), ss.drop_first());
        assert(seq![s0] + ss.drop_first() =~= ss);
    }
}

proof fn lemma_dec_env_pair_prefix(bytes: Seq<u8>, pos: int, e: (Seq<char>, Seq<char>))
    requires
        text_fits(e.0),
        text_fits(e.1),
        0 <= pos,
        pos + enc_env_pair(e).len() <= bytes.len(),
        bytes.subrange(pos, pos + enc_env_pair(e).len()) == enc_env_pair(e),
    ensures
        dec_env_pair(bytes, pos) == Some((e, pos + enc_env_pair(e).len())),
{
    vstd::bytes::lemma_auto_spec_u64_to_from_le_bytes();
    let len = enc_env_pair(e).len() as int;
    let whole = bytes.subrange(pos, pos + len);
    let ek = enc_string(e.0);
    let ev = enc_string(e.1);
    assert(ek.len() == 8 + encode_utf8(e.0).len());
    assert(ev.len() == 8 + encode_utf8(e.1).len());
    assert(whole.subrange(0, ek.len() as int) =~= ek);
    lemma_shift_subrange(bytes, pos, len, 0, ek.len() as int);
    lemma_dec_string_prefix(bytes, pos, e.0);
    assert(whole.subrange(ek.len() as int, len) =~= ev);
    lemma_shift_subrange(bytes, pos, len, ek.len() as int, len);
    lemma_dec_string_prefix(bytes, pos + ek.len(), e.1);
}

proof fn lemma_dec_env_items_prefix(bytes: Seq<u8>, pos: int, es: Seq<(Seq<char>, Seq<char>)>)
    requires
        forall|k: int|
            0 <= k < es.len() ==> text_fits(#[trigger] es[k].0) && text_fits(es[k].1),
        0 <= pos,
        pos + enc_env_items(es).len() <= bytes.len(),
        bytes.subrange(pos, pos + enc_env_items(es).len()) == enc_env_items(es),
    ensures
        dec_env_items(bytes, pos, es.len() as nat) == Some((es, pos + enc_env_items(es).len())),
    decreases es.len(),
{
    if es.len() == 0 {
    } else {
        let len = enc_env_items(es).len() as int;
        let whole = bytes.subrange(pos, pos + len);
        let e0 = enc_env_pair(es[0]);
        let rest = enc_env_items(es.drop_first());
        assert(whole.subrange(0, e0.len() as int) =~= e0);
        lemma_shift_subrange(bytes, pos, len, 0, e0.len() as int);
        lemma_dec_env_pair_prefix(bytes, pos, es[0]);
        assert(whole.subrange(e0.len() as int, len) =~= rest);
        lemma_shift_subrange(bytes, pos, len, e0.len() as int, len);
        assert forall|k: int|
            0 <= k < es.drop_first().len() implies text_fits(#[trigger] es.drop_first()[k].0)
            && text_fits(es.drop_first()[k].1) by {
            assert(es.drop_first()[k] == es[k + 1]);
        }
        lemma_dec_env_items_prefix(bytes, pos + e0.len(), es.drop_first());
        assert(seq![es[0]] + es.drop_first() =~= es);
    }
}

#[verifier::rlimit(100)]
proof fn lemma_dec_program_prefix(bytes: Seq<u8>, pos: int, p: ProgramDefinitionModel)
    requires
        wf_program_model(p),
        0 <= pos,
        pos + enc_program(p).len() <= bytes.len(),
        bytes.subrange(pos, pos + enc_program(p).len()) == enc_program(p),
    ensures
        dec_program(bytes, pos) == Some((p, pos + enc_program(p).len())),
{
    vstd::bytes::lemma_auto_spec_u64_to_from_le_bytes();
    let len = enc_program(p).len() as int;
    let whole = bytes.subrange(pos, pos + len);
    let na = enc_u64(p.args.len() as u64);
    let ia = enc_string_items(p.args);
    let ne = enc_u64(p.env.len() as u64);
    let ie = enc_env_items(p.env);
    let e1 = enc_opt_string(p.stdout);
    let e2 = enc_opt_string(p.stderr);
    let e3 = enc_opt_string(p.cwd);
    assert(na.len() == 8);
    assert(ne.len() == 8);
    let o1 = 8 + ia.len() as int;
    let o2 = o1 + 8;
    let o3 = o2 + ie.len() as int;
    let o4 = o3 + e1.len() as int;
    let o5 = o4 + e2.len() as int;
    let o6 = o5 + e3.len() as int;
    assert(whole.subrange(0, 8) =~= na);
    lemma_shift_subrange(bytes, pos, len, 0, 8);
    lemma_dec_u64_prefix(bytes, pos, p.args.len() as u64);
    assert(whole.subrange(8, o1) =~= ia);
    lemma_shift_subrange(bytes, pos, len, 8, o1);
    lemma_dec_string_items_prefix(bytes, pos + 8, p.args);
    assert(whole.subrange(o1, o2) =~= ne);
    lemma_shift_subrange(bytes, pos, len, o1, o2);
    lemma_dec_u64_prefix(bytes, pos + o1, p.env.len() as u64);
    assert(whole.subrange(o2, o3) =~= ie);
    lemma_shift_subrange(bytes, pos, len, o2, o3);
    lemma_dec_env_items_prefix(bytes, pos + o2, p.env);
    assert(whole.subrange(o3, o4) =~= e1);
    lemma_shift_subrange(bytes, pos, len, o3, o4);
    lemma_dec_opt_string_prefix(bytes, pos + o3, p.stdout);
    assert(whole.subrange(o4, o5) =~= e2);
    lemma_shift_subrange(bytes, pos, len, o4, o5);
    lemma_dec_opt_string_prefix(bytes, pos + o4, p.stderr);
    assert(whole.subrange(o5, o6) =~= e3);
    lemma_shift_subrange(bytes, pos, len, o5, o6);
    lemma_dec_opt_string_prefix(bytes, pos + o5, p.cwd);
}

proof fn lemma_dec_job_type_prefix(bytes: Seq<u8>, pos: int, t: JobType)
    requires
        0 <= pos,
        pos + enc_job_type(t).len() <= bytes.len(),
        bytes.subrange(pos, pos + enc_job_type(t).len()) == enc_job_type(t),
    ensures
        dec_job_type(bytes, pos) == Some((t, pos + enc_job_type(t).len())),
{
    vstd::bytes::lemma_auto_spec_u32_to_from_le_bytes();
    let len = enc_job_type(t).len() as int;
    let whole = bytes.subrange(pos, pos + len);
    assert(bytes[pos] == whole[0]);
    match t {
        JobType::Simple => {
            assert(whole[0] == 0u8);
        },
        JobType::Array(a) => {
            assert(enc_u32(a.start).len() == 4);
            assert(enc_u32(a.end).len() == 4);
            assert(whole[0] == 1u8);
            assert(whole.subrange(1, 5) =~= enc_u32(a.start));
            lemma_shift_subrange(bytes, pos, len, 1, 5);
            lemma_dec_u32_prefix(bytes, pos + 1, a.start);
            assert(whole.subrange(5, 9) =~= enc_u32(a.end));
            lemma_shift_subrange(bytes, pos, len, 5, 9);
            lemma_dec_u32_prefix(bytes, pos + 5, a.end);
        },
    }
}

#[verifier::rlimit(100)]
proof fn lemma_dec_submit_request_prefix(bytes: Seq<u8>, pos: int, r: SubmitRequestModel)
    requires
        wf_submit_model(r),
        0 <= pos,
        pos + enc_submit_request(r).len() <= bytes.len(),
        bytes.subrange(pos, pos + enc_submit_request(r).len()) == enc_submit_request(r),
    ensures
        dec_submit_request(bytes, pos) == Some((r, pos + enc_submit_request(r).len())),
{
    vstd::bytes::lemma_auto_spec_u64_to_from_le_bytes();
    let len = enc_submit_request(r).len() as int;
    let whole = bytes.subrange(pos, pos + len);
    let et = enc_job_type(r.job_type);
    let en = enc_string(r.name);
    let ec = enc_string(r.submit_cwd);
    let ep = enc_program(r.program);
    assert(en.len() == 8 + encode_utf8(r.name).len());
    assert(ec.len() == 8 + encode_utf8(r.submit_cwd).len());
    let o1 = et.len() as int;
    let o2 = o1 + en.len() as int;
    let o3 = o2 + ec.len() as int;
    let o4 = o3 + ep.len() as int;
    assert(whole.subrange(0, o1) =~= et);
    lemma_shift_subrange(bytes, pos, len, 0, o1);
    lemma_dec_job_type_prefix(bytes, pos, r.job_type);
    assert(whole.subrange(o1, o2) =~= en);
    lemma_shift_subrange(bytes, pos, len, o1, o2);
    lemma_dec_string_prefix(bytes, pos + o1, r.name);
    assert(whole.subrange(o2, o3) =~= ec);
    lemma_shift_subrange(bytes, pos, len, o2, o3);
    lemma_dec_string_prefix(bytes, pos + o2, r.submit_cwd);
    assert(whole.subrange(o3, o4) =~= ep);
    lemma_shift_subrange(bytes, pos, len, o3, o4);
    lemma_dec_program_prefix(bytes, pos + o3, r.program);
}

/// Parsing inverts encoding for every request whose fields fit their
/// length prefixes: a request serialized into one frame payload and parsed
/// back is reproduced exactly.
pub proof fn lemma_client_message_round_trip(m: FromClientMessageModel)
    requires
        wf_from_client_model(m),
    ensures
        dec_from_client(enc_from_client(m)) == Some(m),
{
    let bytes = enc_from_client(m);
    match m {
        FromClientMessageModel::Submit(r) => {
            let er = enc_submit_request(r);
            assert(bytes == seq![0u8] + er);
            assert(bytes[0] == 0u8);
            assert(bytes.subrange(1, 1 + er.len() as int) =~= er);
            lemma_dec_submit_request_prefix(bytes, 1, r);
        },
        FromClientMessageModel::JobList => {
            assert(bytes[0] == 1u8);
        },
        FromClientMessageModel::WorkerList => {
            assert(bytes[0] == 2u8);
        },
        FromClientMessageModel::Stop => {
            assert(bytes[0] == 3u8);
        },
    }
}

proof fn lemma_dec_status_prefix(bytes: Seq<u8>, pos: int, st: JobStatusModel)
    requires
        (st matches JobStatusModel::Failed(reason) ==> text_fits(reason)),
        0 <= pos,
        pos + enc_status(st).len() <= bytes.len(),
        bytes.subrange(pos, pos + enc_status(st).len()) == enc_status(st),
    ensures
        dec_status(bytes, pos) == Some((st, pos + enc_status(st).len())),
{
    let len = enc_status(st).len() as int;
    let whole = bytes.subrange(pos, pos + len);
    assert(bytes[pos] == whole[0]);
    match st {
        JobStatusModel::Submitted => {
            assert(whole[0] == 0u8);
        },
        JobStatusModel::Finished => {
            assert(whole[0] == 1u8);
        },
        JobStatusModel::Failed(reason) => {
            vstd::bytes::lemma_auto_spec_u64_to_from_le_bytes();
            let er = enc_string(reason);
            assert(er.len() == 8 + encode_utf8(reason).len());
            assert(whole[0] == 2u8);
            assert(whole.subrange(1, 1 + er.len() as int) =~= er);
            lemma_shift_subrange(bytes, pos, len, 1, 1 + er.len() as int);
            lemma_dec_string_prefix(bytes, pos + 1, reason);
        },
    }
}

proof fn lemma_dec_job_info_prefix(bytes: Seq<u8>, pos: int, j: JobInfoModel)
    requires
        wf_job_info_model(j),
        0 <= pos,
        pos + enc_job_info(j).len() <= bytes.len(),
        bytes.subrange(pos, pos + enc_job_info(j).len()) == enc_job_info(j),
    ensures
        dec_job_info(bytes, pos) == Some((j, pos + enc_job_info(j).len())),
{
    vstd::bytes::lemma_auto_spec_u64_to_from_le_bytes();
    let len = enc_job_info(j).len() as int;
    let whole = bytes.subrange(pos, pos + len);
    let en = enc_string(j.name);
    let es = enc_status(j.status);
    assert(en.len() == 8 + encode_utf8(j.name).len());
    let o1 = 8int;
    let o2 = o1 + en.len() as int;
    let o3 = o2 + es.len() as int;
    assert(whole.subrange(0, o1) =~= enc_u64(j.id));
    lemma_shift_subrange(bytes, pos, len, 0, o1);
    lemma_dec_u64_prefix(bytes, pos, j.id);
    assert(whole.subrange(o1, o2) =~= en);
    lemma_shift_subrange(bytes, pos, len, o1, o2);
    lemma_dec_string_prefix(bytes, pos + o1, j.name);
    assert(whole.subrange(o2, o3) =~= es);
    lemma_shift_subrange(bytes, pos, len, o2, o3);
    lemma_dec_status_prefix(bytes, pos + o2, j.status);
}

proof fn lemma_dec_job_info_items_prefix(bytes: Seq<u8>, pos: int, js: Seq<JobInfoModel>)
    requires
        forall|k: int| 0 <= k < js.len() ==> wf_job_info_model(#[trigger] js[k]),
        0 <= pos,
        pos + enc_job_info_items(js).len() <= bytes.len(),
        bytes.subrange(pos, pos + enc_job_info_items(js).len()) == enc_job_info_items(js),
    ensures
        dec_job_info_items(bytes, pos, js.len() as nat) == Some(
            (js, pos + enc_job_info_items(js).len()),
        ),
    decreases js.len(),
{
    if js.len() == 0 {
    } else {
        let len = enc_job_info_items(js).len() as int;
        let whole = bytes.subrange(pos, pos + len);
        let e0 = enc_job_info(js[0]);
        let rest = enc_job_info_items(js.drop_first());
        assert(whole.subrange(0, e0.len() as int) =~= e0);
        lemma_shift_subrange(bytes, pos, len, 0, e0.len() as int);
        lemma_dec_job_info_prefix(bytes, pos, js[0]);
        assert(whole.subrange(e0.len() as int, len) =~= rest);
        lemma_shift_subrange(bytes, pos, len, e0.len() as int, len);
        assert forall|k: int| 0 <= k < js.drop_first().len() implies wf_job_info_model(
            #[trigger] js.drop_first()[k],
        ) by {
            assert(js.drop_first()[k] == js[k + 1]);
        }
        lemma_dec_job_info_items_prefix(bytes, pos + e0.len(), js.drop_first());
        assert(seq![js[0]] + js.drop_first() =~= js);
    }
}

proof fn lemma_dec_opt_datetime_prefix(bytes: Seq<u8>, pos: int, o: Option<DateTime>)
    requires
        (o matches Some(d) ==> d.wf()),
        0 <= pos,
        pos + enc_opt_datetime(o).len() <= bytes.len(),
        bytes.subrange(pos, pos + enc_opt_datetime(o).len()) == enc_opt_datetime(o),
    ensures
        dec_opt_datetime(bytes, pos) == Some((o, pos + enc_opt_datetime(o).len())),
{
    let len = enc_opt_datetime(o).len() as int;
    let whole = bytes.subrange(pos, pos + len);
    assert(bytes[pos] == whole[0]);
    match o {
        Option::None => {
            assert(whole[0] == 0u8);
        },
        Option::Some(d) => {
            vstd::bytes::lemma_auto_spec_u16_to_from_le_bytes();
            let ed = enc_datetime(d);
            assert(enc_u16(d.year).len() == 2);
            assert(enc_u16((d.offset_minutes + 1440) as u16).len() == 2);
            assert(ed.len() == 9);
            assert(whole[0] == 1u8);
            assert(whole.subrange(1, 10) =~= ed);
            lemma_shift_subrange(bytes, pos, len, 1, 10);
            crate::record::lemma_dec_datetime_prefix(bytes, pos + 1, d);
        },
    }
}

#[verifier::rlimit(100)]
proof fn lemma_dec_worker_info_prefix(bytes: Seq<u8>, pos: int, w: WorkerInfoModel)
    requires
        wf_worker_info_model(w),
        0 <= pos,
        pos + enc_worker_info(w).len() <= bytes.len(),
        bytes.subrange(pos, pos + enc_worker_info(w).len()) == enc_worker_info(w),
    ensures
        dec_worker_info(bytes, pos) == Some((w, pos + enc_worker_info(w).len())),
{
    vstd::bytes::lemma_auto_spec_u32_to_from_le_bytes();
    vstd::bytes::lemma_auto_spec_u64_to_from_le_bytes();
    let len = enc_worker_info(w).len() as int;
    let whole = bytes.subrange(pos, pos + len);
    let eh = enc_string(w.configuration.hostname);
    let ed = enc_opt_datetime(w.ended_at);
    assert(eh.len() == 8 + encode_utf8(w.configuration.hostname).len());
    assert(enc_u32(w.configuration.n_cpus).len() == 4);
    let o1 = 8int;
    let o2 = o1 + eh.len() as int;
    let o3 = o2 + 4;
    let o4 = o3 + ed.len() as int;
    assert(whole.subrange(0, o1) =~= enc_u64(w.id));
    lemma_shift_subrange(bytes, pos, len, 0, o1);
    lemma_dec_u64_prefix(bytes, pos, w.id);
    assert(whole.subrange(o1, o2) =~= eh);
    lemma_shift_subrange(bytes, pos, len, o1, o2);
    lemma_dec_string_prefix(bytes, pos + o1, w.configuration.hostname);
    assert(whole.subrange(o2, o3) =~= enc_u32(w.configuration.n_cpus));
    lemma_shift_subrange(bytes, pos, len, o2, o3);
    lemma_dec_u32_prefix(bytes, pos + o2, w.configuration.n_cpus);
    assert(whole.subrange(o3, o4) =~= ed);
    lemma_shift_subrange(bytes, pos, len, o3, o4);
    lemma_dec_opt_datetime_prefix(bytes, pos + o3, w.ended_at);
}

proof fn lemma_dec_worker_info_items_prefix(bytes: Seq<u8>, pos: int, ws: Seq<WorkerInfoModel>)
    requires
        forall|k: int| 0 <= k < ws.len() ==> wf_worker_info_model(#[trigger] ws[k]),
        0 <= pos,
        pos + enc_worker_info_items(ws).len() <= bytes.len(),
        bytes.subrange(pos, pos + enc_worker_info_items(ws).len()) == enc_worker_info_items(ws),
    ensures
        dec_worker_info_items(bytes, pos, ws.len() as nat) == Some(
            (ws, pos + enc_worker_info_items(ws).len()),
        ),
    decreases ws.len(),
{
    if ws.len() == 0 {
    } else {
        let len = enc_worker_info_items(ws).len() as int;
        let whole = bytes.subrange(pos, pos + len);
        let e0 = enc_worker_info(ws[0]);
        let rest = enc_worker_info_items(ws.drop_first());
        assert(whole.subrange(0, e0.len() as int) =~= e0);
        lemma_shift_subrange(bytes, pos, len, 0, e0.len() as int);
        lemma_dec_worker_info_prefix(bytes, pos, ws[0]);
        assert(whole.subrange(e0.len() as int, len) =~= rest);
        lemma_shift_subrange(bytes, pos, len, e0.len() as int, len);
        assert forall|k: int| 0 <= k < ws.drop_first().len() implies wf_worker_info_model(
            #[trigger] ws.drop_first()[k],
        ) by {
            assert(ws.drop_first()[k] == ws[k + 1]);
        }
        lemma_dec_worker_info_items_prefix(bytes, pos + e0.len(), ws.drop_first());
        assert(seq![ws[0]] + ws.drop_first() =~= ws);
    }
}

/// Parsing inverts encoding for every response whose fields fit their
/// length prefixes: a response serialized into one frame payload and
/// parsed back is reproduced exactly.
#[verifier::rlimit(100)]
pub proof fn lemma_server_message_round_trip(m: ToClientMessageModel)
    requires
        wf_to_client_model(m),
    ensures
        dec_to_client(enc_to_client(m)) == Some(m),
{
    vstd::bytes::lemma_auto_spec_u64_to_from_le_bytes();
    let bytes = enc_to_client(m);
    match m {
        ToClientMessageModel::SubmitResponse(j) => {
            let ej = enc_job_info(j);
            assert(bytes == seq![0u8] + ej);
            assert(bytes[0] == 0u8);
            assert(bytes.subrange(1, 1 + ej.len() as int) =~= ej);
            lemma_dec_job_info_prefix(bytes, 1, j);
        },
        ToClientMessageModel::JobListResponse(js) => {
            let en = enc_u64(js.len() as u64);
            let ei = enc_job_info_items(js);
            assert(en.len() == 8);
            assert(bytes == seq![1u8] + en + ei);
            assert(bytes[0] == 1u8);
            assert(bytes.subrange(1, 9) =~= en);
            lemma_dec_u64_prefix(bytes, 1, js.len() as u64);
            assert(bytes.subrange(9, 9 + ei.len() as int) =~= ei);
            lemma_dec_job_info_items_prefix(bytes, 9, js);
        },
        ToClientMessageModel::WorkerListResponse(ws) => {
            let en = enc_u64(ws.len() as u64);
            let ei = enc_worker_info_items(ws);
            assert(en.len() == 8);
            assert(bytes == seq![2u8] + en + ei);
            assert(bytes[0] == 2u8);
            assert(bytes.subrange(1, 9) =~= en);
            lemma_dec_u64_prefix(bytes, 1, ws.len() as u64);
            assert(bytes.subrange(9, 9 + ei.len() as int) =~= ei);
            lemma_dec_worker_info_items_prefix(bytes, 9, ws);
        },
        ToClientMessageModel::StopAck => {
            assert(bytes[0] == 3u8);
        },
    }
}

} // verus!
