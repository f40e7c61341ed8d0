//! The durable access record: the descriptor of one server generation, and
//! its on-disk encoding.
//!
//! A record carries everything a client needs to reach and authenticate
//! against one server generation. It is immutable once written; decoding
//! inverts encoding exactly, field for field, secret key bytes included.

use vstd::prelude::*;
use crate::codec::{
    enc_u16, enc_u32, enc_u64, enc_bytes, enc_string, dec_byte, dec_u16, dec_u32, dec_bytes,
    dec_string, lemma_dec_u16_prefix, lemma_dec_u32_prefix, lemma_dec_bytes_prefix,
    lemma_dec_string_prefix, put_u16, put_u32, put_bytes, put_string, take_byte, take_u16,
    take_u32, take_bytes, take_string,
};
use crate::datetime::DateTime;
use crate::error::HqError;
use vstd::utf8::encode_utf8;

verus! {

/// The mathematical content of an access record.
pub ghost struct AccessRecordModel {
    pub hostname: Seq<char>,
    pub pid: u32,
    pub server_port: u16,
    pub worker_port: u16,
    pub hq_secret_key: Seq<u8>,
    pub tako_secret_key: Seq<u8>,
    pub start_date: DateTime,
    pub version: Seq<char>,
}

impl AccessRecordModel {
    /// The start date is a calendar date and every variable-length field
    /// fits its length prefix. Records built from in-memory values always
    /// satisfy the length bounds.
    pub open spec fn wf(self) -> bool {
        &&& self.start_date.wf()
        &&& encode_utf8(self.hostname).len() <= u64::MAX
        &&& self.hq_secret_key.len() <= u64::MAX
        &&& self.tako_secret_key.len() <= u64::MAX
        &&& encode_utf8(self.version).len() <= u64::MAX
    }
}

/// Durable descriptor of one server generation: where it listens, how to
/// authenticate, and when it started.
pub struct AccessRecord {
    hostname: String,
    pid: u32,
    server_port: u16,
    worker_port: u16,
    hq_secret_key: Vec<u8>,
    tako_secret_key: Vec<u8>,
    start_date: DateTime,
    version: String,
}

impl View for AccessRecord {
    type V = AccessRecordModel;

    closed spec fn view(&self) -> AccessRecordModel {
        AccessRecordModel {
            hostname: self.hostname@,
            pid: self.pid,
            server_port: self.server_port,
            worker_port: self.worker_port,
            hq_secret_key: self.hq_secret_key@,
            tako_secret_key: self.tako_secret_key@,
            start_date: self.start_date,
            version: self.version@,
        }
    }
}

impl AccessRecord {
    /// Build the record for a new generation from the values the server
    /// just obtained: its host name and process id, the two bound ports,
    /// the two freshly generated secret keys, the start time, and the
    /// version string.
    pub fn new(
        hostname: String,
        pid: u32,
        server_port: u16,
        worker_port: u16,
        hq_secret_key: Vec<u8>,
        tako_secret_key: Vec<u8>,
        start_date: DateTime,
        version: String,
    ) -> (r: AccessRecord)
        requires
            start_date.wf(),
        ensures
            r@ == (AccessRecordModel {
                hostname: hostname@,
                pid,
                server_port,
                worker_port,
                hq_secret_key: hq_secret_key@,
                tako_secret_key: tako_secret_key@,
                start_date,
                version: version@,
            }),
    {
        AccessRecord {
            hostname,
            pid,
            server_port,
            worker_port,
            hq_secret_key,
            tako_secret_key,
            start_date,
            version,
        }
    }

    pub fn hostname(&self) -> (r: &String)
        ensures
            r@ == self@.hostname,
    {
        &self.hostname
    }

    pub fn pid(&self) -> (r: u32)
        ensures
            r == self@.pid,
    {
        self.pid
    }

    pub fn server_port(&self) -> (r: u16)
        ensures
            r == self@.server_port,
    {
        self.server_port
    }

    pub fn worker_port(&self) -> (r: u16)
        ensures
            r == self@.worker_port,
    {
        self.worker_port
    }

    pub fn hq_secret_key(&self) -> (r: &Vec<u8>)
        ensures
            r@ == self@.hq_secret_key,
    {
        &self.hq_secret_key
    }

    pub fn tako_secret_key(&self) -> (r: &Vec<u8>)
        ensures
            r@ == self@.tako_secret_key,
    {
        &self.tako_secret_key
    }

    pub fn start_date(&self) -> (r: DateTime)
        ensures
            r == self@.start_date,
    {
        self.start_date
    }

    pub fn version(&self) -> (r: &String)
        ensures
            r@ == self@.version,
    {
        &self.version
    }
}

// ---------------------------------------------------------------------------
// Encoding
// ---------------------------------------------------------------------------

/// The nine bytes that encode a date: year, the five small fields, and the
/// zone offset biased into an unsigned range.
pub open spec fn enc_datetime(d: DateTime) -> Seq<u8>
    recommends
        d.wf(),
{
    enc_u16(d.year) + seq![d.month, d.day, d.hour, d.minute, d.second] + enc_u16(
        (d.offset_minutes + 1440) as u16,
    )
}

/// The on-disk encoding of an access record: every field in order, each
/// variable-length field length-prefixed.
pub open spec fn enc_record(m: AccessRecordModel) -> Seq<u8>
    recommends
        m.wf(),
{
    enc_string(m.hostname) + enc_u32(m.pid) + enc_u16(m.server_port) + enc_u16(m.worker_port)
        + enc_bytes(m.hq_secret_key) + enc_bytes(m.tako_secret_key) + enc_datetime(m.start_date)
        + enc_string(m.version)
}

/// Parse a date at `pos`; succeeds only on a well-formed date.
pub open spec fn dec_datetime(bytes: Seq<u8>, pos: int) -> Option<(DateTime, int)> {
    match dec_u16(bytes, pos) {
        Option::None => Option::None,
        Option::Some((year, p1)) => match (
            dec_byte(bytes, p1),
            dec_byte(bytes, p1 + 1),
            dec_byte(bytes, p1 + 2),
            dec_byte(bytes, p1 + 3),
            dec_byte(bytes, p1 + 4),
        ) {
            (
                Option::Some((month, _)),
                Option::Some((day, _)),
                Option::Some((hour, _)),
                Option::Some((minute, _)),
                Option::Some((second, _)),
            ) => match dec_u16(bytes, p1 + 5) {
                Option::None => Option::None,
                Option::Some((biased, p2)) => {
                    if biased <= 2880 {
                        let d = DateTime {
                            year,
                            month,
                            day,
                            hour,
                            minute,
                            second,
                            offset_minutes: (biased - 1440) as i16,
                        };
                        if d.wf() {
                            Option::Some((d, p2))
                        } else {
                            Option::None
                        }
                    } else {
                        Option::None
                    }
                },
            },
            _ => Option::None,
        },
    }
}

/// Parse a whole access record; succeeds only when the input is exactly one
/// record encoding, consumed to its end.
pub open spec fn dec_record(bytes: Seq<u8>) -> Option<AccessRecordModel> {
    match dec_string(bytes, 0) {
        Option::None => Option::None,
        Option::Some((hostname, p1)) => match dec_u32(bytes, p1) {
            Option::None => Option::None,
            Option::Some((pid, p2)) => match dec_u16(bytes, p2) {
                Option::None => Option::None,
                Option::Some((server_port, p3)) => match dec_u16(bytes, p3) {
                    Option::None => Option::None,
                    Option::Some((worker_port, p4)) => match dec_bytes(bytes, p4) {
                        Option::None => Option::None,
                        Option::Some((hq_key, p5)) => match dec_bytes(bytes, p5) {
                            Option::None => Option::None,
                            Option::Some((tako_key, p6)) => match dec_datetime(bytes, p6) {
                                Option::None => Option::None,
                                Option::Some((start_date, p7)) => match dec_string(bytes, p7) {
                                    Option::None => Option::None,
                                    Option::Some((version, p8)) => {
                                        if p8 == bytes.len() {
                                            Option::Some(
                                                AccessRecordModel {
                                                    hostname,
                                                    pid,
                                                    server_port,
                                                    worker_port,
                                                    hq_secret_key: hq_key,
                                                    tako_secret_key: tako_key,
                                                    start_date,
                                                    version,
                                                },
                                            )
                                        } else {
                                            Option::None
                                        }
                                    },
                                },
                            },
                        },
                    },
                },
            },
        },
    }
}

/// Serialize an access record for storage in its generation directory.
pub fn encode_access_record(r: &AccessRecord) -> (out: Vec<u8>)
    requires
        r@.start_date.wf(),
    ensures
        out@ == enc_record(r@),
{
    let mut out: Vec<u8> = Vec::new();
    put_string(&mut out, &r.hostname);
    put_u32(&mut out, r.pid);
    put_u16(&mut out, r.server_port);
    put_u16(&mut out, r.worker_port);
    put_bytes(&mut out, &r.hq_secret_key);
    put_bytes(&mut out, &r.tako_secret_key);
    put_u16(&mut out, r.start_date.year);
    out.push(r.start_date.month);
    out.push(r.start_date.day);
    out.push(r.start_date.hour);
    out.push(r.start_date.minute);
    out.push(r.start_date.second);
    let biased: u16 = (r.start_date.offset_minutes + 1440) as u16;
    put_u16(&mut out, biased);
    put_string(&mut out, &r.version);
    assert(out@ =~= enc_record(r@));
    out
}

// ---------------------------------------------------------------------------
// Decoding
// ---------------------------------------------------------------------------

/// Read a date at `pos`; fails exactly where the spec-level parser does.
pub(crate) fn take_datetime(bytes: &Vec<u8>, pos: usize) -> (r: Result<(DateTime, usize), HqError>)
    ensures
        match r {
            Ok((d, p)) => dec_datetime(bytes@, pos as int) == Some((d, p as int)) && d.wf(),
            Err(e) => dec_datetime(bytes@, pos as int) is None && e is ProtocolError,
        },
{
    let (year, p1) = match take_u16(bytes, pos) {
        Ok(v) => v,
        Err(e) => {
            return Err(e);
        },
    };
    if p1 <= bytes.len() && bytes.len() - p1 >= 5 {
        let month = bytes[p1];
        let day = bytes[p1 + 1];
        let hour = bytes[p1 + 2];
        let minute = bytes[p1 + 3];
        let second = bytes[p1 + 4];
        let (biased, p2) = match take_u16(bytes, p1 + 5) {
            Ok(v) => v,
            Err(e) => {
                return Err(e);
            },
        };
        if biased <= 2880 {
            let d = DateTime {
                year,
                month,
                day,
                hour,
                minute,
                second,
                offset_minutes: (biased as i16) - 1440,
            };
            if d.is_wf() {
                Ok((d, p2))
            } else {
                Err(HqError::ProtocolError("date out of range in access record".to_owned()))
            }
        } else {
            Err(HqError::ProtocolError("zone offset out of range in access record".to_owned()))
        }
    } else {
        Err(HqError::ProtocolError("truncated access record".to_owned()))
    }
}

/// Deserialize an access record, as read from a generation directory.
/// Succeeds exactly when the bytes are one complete record encoding; any
/// malformed input is a discovery error, which callers treat as the absence
/// of a readable record.
pub fn decode_access_record(bytes: &Vec<u8>) -> (r: Result<AccessRecord, HqError>)
    ensures
        match r {
            Ok(rec) => dec_record(bytes@) == Some(rec@),
            Err(e) => dec_record(bytes@) is None && e is DiscoveryError,
        },
{
    match decode_access_record_inner(bytes) {
        Ok(rec) => Ok(rec),
        Err(_) => Err(
            HqError::DiscoveryError("access record is malformed or truncated".to_owned()),
        ),
    }
}

/// The parsing body of `decode_access_record`.
fn decode_access_record_inner(bytes: &Vec<u8>) -> (r: Result<AccessRecord, HqError>)
    ensures
        match r {
            Ok(rec) => dec_record(bytes@) == Some(rec@),
            Err(_) => dec_record(bytes@) is None,
        },
{
    let (hostname, p1) = match take_string(bytes, 0) {
        Ok(v) => v,
        Err(e) => {
            return Err(e);
        },
    };
    let (pid, p2) = match take_u32(bytes, p1) {
        Ok(v) => v,
        Err(e) => {
            return Err(e);
        },
    };
    let (server_port, p3) = match take_u16(bytes, p2) {
        Ok(v) => v,
        Err(e) => {
            return Err(e);
        },
    };
    let (worker_port, p4) = match take_u16(bytes, p3) {
        Ok(v) => v,
        Err(e) => {
            return Err(e);
        },
    };
    let (hq_secret_key, p5) = match take_bytes(bytes, p4) {
        Ok(v) => v,
        Err(e) => {
            return Err(e);
        },
    };
    let (tako_secret_key, p6) = match take_bytes(bytes, p5) {
        Ok(v) => v,
        Err(e) => {
            return Err(e);
        },
    };
    let (start_date, p7) = match take_datetime(bytes, p6) {
        Ok(v) => v,
        Err(e) => {
            return Err(e);
        },
    };
    let (version, p8) = match take_string(bytes, p7) {
        Ok(v) => v,
        Err(e) => {
            return Err(e);
        },
    };
    if p8 == bytes.len() {
        Ok(
            AccessRecord {
                hostname,
                pid,
                server_port,
                worker_port,
                hq_secret_key,
                tako_secret_key,
                start_date,
                version,
            },
        )
    } else {
        Err(HqError::ProtocolError("trailing bytes after access record".to_owned()))
    }
}

// ---------------------------------------------------------------------------
// Round trip
// ---------------------------------------------------------------------------

/// `dec_datetime` inverts `enc_datetime` wherever the encoding stands in a
/// larger buffer.
pub(crate) proof fn lemma_dec_datetime_prefix(bytes: Seq<u8>, pos: int, d: DateTime)
    requires
        d.wf(),
        0 <= pos,
        pos + 9 <= bytes.len(),
        bytes.subrange(pos, pos + 9) == enc_datetime(d),
    ensures
        dec_datetime(bytes, pos) == Some((d, pos + 9)),
{
    vstd::bytes::lemma_auto_spec_u16_to_from_le_bytes();
    let whole = bytes.subrange(pos, pos + 9);
    let biased = (d.offset_minutes + 1440) as u16;
    assert(enc_u16(d.year).len() == 2);
    assert(enc_u16(biased).len() == 2);
    assert(bytes.subrange(pos, pos + 2) =~= enc_u16(d.year));
    lemma_dec_u16_prefix(bytes, pos, d.year);
    assert(bytes[pos + 2] == whole[2] && whole[2] == d.month);
    assert(bytes[pos + 3] == whole[3] && whole[3] == d.day);
    assert(bytes[pos + 4] == whole[4] && whole[4] == d.hour);
    assert(bytes[pos + 5] == whole[5] && whole[5] == d.minute);
    assert(bytes[pos + 6] == whole[6] && whole[6] == d.second);
    assert(whole[7] == enc_u16(biased)[0]);
    assert(whole[8] == enc_u16(biased)[1]);
    assert(bytes.subrange(pos + 7, pos + 9) =~= enc_u16(biased));
    lemma_dec_u16_prefix(bytes, pos + 7, biased);
    assert((biased - 1440) as i16 == d.offset_minutes);
}

/// Decoding inverts encoding: any well-formed record model, serialized and
/// parsed back, is reproduced exactly, every field and every secret key
/// byte included.
pub proof fn lemma_access_record_round_trip(m: AccessRecordModel)
    requires
        m.wf(),
    ensures
        dec_record(enc_record(m)) == Some(m),
{
    vstd::bytes::lemma_auto_spec_u16_to_from_le_bytes();
    vstd::bytes::lemma_auto_spec_u32_to_from_le_bytes();
    vstd::bytes::lemma_auto_spec_u64_to_from_le_bytes();
    let bytes = enc_record(m);
    let hb = encode_utf8(m.hostname);
    let vb = encode_utf8(m.version);
    assert(enc_u16(m.server_port).len() == 2);
    assert(enc_u16(m.worker_port).len() == 2);
    assert(enc_u16(m.start_date.year).len() == 2);
    assert(enc_u16((m.start_date.offset_minutes + 1440) as u16).len() == 2);
    assert(enc_u32(m.pid).len() == 4);
    assert(enc_u64(hb.len() as u64).len() == 8);
    assert(enc_u64(vb.len() as u64).len() == 8);
    assert(enc_u64(m.hq_secret_key.len() as u64).len() == 8);
    assert(enc_u64(m.tako_secret_key.len() as u64).len() == 8);
    assert(enc_datetime(m.start_date).len() == 9);
    let l1 = 8 + hb.len() as int;
    let p1 = l1;
    let p2 = p1 + 4;
    let p3 = p2 + 2;
    let p4 = p3 + 2;
    let p5 = p4 + 8 + m.hq_secret_key.len() as int;
    let p6 = p5 + 8 + m.tako_secret_key.len() as int;
    let p7 = p6 + 9;
    let p8 = p7 + 8 + vb.len() as int;
    assert(bytes.len() == p8);
    assert(bytes.subrange(0, p1) =~= enc_string(m.hostname));
    lemma_dec_string_prefix(bytes, 0, m.hostname);
    assert(bytes.subrange(p1, p2) =~= enc_u32(m.pid));
    lemma_dec_u32_prefix(bytes, p1, m.pid);
    assert(bytes.subrange(p2, p3) =~= enc_u16(m.server_port));
    lemma_dec_u16_prefix(bytes, p2, m.server_port);
    assert(bytes.subrange(p3, p4) =~= enc_u16(m.worker_port));
    lemma_dec_u16_prefix(bytes, p3, m.worker_port);
    assert(bytes.subrange(p4, p5) =~= enc_bytes(m.hq_secret_key));
    lemma_dec_bytes_prefix(bytes, p4, m.hq_secret_key);
    assert(bytes.subrange(p5, p6) =~= enc_bytes(m.tako_secret_key));
    lemma_dec_bytes_prefix(bytes, p5, m.tako_secret_key);
    assert(bytes.subrange(p6, p7) =~= enc_datetime(m.start_date));
    lemma_dec_datetime_prefix(bytes, p6, m.start_date);
    assert(bytes.subrange(p7, p8) =~= enc_string(m.version));
    lemma_dec_string_prefix(bytes, p7, m.version);
}

} // verus!
