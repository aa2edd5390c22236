//! The subprocess stream reader: one JSON header line per record on the
//! child's output, then the record's raw payload bytes.

use vstd::prelude::*;
use crate::bytes::{be_bytes, push_u32_be};
use crate::error::CaptureError;

verus! {

/// Size in bytes of the metadata block in front of each produced buffer.
pub const META_LEN: usize = 20;

/// A record header as announced on one line by the child process.
#[derive(Clone, Copy, Debug, PartialEq, Eq, Structural)]
pub struct StreamRecordHeader {
    pub captured_length: u32,
    pub original_length: u32,
    pub ts_sec: u32,
    pub ts_usec: u32,
}

/// The text of `s` without leading and trailing whitespace.
pub uninterp spec fn trimmed(s: Seq<char>) -> Seq<char>;

/// The unsigned integer stored under `key` in the JSON object that `text`
/// holds; none where `text` is not JSON, has no such key, or holds something
/// else there.
pub uninterp spec fn json_u64_field(text: Seq<char>, key: Seq<char>) -> Option<u64>;

/// Relies on `str::trim`: the line with surrounding whitespace removed.
#[verifier::external_body]
fn trim_line(line: &str) -> (r: &str)
    ensures
        r@ == trimmed(line@),
{
    line.trim()
}

/// Relies on `serde_json::from_str` into a `serde_json::Value`, then on
/// `Value::get` and `Value::as_u64`: the unsigned integer under `key`, if the
/// text is a JSON object that has one there.
#[verifier::external_body]
fn json_u64(text: &str, key: &str) -> (r: Option<u64>)
    ensures
        r == json_u64_field(text@, key@),
{
    match serde_json::from_str::<serde_json::Value>(text) {
        Ok(v) => v.get(key).and_then(serde_json::Value::as_u64),
        Err(_) => None,
    }
}

/// A header field that must fit in 32 bits.
pub open spec fn field_u32(v: Option<u64>) -> Option<u32> {
    match v {
        Some(x) => if x <= u32::MAX {
            Some(x as u32)
        } else {
            None
        },
        None => None,
    }
}

/// The header that four looked-up field values make, or a protocol error
/// when one is missing or out of range.
pub open spec fn header_of_fields(
    datalen: Option<u64>,
    actlen: Option<u64>,
    ts_sec: Option<u64>,
    ts_usec: Option<u64>,
) -> Result<StreamRecordHeader, CaptureError> {
    match (field_u32(datalen), field_u32(actlen), field_u32(ts_sec), field_u32(ts_usec)) {
        (Some(d), Some(a), Some(s), Some(u)) => Ok(
            StreamRecordHeader { captured_length: d, original_length: a, ts_sec: s, ts_usec: u },
        ),
        _ => Err(CaptureError::ProtocolError),
    }
}

/// What a header line, already trimmed, announces: the end of the stream
/// when it is empty, else the record header it encodes.
pub open spec fn line_outcome(t: Seq<char>) -> Result<Option<StreamRecordHeader>, CaptureError> {
    if t.len() == 0 {
        Ok(None)
    } else {
        match header_of_fields(
            json_u64_field(t, "datalen"@),
            json_u64_field(t, "actlen"@),
            json_u64_field(t, "ts_sec"@),
            json_u64_field(t, "ts_usec"@),
        ) {
            Ok(h) => Ok(Some(h)),
            Err(e) => Err(e),
        }
    }
}

/// A looked-up field value, if it fits in 32 bits.
fn checked_field(v: Option<u64>) -> (r: Option<u32>)
    ensures
        r == field_u32(v),
{
    match v {
        Some(x) => if x <= 0xffff_ffff {
            Some(x as u32)
        } else {
            None
        },
        None => None,
    }
}

/// Builds a record header from its looked-up field values.
pub fn header_from_fields(
    datalen: Option<u64>,
    actlen: Option<u64>,
    ts_sec: Option<u64>,
    ts_usec: Option<u64>,
) -> (r: Result<StreamRecordHeader, CaptureError>)
    ensures
        r == header_of_fields(datalen, actlen, ts_sec, ts_usec),
{
    match (checked_field(datalen), checked_field(actlen), checked_field(ts_sec), checked_field(ts_usec)) {
        (Some(d), Some(a), Some(s), Some(u)) => Ok(
            StreamRecordHeader { captured_length: d, original_length: a, ts_sec: s, ts_usec: u },
        ),
        _ => Err(CaptureError::ProtocolError),
    }
}

/// The produced buffer: link type, captured and original length, seconds and
/// sub-second timestamp, each as four big-endian bytes, then the payload.
pub open spec fn frame_buffer_of(link: u32, h: StreamRecordHeader, payload: Seq<u8>) -> Seq<u8> {
    be_bytes(link) + be_bytes(h.captured_length) + be_bytes(h.original_length) + be_bytes(h.ts_sec)
        + be_bytes(h.ts_usec) + payload
}

/// Reads the records that a capture child process writes to its output.
pub struct PcapWorker {
    link: u32,
    ended: bool,
}

impl PcapWorker {
    /// The link type stamped on every frame.
    pub closed spec fn link_type(&self) -> u32 {
        self.link
    }

    /// Whether the child has announced the end of its output.
    pub closed spec fn done(&self) -> bool {
        self.ended
    }

    /// A worker that stamps `link` on every frame.
    pub fn new(link: u32) -> (r: PcapWorker)
        ensures
            r.link_type() == link,
            !r.done(),
    {
        PcapWorker { link, ended: false }
    }

    /// The link type stamped on every frame.
    pub fn link(&self) -> (r: u32)
        ensures
            r == self.link_type(),
    {
        self.link
    }

    /// Whether no further line should be read from the child.
    pub fn is_done(&self) -> (r: bool)
        ensures
            r == self.done(),
    {
        self.ended
    }

    /// The identifier of the layer that produced buffers are tagged with.
    pub fn layer_id(&self) -> (r: &'static str)
        ensures
            r@ == "[pcap]"@,
    {
        "[pcap]"
    }

    /// Interprets one line read from the child. An empty line ends the
    /// stream for good: it and every later call give `Ok(None)`.
    pub fn read_header(&mut self, line: &str) -> (r: Result<Option<StreamRecordHeader>, CaptureError>)
        ensures
            final(self).link_type() == old(self).link_type(),
            old(self).done() ==> r == Ok::<Option<StreamRecordHeader>, CaptureError>(None),
            old(self).done() ==> final(self).done(),
            !old(self).done() ==> r == line_outcome(trimmed(line@)),
            !old(self).done() ==> final(self).done() == (trimmed(line@).len() == 0),
    {
        if self.ended {
            return Ok(None);
        }
        let t = trim_line(line);
        if t.unicode_len() == 0 {
            self.ended = true;
            return Ok(None);
        }
        proof {
            reveal_strlit("datalen");
            reveal_strlit("actlen");
            reveal_strlit("ts_sec");
            reveal_strlit("ts_usec");
        }
        let h = header_from_fields(
            json_u64(t, "datalen"),
            json_u64(t, "actlen"),
            json_u64(t, "ts_sec"),
            json_u64(t, "ts_usec"),
        );
        match h {
            Ok(h) => Ok(Some(h)),
            Err(e) => Err(e),
        }
    }

    /// Glues the metadata block in front of the payload that followed header
    /// `h`. A payload of another length than announced is a short read.
    pub fn frame_buffer(&self, h: &StreamRecordHeader, payload: &[u8]) -> (r: Result<Vec<u8>, CaptureError>)
        ensures
            payload@.len() == h.captured_length ==> (r matches Ok(buf) && buf@ == frame_buffer_of(
                self.link_type(),
                *h,
                payload@,
            )),
            payload@.len() != h.captured_length ==> r matches Err(CaptureError::Io),
    {
        if payload.len() != h.captured_length as usize {
            return Err(CaptureError::Io);
        }
        let mut out: Vec<u8> = Vec::new();
        push_u32_be(&mut out, self.link);
        push_u32_be(&mut out, h.captured_length);
        push_u32_be(&mut out, h.original_length);
        push_u32_be(&mut out, h.ts_sec);
        push_u32_be(&mut out, h.ts_usec);
        let mut i: usize = 0;
        let ghost meta = out@;
        while i < payload.len()
            invariant
                i <= payload@.len(),
                out@ == meta + payload@.subrange(0, i as int),
            decreases payload@.len() - i,
        {
            out.push(payload[i]);
            i += 1;
            assert(out@ =~= meta + payload@.subrange(0, i as int));
        }
        assert(payload@.subrange(0, i as int) =~= payload@);
        Ok(out)
    }
}

/// The reader that launches a capture child process per source.
#[derive(Clone, Copy, Debug, Default)]
pub struct PcapReader {}

impl PcapReader {
    /// A worker for a child whose frames carry `link`.
    pub fn new_worker(&self, link: u32) -> (r: PcapWorker)
        ensures
            r.link_type() == link,
            !r.done(),
    {
        PcapWorker::new(link)
    }
}

/// The package that registers the subprocess reader.
#[derive(Clone, Copy, Debug, Default)]
pub struct DefaultPackage {
    reader: PcapReader,
}

impl DefaultPackage {
    /// The package with its one reader.
    pub fn new() -> (r: DefaultPackage) {
        DefaultPackage { reader: PcapReader {} }
    }

    /// The reader that the package registers.
    pub fn reader(&self) -> (r: &PcapReader) {
        &self.reader
    }

    /// The identifier under which the reader is registered.
    pub fn reader_id(&self) -> (r: &'static str)
        ensures
            r@ == "app.genet.reader.pcap"@,
    {
        "app.genet.reader.pcap"
    }
}

} // verus!
