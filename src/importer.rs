//! The batch file reader: cuts buffered capture-file bytes into frames.

use vstd::prelude::*;
use crate::bytes::{u32_at, read_u32};
use crate::error::CaptureError;
use crate::format::{FILE_HEADER_LEN, FileHeader, TimeResolution, file_header_of, is_pcap_extension, parse_file_header};

verus! {

/// Size in bytes of the header in front of each record's payload.
pub const RECORD_HEADER_LEN: usize = 16;

/// A frame handed downstream: metadata and exactly the captured bytes.
#[derive(Clone, Debug, PartialEq, Eq)]
pub struct Frame {
    pub link_type: u32,
    pub original_length: u32,
    pub ts_sec: u32,
    /// Sub-second part of the timestamp, in microseconds.
    pub ts_usec: u32,
    pub data: Vec<u8>,
}

/// The mathematical value of a `Frame`.
pub struct FrameView {
    pub link_type: u32,
    pub original_length: u32,
    pub ts_sec: u32,
    pub ts_usec: u32,
    pub data: Seq<u8>,
}

impl View for Frame {
    type V = FrameView;

    open spec fn view(&self) -> FrameView {
        FrameView {
            link_type: self.link_type,
            original_length: self.original_length,
            ts_sec: self.ts_sec,
            ts_usec: self.ts_usec,
            data: self.data@,
        }
    }
}

/// The fractional timestamp field in microseconds: nanoseconds are scaled
/// down, microseconds kept.
pub open spec fn fraction_in_micros(res: TimeResolution, frac: u32) -> u32 {
    match res {
        TimeResolution::Micros => frac,
        TimeResolution::Nanos => frac / 1000,
    }
}

/// Brings a record's fractional timestamp field to microseconds.
pub fn normalize_fraction(res: TimeResolution, frac: u32) -> (r: u32)
    ensures
        r == fraction_in_micros(res, frac),
{
    match res {
        TimeResolution::Micros => frac,
        TimeResolution::Nanos => frac / 1000,
    }
}

/// Captured length declared by the record header at the start of `s`.
pub open spec fn captured_len(h: FileHeader, s: Seq<u8>) -> int {
    u32_at(h.byte_order, s, 8) as int
}

/// Whether `s` starts with a record whose payload is there in full.
pub open spec fn has_record(h: FileHeader, s: Seq<u8>) -> bool {
    s.len() >= RECORD_HEADER_LEN && s.len() - RECORD_HEADER_LEN >= captured_len(h, s)
}

/// Bytes taken by the record at the start of `s`, header included.
pub open spec fn record_size(h: FileHeader, s: Seq<u8>) -> int {
    RECORD_HEADER_LEN + captured_len(h, s)
}

/// The frame of the complete record at the start of `s`.
pub open spec fn frame_at(h: FileHeader, s: Seq<u8>) -> FrameView {
    FrameView {
        link_type: h.link_type,
        original_length: u32_at(h.byte_order, s, 12),
        ts_sec: u32_at(h.byte_order, s, 0),
        ts_usec: fraction_in_micros(h.time_resolution, u32_at(h.byte_order, s, 4)),
        data: s.subrange(RECORD_HEADER_LEN as int, record_size(h, s)),
    }
}

/// The frames of the complete records that `s` begins with, in order. A
/// record whose payload is cut short ends the sequence.
pub open spec fn records(h: FileHeader, s: Seq<u8>) -> Seq<FrameView>
    decreases s.len(),
{
    if has_record(h, s) {
        seq![frame_at(h, s)] + records(h, s.skip(record_size(h, s)))
    } else {
        seq![]
    }
}

/// Bytes taken by the first `k` complete records of `s`.
pub open spec fn consumed(h: FileHeader, s: Seq<u8>, k: nat) -> int
    decreases k,
{
    if k == 0 || !has_record(h, s) {
        0
    } else {
        record_size(h, s) + consumed(h, s.skip(record_size(h, s)), (k - 1) as nat)
    }
}

/// Taking one more record moves past it and leaves the records after it.
proof fn lemma_consumed_step(h: FileHeader, s: Seq<u8>, n: nat)
    requires
        n < records(h, s).len(),
    ensures
        0 <= consumed(h, s, n) <= s.len(),
        records(h, s.skip(consumed(h, s, n))) == records(h, s).skip(n as int),
        has_record(h, s.skip(consumed(h, s, n))),
        consumed(h, s, n + 1) == consumed(h, s, n) + record_size(h, s.skip(consumed(h, s, n))),
    decreases n,
{
    assert(has_record(h, s));
    let sz = record_size(h, s);
    let t = s.skip(sz);
    assert(records(h, s) == seq![frame_at(h, s)] + records(h, t));
    assert(consumed(h, s, n + 1) == sz + consumed(h, t, n));
    if n == 0 {
        assert(consumed(h, s, 0) == 0);
        assert(consumed(h, t, 0) == 0);
        assert(s.skip(0) =~= s);
        assert(records(h, s).skip(0) =~= records(h, s));
    } else {
        lemma_consumed_step(h, t, (n - 1) as nat);
        let c = consumed(h, t, (n - 1) as nat);
        assert(consumed(h, s, n) == sz + c);
        assert(t.skip(c) =~= s.skip(sz + c));
        assert(records(h, s).skip(n as int) =~= records(h, t).skip(n - 1));
    }
}

/// Reads the complete record at `pos` of `s` as a frame, and where the next
/// record starts.
fn read_record(h: FileHeader, s: &[u8], pos: usize) -> (r: (Frame, usize))
    requires
        pos <= s@.len(),
        has_record(h, s@.skip(pos as int)),
    ensures
        r.0@ == frame_at(h, s@.skip(pos as int)),
        r.1 == pos + record_size(h, s@.skip(pos as int)),
        r.1 <= s@.len(),
{
    let ghost rest = s@.skip(pos as int);
    let len = s.len();
    assert(rest.len() == len - pos);
    let order = h.byte_order;
    let cap = read_u32(order, s, pos + 8) as usize;
    assert(cap == captured_len(h, rest));
    let start = pos + RECORD_HEADER_LEN;
    let data = copy_range(s, start, start + cap);
    let frame = Frame {
        link_type: h.link_type,
        original_length: read_u32(order, s, pos + 12),
        ts_sec: read_u32(order, s, pos),
        ts_usec: normalize_fraction(h.time_resolution, read_u32(order, s, pos + 4)),
        data,
    };
    assert(rest.subrange(16, 16 + cap) =~= s@.subrange(start as int, start + cap));
    (frame, start + cap)
}

/// Whether a complete record starts at `pos` of `s`.
fn record_complete(h: FileHeader, s: &[u8], pos: usize) -> (r: bool)
    requires
        pos <= s@.len(),
    ensures
        r == has_record(h, s@.skip(pos as int)),
{
    let ghost rest = s@.skip(pos as int);
    let len = s.len();
    if len - pos < RECORD_HEADER_LEN {
        return false;
    }
    let cap = read_u32(h.byte_order, s, pos + 8) as usize;
    assert(cap == captured_len(h, rest));
    len - pos - RECORD_HEADER_LEN >= cap
}

/// Outcome of one batch attempt.
#[derive(Clone, Copy, Debug, PartialEq, Eq, Structural)]
pub enum FillStatus {
    /// Every slot of the batch was filled; more records may follow.
    Filled,
    /// The buffered bytes ran out before the batch was full; feed more.
    NeedInput,
    /// The input has ended: no further record will come.
    Finished,
}

/// What one batch attempt produced.
pub struct Batch {
    pub frames: Vec<Frame>,
    pub status: FillStatus,
}

/// Reader of a capture file whose bytes are fed in pieces by the caller.
pub struct PcapImporter {
    header: FileHeader,
    pending: Vec<u8>,
    input_ended: bool,
}

impl PcapImporter {
    /// The global header of the file.
    pub closed spec fn file_header(&self) -> FileHeader {
        self.header
    }

    /// Bytes fed but not yet turned into frames.
    pub closed spec fn pending_bytes(&self) -> Seq<u8> {
        self.pending@
    }

    /// Whether the caller has said that no more bytes will come.
    pub closed spec fn ended(&self) -> bool {
        self.input_ended
    }

    /// Opens a capture file from its extension and its first bytes. The
    /// extension is checked before anything is parsed.
    pub fn start(extension: Option<&str>, header: &[u8]) -> (r: Result<PcapImporter, CaptureError>)
        ensures
            match extension {
                Some(e) if e@ == "pcap"@ => match file_header_of(header@) {
                    Ok(h) => r matches Ok(imp) && imp.file_header() == h
                        && imp.pending_bytes() == header@.skip(FILE_HEADER_LEN as int) && !imp.ended(),
                    Err(e) => r == Err::<PcapImporter, CaptureError>(e),
                },
                _ => r == Err::<PcapImporter, CaptureError>(CaptureError::Unsupported),
            },
    {
        let supported = match extension {
            Some(e) => is_pcap_extension(e),
            None => false,
        };
        if !supported {
            return Err(CaptureError::Unsupported);
        }
        let h = parse_file_header(header)?;
        let pending = copy_range(header, FILE_HEADER_LEN, header.len());
        Ok(PcapImporter { header: h, pending, input_ended: false })
    }

    /// Appends bytes read from the file.
    pub fn feed(&mut self, chunk: &[u8])
        ensures
            final(self).file_header() == old(self).file_header(),
            final(self).pending_bytes() == old(self).pending_bytes() + chunk@,
            final(self).ended() == old(self).ended(),
    {
        let mut i: usize = 0;
        while i < chunk.len()
            invariant
                i <= chunk@.len(),
                self.header == old(self).header,
                self.input_ended == old(self).input_ended,
                self.pending@ == old(self).pending@ + chunk@.subrange(0, i as int),
            decreases chunk@.len() - i,
        {
            self.pending.push(chunk[i]);
            i += 1;
            assert(self.pending@ =~= old(self).pending@ + chunk@.subrange(0, i as int));
        }
        assert(chunk@.subrange(0, i as int) =~= chunk@);
    }

    /// Records that the file has no more bytes.
    pub fn end_input(&mut self)
        ensures
            final(self).file_header() == old(self).file_header(),
            final(self).pending_bytes() == old(self).pending_bytes(),
            final(self).ended(),
    {
        self.input_ended = true;
    }

    /// Takes up to `batch` frames from the complete records at the front of
    /// the buffered bytes, in file order, and drops their bytes. A record
    /// whose payload is not all there yet is left for later; once the input
    /// has ended it is never emitted. A `batch` of zero takes nothing and
    /// counts as filled.
    pub fn fill(&mut self, batch: usize) -> (r: Batch)
        ensures
            ({
                let rs = records(old(self).file_header(), old(self).pending_bytes());
                let k = r.frames@.len() as int;
                &&& k == if rs.len() < batch { rs.len() as int } else { batch as int }
                &&& forall|i: int| 0 <= i < k ==> #[trigger] r.frames@[i]@ == rs[i]
                &&& final(self).file_header() == old(self).file_header()
                &&& final(self).ended() == old(self).ended()
                &&& final(self).pending_bytes() == old(self).pending_bytes().skip(
                    consumed(old(self).file_header(), old(self).pending_bytes(), k as nat),
                )
                &&& records(final(self).file_header(), final(self).pending_bytes()) == rs.skip(k)
                &&& r.status == if k == batch {
                    FillStatus::Filled
                } else if old(self).ended() {
                    FillStatus::Finished
                } else {
                    FillStatus::NeedInput
                }
            }),
    {
        let h = self.header;
        let ghost p = self.pending@;
        let mut frames: Vec<Frame> = Vec::new();
        let mut pos: usize = 0;
        proof {
            assert(p.skip(0) =~= p);
            assert(records(h, p).skip(0) =~= records(h, p));
        }
        while frames.len() < batch
            invariant
                h == self.header,
                p == self.pending@,
                frames@.len() <= batch,
                frames@.len() <= records(h, p).len(),
                pos == consumed(h, p, frames@.len() as nat),
                pos <= p.len(),
                records(h, p.skip(pos as int)) == records(h, p).skip(frames@.len() as int),
                forall|i: int| 0 <= i < frames@.len() ==> #[trigger] frames@[i]@ == records(h, p)[i],
            ensures
                frames@.len() == batch || frames@.len() == records(h, p).len(),
            decreases batch - frames@.len(),
        {
            let ghost n = frames@.len() as nat;
            let ghost rest = p.skip(pos as int);
            if !record_complete(h, &self.pending, pos) {
                assert(records(h, rest).len() == 0);
                assert(records(h, p).skip(n as int).len() == 0);
                break;
            }
            assert(records(h, rest) == seq![frame_at(h, rest)] + records(h, rest.skip(record_size(h, rest))));
            proof {
                lemma_consumed_step(h, p, n);
            }
            let (frame, next) = read_record(h, &self.pending, pos);
            assert(records(h, p)[n as int] == records(h, p).skip(n as int)[0]);
            let ghost before = frames@;
            frames.push(frame);
            assert(forall|i: int| 0 <= i < n ==> frames@[i] == before[i]);
            pos = next;
            assert(rest.skip(record_size(h, rest)) =~= p.skip(pos as int));
            assert(records(h, p).skip(n + 1 as int) =~= records(h, rest).skip(1));
        }
        self.pending = copy_range(&self.pending, pos, self.pending.len());
        assert(self.pending@ =~= p.skip(pos as int));
        let status = if frames.len() == batch {
            FillStatus::Filled
        } else if self.input_ended {
            FillStatus::Finished
        } else {
            FillStatus::NeedInput
        };
        Batch { frames, status }
    }
}

/// The batches that successive `fill` calls of size `b` hand out once the
/// input has ended: each takes the first `b` records that are left, or all of
/// them when fewer are left, which ends the run.
pub open spec fn drain(rs: Seq<FrameView>, b: nat) -> Seq<Seq<FrameView>>
    decreases rs.len(),
{
    if b == 0 || rs.len() < b {
        seq![rs]
    } else {
        seq![rs.take(b as int)] + drain(rs.skip(b as int), b)
    }
}

/// Batches of a positive size hand out every record exactly once and in file
/// order; every batch but the last is full, and only the last one, which is
/// short (possibly empty), reports the end.
pub proof fn lemma_batches_yield_all(rs: Seq<FrameView>, b: nat)
    requires
        b > 0,
    ensures
        drain(rs, b).len() > 0,
        drain(rs, b).flatten() == rs,
        forall|i: int| 0 <= i < drain(rs, b).len() - 1 ==> (#[trigger] drain(rs, b)[i]).len() == b,
        drain(rs, b).last().len() < b,
    decreases rs.len(),
{
    if rs.len() < b {
        seq![rs].lemma_flatten_one_element();
    } else {
        let tail = drain(rs.skip(b as int), b);
        lemma_batches_yield_all(rs.skip(b as int), b);
        let d = drain(rs, b);
        assert(d == seq![rs.take(b as int)] + tail);
        assert(d.drop_first() =~= tail);
        assert(rs.take(b as int) + rs.skip(b as int) =~= rs);
        assert forall|i: int| 0 <= i < d.len() - 1 implies (#[trigger] d[i]).len() == b by {
            if i > 0 {
                assert(d[i] == tail[i - 1]);
            }
        }
    }
}

/// Whether `s` is made of complete records and nothing else.
pub open spec fn whole_records(h: FileHeader, s: Seq<u8>) -> bool
    decreases s.len(),
{
    s.len() == 0 || (has_record(h, s) && whole_records(h, s.skip(record_size(h, s))))
}

/// A record at the end of the file whose payload is cut short yields no
/// frame: the frames are those of the complete records before it.
pub proof fn lemma_truncated_tail_dropped(h: FileHeader, a: Seq<u8>, t: Seq<u8>)
    requires
        whole_records(h, a),
        !has_record(h, t),
    ensures
        records(h, a + t) == records(h, a),
    decreases a.len(),
{
    if a.len() == 0 {
        assert(a + t =~= t);
    } else {
        let s = a + t;
        assert(s[8] == a[8] && s[9] == a[9] && s[10] == a[10] && s[11] == a[11]);
        let sz = record_size(h, a);
        assert(record_size(h, s) == sz);
        assert(has_record(h, s));
        assert(s.skip(sz) =~= a.skip(sz) + t);
        lemma_truncated_tail_dropped(h, a.skip(sz), t);
        assert(s.subrange(RECORD_HEADER_LEN as int, sz) =~= a.subrange(RECORD_HEADER_LEN as int, sz));
        assert(frame_at(h, s) == frame_at(h, a));
    }
}

/// A nanosecond fraction and the microsecond fraction it scales down to
/// give the same timestamp.
pub proof fn lemma_resolutions_agree(usec: u32, sub: u32)
    requires
        sub < 1000,
        usec * 1000 + sub <= u32::MAX,
    ensures
        fraction_in_micros(TimeResolution::Nanos, (usec * 1000 + sub) as u32) == fraction_in_micros(
            TimeResolution::Micros,
            usec,
        ),
{
}

/// A fresh vector holding `s[start..end]`.
fn copy_range(s: &[u8], start: usize, end: usize) -> (r: Vec<u8>)
    requires
        start <= end <= s@.len(),
    ensures
        r@ == s@.subrange(start as int, end as int),
{
    let mut r: Vec<u8> = Vec::new();
    let mut i: usize = start;
    while i < end
        invariant
            start <= i <= end,
            end <= s@.len(),
            r@ == s@.subrange(start as int, i as int),
        decreases end - i,
    {
        r.push(s[i]);
        i += 1;
        assert(r@ =~= s@.subrange(start as int, i as int));
    }
    r
}

} // verus!
