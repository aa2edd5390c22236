//! Recognition of the capture file's magic number and global header.

use vstd::prelude::*;
use crate::bytes::{ByteOrder, u32_at, read_u32};
use crate::error::CaptureError;

verus! {

/// Unit of the fractional part of each record's timestamp.
#[derive(Clone, Copy, Debug, PartialEq, Eq, Structural)]
pub enum TimeResolution {
    Micros,
    Nanos,
}

/// What the global header says about every record of the file.
#[derive(Clone, Copy, Debug, PartialEq, Eq, Structural)]
pub struct FileHeader {
    pub byte_order: ByteOrder,
    pub time_resolution: TimeResolution,
    pub link_type: u32,
}

/// Size in bytes of the global header.
pub const FILE_HEADER_LEN: usize = 24;

/// The byte order and resolution that a magic number, given as its four
/// bytes in file order, stands for.
pub open spec fn magic_format(b0: u8, b1: u8, b2: u8, b3: u8) -> Option<(ByteOrder, TimeResolution)> {
    if b0 == 0xd4 && b1 == 0xc3 && b2 == 0xb2 && b3 == 0xa1 {
        Some((ByteOrder::Little, TimeResolution::Micros))
    } else if b0 == 0xa1 && b1 == 0xb2 && b2 == 0xc3 && b3 == 0xd4 {
        Some((ByteOrder::Big, TimeResolution::Micros))
    } else if b0 == 0x4d && b1 == 0x3c && b2 == 0xb2 && b3 == 0xa1 {
        Some((ByteOrder::Little, TimeResolution::Nanos))
    } else if b0 == 0xa1 && b1 == 0xb2 && b2 == 0x3c && b3 == 0x4d {
        Some((ByteOrder::Big, TimeResolution::Nanos))
    } else {
        None
    }
}

/// The global header that the bytes `s` at the start of a file encode.
pub open spec fn file_header_of(s: Seq<u8>) -> Result<FileHeader, CaptureError> {
    if s.len() < FILE_HEADER_LEN {
        Err(CaptureError::FormatError)
    } else {
        match magic_format(s[0], s[1], s[2], s[3]) {
            None => Err(CaptureError::FormatError),
            Some((order, res)) => Ok(
                FileHeader { byte_order: order, time_resolution: res, link_type: u32_at(order, s, 20) },
            ),
        }
    }
}

/// Identifies byte order and timestamp resolution from the four magic bytes.
pub fn detect_magic(b0: u8, b1: u8, b2: u8, b3: u8) -> (r: Option<(ByteOrder, TimeResolution)>)
    ensures
        r == magic_format(b0, b1, b2, b3),
{
    if b0 == 0xd4 && b1 == 0xc3 && b2 == 0xb2 && b3 == 0xa1 {
        Some((ByteOrder::Little, TimeResolution::Micros))
    } else if b0 == 0xa1 && b1 == 0xb2 && b2 == 0xc3 && b3 == 0xd4 {
        Some((ByteOrder::Big, TimeResolution::Micros))
    } else if b0 == 0x4d && b1 == 0x3c && b2 == 0xb2 && b3 == 0xa1 {
        Some((ByteOrder::Little, TimeResolution::Nanos))
    } else if b0 == 0xa1 && b1 == 0xb2 && b2 == 0x3c && b3 == 0x4d {
        Some((ByteOrder::Big, TimeResolution::Nanos))
    } else {
        None
    }
}

/// Parses the global header at the start of a capture file. Version, time
/// zone, accuracy and snapshot length are skipped; a short header or an
/// unknown magic number is a `FormatError`.
pub fn parse_file_header(s: &[u8]) -> (r: Result<FileHeader, CaptureError>)
    ensures
        r == file_header_of(s@),
{
    if s.len() < FILE_HEADER_LEN {
        return Err(CaptureError::FormatError);
    }
    match detect_magic(s[0], s[1], s[2], s[3]) {
        None => Err(CaptureError::FormatError),
        Some((order, res)) => Ok(
            FileHeader { byte_order: order, time_resolution: res, link_type: read_u32(order, s, 20) },
        ),
    }
}

/// Whether a file-name extension names the container that this frontend reads.
pub fn is_pcap_extension(ext: &str) -> (r: bool)
    ensures
        r == (ext@ == "pcap"@),
{
    proof {
        reveal_strlit("pcap");
    }
    let n = ext.unicode_len();
    if n != 4 {
        return false;
    }
    let r = ext.get_char(0) == 'p' && ext.get_char(1) == 'c' && ext.get_char(2) == 'a'
        && ext.get_char(3) == 'p';
    if r {
        assert(ext@ =~= "pcap"@);
    }
    r
}

} // verus!
