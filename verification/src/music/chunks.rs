//! The chunks of a standard multi-track event file: which of them are read
//! as headers, and whether the timing of one of them cannot be read.
//!
//! A chunk is a tag of four bytes, a length of four bytes, and a body of
//! that many bytes, or of what is left of the file where it ends early.

use vstd::prelude::*;

verus! {

/// Whether the four bytes from `at` on are `a`, `b`, `c`, `d`.
pub open spec fn tag_at(data: Seq<u8>, at: int, a: u8, b: u8, c: u8, d: u8) -> bool {
    &&& data[at] == a
    &&& data[at + 1] == b
    &&& data[at + 2] == c
    &&& data[at + 3] == d
}

/// The tag `MThd` of a header chunk.
pub open spec fn header_tag_at(data: Seq<u8>, at: int) -> bool {
    tag_at(data, at, 0x4D, 0x54, 0x68, 0x64)
}

/// The tag `MTrk` of a track chunk.
pub open spec fn track_tag_at(data: Seq<u8>, at: int) -> bool {
    tag_at(data, at, 0x4D, 0x54, 0x72, 0x6B)
}

/// The tag `RIFF` of a wrapped file.
pub open spec fn riff_tag_at(data: Seq<u8>, at: int) -> bool {
    tag_at(data, at, 0x52, 0x49, 0x46, 0x46)
}

/// The form type `RMID` of a wrapped file.
pub open spec fn rmid_tag_at(data: Seq<u8>, at: int) -> bool {
    tag_at(data, at, 0x52, 0x4D, 0x49, 0x44)
}

/// The tag `data` of the chunk that holds the file inside a wrapper.
pub open spec fn data_tag_at(data: Seq<u8>, at: int) -> bool {
    tag_at(data, at, 0x64, 0x61, 0x74, 0x61)
}

/// The two bytes from `at` on as a number, high byte first.
pub open spec fn high_first_16(data: Seq<u8>, at: int) -> int {
    data[at] * 0x100 + data[at + 1]
}

/// The four bytes from `at` on as a number, high byte first.
pub open spec fn high_first_32(data: Seq<u8>, at: int) -> int {
    data[at] * 0x100_0000 + data[at + 1] * 0x1_0000 + data[at + 2] * 0x100 + data[at + 3]
}

/// The four bytes from `at` on as a number, low byte first.
pub open spec fn low_first_32(data: Seq<u8>, at: int) -> int {
    data[at] + data[at + 1] * 0x100 + data[at + 2] * 0x1_0000 + data[at + 3] * 0x100_0000
}

/// Where the body of a chunk ends that begins at `at` and declares
/// `length` bytes, within data that ends at `end`.
pub open spec fn body_end(at: int, length: int, end: int) -> int {
    if at + 8 + length <= end {
        at + 8 + length
    } else {
        end
    }
}

/// What comes of reading a body as a header.
#[derive(Clone, Copy, Debug, PartialEq, Eq, Structural)]
pub enum HeaderReading {
    /// The header is read.
    Read,
    /// The header is refused: it is too short, or its format or its frame
    /// rate is none of those a file may declare.
    Refused,
    /// The high byte of the timing is `0x80`: a frame rate of 128, which
    /// cannot be negated as a signed byte.
    Overflows,
}

/// Whether the high byte of a timing declares ticks per beat, or one of
/// the frame rates 24, 25, 29 and 30, negated.
pub open spec fn timing_is_known(high: u8) -> bool {
    high < 0x80 || high == 0xE8 || high == 0xE7 || high == 0xE3 || high == 0xE2
}

/// The reading of the body from `from` up to `to` as a header: two bytes
/// of format, which must be 0, 1 or 2, two bytes of track count, and two
/// bytes of timing.
pub open spec fn header_reading(data: Seq<u8>, from: int, to: int) -> HeaderReading {
    if to - from < 6 || high_first_16(data, from) > 2 {
        HeaderReading::Refused
    } else if data[from + 4] == 0x80 {
        HeaderReading::Overflows
    } else if timing_is_known(data[from + 4]) {
        HeaderReading::Read
    } else {
        HeaderReading::Refused
    }
}

/// Whether the chunks from `at` up to `end`, read one after another, lead
/// to a header whose timing overflows. The reading stops at the first
/// chunk that cannot be read: one with less than a tag and a length, a
/// header that is refused, or a track before any header. Chunks with other
/// tags are passed over.
pub open spec fn chunks_overflow(data: Seq<u8>, end: int, at: int, header_seen: bool) -> bool
    decreases end - at,
{
    if at < 0 || end - at < 8 {
        false
    } else {
        let next = body_end(at, high_first_32(data, at + 4), end);
        if header_tag_at(data, at) {
            match header_reading(data, at + 8, next) {
                HeaderReading::Overflows => true,
                HeaderReading::Read => chunks_overflow(data, end, next, true),
                HeaderReading::Refused => false,
            }
        } else if track_tag_at(data, at) {
            header_seen && chunks_overflow(data, end, next, true)
        } else {
            chunks_overflow(data, end, next, header_seen)
        }
    }
}

/// Where the body of the first `data` chunk lies among the chunks of a
/// wrapper from `at` up to `end`. In a wrapper lengths are written low
/// byte first, and a chunk of odd length is followed by one byte of
/// padding.
pub open spec fn wrapped_file(data: Seq<u8>, end: int, at: int) -> Option<(int, int)>
    decreases end - at,
{
    if at < 0 || end - at < 8 {
        None
    } else {
        let length = low_first_32(data, at + 4);
        let stop = body_end(at, length, end);
        if data_tag_at(data, at) {
            Some((at + 8, stop))
        } else if length % 2 == 1 && stop < end {
            wrapped_file(data, end, stop + 1)
        } else {
            wrapped_file(data, end, stop)
        }
    }
}

/// Where the chunks of the file lie in the bytes: from the first byte on
/// where the bytes begin with a header's tag; in the first `data` chunk of
/// the wrapper where they begin with a wrapper of form type `RMID`;
/// nowhere else.
pub open spec fn file_range(data: Seq<u8>) -> Option<(int, int)> {
    if data.len() < 4 {
        None
    } else if riff_tag_at(data, 0) {
        if data.len() < 8 {
            None
        } else {
            let end = body_end(0, low_first_32(data, 4), data.len() as int);
            if end < 12 || !rmid_tag_at(data, 8) {
                None
            } else {
                wrapped_file(data, end, 12)
            }
        }
    } else if header_tag_at(data, 0) {
        Some((0, data.len() as int))
    } else {
        None
    }
}

/// Whether among the header chunks that are read from the bytes there is
/// one whose timing has `0x80` as its high byte.
pub open spec fn has_unreadable_frame_rate(data: Seq<u8>) -> bool {
    match file_range(data) {
        Some((from, to)) => chunks_overflow(data, to, from, false),
        None => false,
    }
}

fn tag_is(data: &[u8], at: usize, a: u8, b: u8, c: u8, d: u8) -> (same: bool)
    requires
        at + 4 <= data@.len(),
    ensures
        same == tag_at(data@, at as int, a, b, c, d),
{
    data[at] == a && data[at + 1] == b && data[at + 2] == c && data[at + 3] == d
}

fn read_high_first(data: &[u8], at: usize) -> (number: u64)
    requires
        at + 4 <= data@.len(),
    ensures
        number == high_first_32(data@, at as int),
{
    data[at] as u64 * 0x100_0000 + data[at + 1] as u64 * 0x1_0000 + data[at + 2] as u64 * 0x100
        + data[at + 3] as u64
}

fn read_low_first(data: &[u8], at: usize) -> (number: u64)
    requires
        at + 4 <= data@.len(),
    ensures
        number == low_first_32(data@, at as int),
{
    data[at] as u64 + data[at + 1] as u64 * 0x100 + data[at + 2] as u64 * 0x1_0000 + data[at
        + 3] as u64 * 0x100_0000
}

/// Where the body of a chunk ends.
fn end_of_body(at: usize, length: u64, end: usize) -> (stop: usize)
    requires
        at + 8 <= end,
    ensures
        stop == body_end(at as int, length as int, end as int),
        at + 8 <= stop <= end,
{
    let room: usize = end - at - 8;
    if length <= room as u64 {
        at + 8 + length as usize
    } else {
        end
    }
}

fn read_header(data: &[u8], from: usize, to: usize) -> (reading: HeaderReading)
    requires
        from <= to <= data@.len(),
    ensures
        reading == header_reading(data@, from as int, to as int),
{
    if to - from < 6 {
        return HeaderReading::Refused;
    }
    let format: u16 = data[from] as u16 * 0x100 + data[from + 1] as u16;
    if format > 2 {
        return HeaderReading::Refused;
    }
    let high: u8 = data[from + 4];
    if high == 0x80 {
        HeaderReading::Overflows
    } else if high < 0x80 || high == 0xE8 || high == 0xE7 || high == 0xE3 || high == 0xE2 {
        HeaderReading::Read
    } else {
        HeaderReading::Refused
    }
}

/// Finds the chunks of the file in the bytes.
pub fn find_file(data: &[u8]) -> (range: Option<(usize, usize)>)
    ensures
        match range {
            Some((from, to)) => file_range(data@) == Some((from as int, to as int)) && from <= to
                <= data@.len(),
            None => file_range(data@).is_none(),
        },
{
    if data.len() < 4 {
        return None;
    }
    if tag_is(data, 0, 0x52, 0x49, 0x46, 0x46) {
        if data.len() < 8 {
            return None;
        }
        let end = end_of_body(0, read_low_first(data, 4), data.len());
        if end < 12 || !tag_is(data, 8, 0x52, 0x4D, 0x49, 0x44) {
            return None;
        }
        let mut at: usize = 12;
        while end - at >= 8
            invariant
                12 <= at <= end <= data@.len(),
                file_range(data@) == wrapped_file(data@, end as int, 12),
                wrapped_file(data@, end as int, 12) == wrapped_file(data@, end as int, at as int),
            decreases end - at,
        {
            let length = read_low_first(data, at + 4);
            let stop = end_of_body(at, length, end);
            if tag_is(data, at, 0x64, 0x61, 0x74, 0x61) {
                return Some((at + 8, stop));
            }
            if length % 2 == 1 && stop < end {
                at = stop + 1;
            } else {
                at = stop;
            }
        }
        None
    } else if tag_is(data, 0, 0x4D, 0x54, 0x68, 0x64) {
        Some((0, data.len()))
    } else {
        None
    }
}

/// Reads the chunks of the file one after another, as far as they are
/// read at all, and says whether a header among them has a timing that
/// overflows.
pub fn find_overflow(data: &[u8], from: usize, to: usize) -> (found: bool)
    requires
        from <= to <= data@.len(),
    ensures
        found == chunks_overflow(data@, to as int, from as int, false),
{
    let mut at: usize = from;
    let mut header_seen: bool = false;
    while to - at >= 8
        invariant
            from <= at <= to <= data@.len(),
            chunks_overflow(data@, to as int, from as int, false) == chunks_overflow(
                data@,
                to as int,
                at as int,
                header_seen,
            ),
        decreases to - at,
    {
        let next = end_of_body(at, read_high_first(data, at + 4), to);
        if tag_is(data, at, 0x4D, 0x54, 0x68, 0x64) {
            match read_header(data, at + 8, next) {
                HeaderReading::Overflows => {
                    return true;
                },
                HeaderReading::Read => {
                    header_seen = true;
                },
                HeaderReading::Refused => {
                    return false;
                },
            }
        } else if tag_is(data, at, 0x4D, 0x54, 0x72, 0x6B) {
            if !header_seen {
                return false;
            }
        }
        at = next;
    }
    false
}

} // verus!
