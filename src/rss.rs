//! Decoding of the memory-accounting (`kmem:rss_stat`) tracepoint payload.
use vstd::prelude::*;

verus! {

/// Byte order of the record stream.
#[derive(Clone, Copy, Debug, PartialEq, Eq, Structural)]
pub enum Endianness {
    LittleEndian,
    BigEndian,
}

/// Resident file mapping pages
pub const MM_FILEPAGES: i32 = 0;
/// Resident anonymous pages
pub const MM_ANONPAGES: i32 = 1;
/// Anonymous swap entries
pub const MM_SWAPENTS: i32 = 2;
/// Resident shared memory pages
pub const MM_SHMEMPAGES: i32 = 3;

/// Bytes that the payload occupies.
pub const RSS_STAT_SIZE: usize = 32;

/// The decoded payload.
#[derive(Clone, Copy, Debug, PartialEq, Eq, Structural)]
pub struct RssStat {
    pub common_type: u16,
    pub common_flags: u8,
    pub common_preempt_count: u8,
    pub common_pid: i32,
    pub mm_id: u32,
    pub curr: u32,
    pub member: i32,
    /// Signed byte count.
    pub size: i64,
}

#[derive(Clone, Copy, Debug, PartialEq, Eq, Structural)]
pub enum RssStatParseError {
    /// The payload holds fewer than `RSS_STAT_SIZE` bytes.
    TooShort,
}

/// The counter that an rss_stat record updates.
#[derive(Clone, Copy, Debug, PartialEq, Eq, Structural)]
pub enum RssStatMember {
    ResidentFileMappingPages,
    ResidentAnonymousPages,
    AnonymousSwapEntries,
    ResidentSharedMemoryPages,
}

pub open spec fn le2(b: Seq<u8>, o: int) -> int {
    b[o] + 256 * b[o + 1]
}

pub open spec fn le4(b: Seq<u8>, o: int) -> int {
    le2(b, o) + 65536 * le2(b, o + 2)
}

pub open spec fn le8(b: Seq<u8>, o: int) -> int {
    le4(b, o) + 4294967296 * le4(b, o + 4)
}

pub open spec fn be2(b: Seq<u8>, o: int) -> int {
    256 * b[o] + b[o + 1]
}

pub open spec fn be4(b: Seq<u8>, o: int) -> int {
    65536 * be2(b, o) + be2(b, o + 2)
}

pub open spec fn be8(b: Seq<u8>, o: int) -> int {
    4294967296 * be4(b, o) + be4(b, o + 4)
}

/// The unsigned integer of `n` bytes (2, 4 or 8) at offset `o` in byte order `e`.
pub open spec fn uint_at(b: Seq<u8>, o: int, n: int, e: Endianness) -> int {
    match e {
        Endianness::LittleEndian => if n == 2 { le2(b, o) } else if n == 4 { le4(b, o) } else { le8(b, o) },
        Endianness::BigEndian => if n == 2 { be2(b, o) } else if n == 4 { be4(b, o) } else { be8(b, o) },
    }
}

/// The record that `data` encodes, when it is long enough.
pub open spec fn spec_rss_stat(data: Seq<u8>, e: Endianness) -> Option<RssStat> {
    if data.len() < RSS_STAT_SIZE {
        None
    } else {
        Some(RssStat {
            common_type: uint_at(data, 0, 2, e) as u16,
            common_flags: data[2],
            common_preempt_count: data[3],
            common_pid: (uint_at(data, 4, 4, e) as u32) as i32,
            mm_id: uint_at(data, 8, 4, e) as u32,
            curr: uint_at(data, 12, 4, e) as u32,
            member: (uint_at(data, 16, 4, e) as u32) as i32,
            size: (uint_at(data, 24, 8, e) as u64) as i64,
        })
    }
}

pub open spec fn spec_member_of(member: i32) -> Option<RssStatMember> {
    if member == MM_FILEPAGES {
        Some(RssStatMember::ResidentFileMappingPages)
    } else if member == MM_ANONPAGES {
        Some(RssStatMember::ResidentAnonymousPages)
    } else if member == MM_SWAPENTS {
        Some(RssStatMember::AnonymousSwapEntries)
    } else if member == MM_SHMEMPAGES {
        Some(RssStatMember::ResidentSharedMemoryPages)
    } else {
        None
    }
}

/// The 16-bit integer at offset `o`.
pub fn read_u16(b: &[u8], o: usize, e: Endianness) -> (r: u16)
    requires
        o + 2 <= b@.len(),
    ensures
        r as int == uint_at(b@, o as int, 2, e),
{
    let _n = b.len();
    match e {
        Endianness::LittleEndian => (b[o] as u16) + (b[o + 1] as u16) * 256,
        Endianness::BigEndian => (b[o] as u16) * 256 + (b[o + 1] as u16),
    }
}

/// The 32-bit integer at offset `o`.
pub fn read_u32(b: &[u8], o: usize, e: Endianness) -> (r: u32)
    requires
        o + 4 <= b@.len(),
    ensures
        r as int == uint_at(b@, o as int, 4, e),
{
    let _n = b.len();
    let x = read_u16(b, o, e) as u32;
    let y = read_u16(b, o + 2, e) as u32;
    match e {
        Endianness::LittleEndian => x + y * 65536,
        Endianness::BigEndian => x * 65536 + y,
    }
}

/// The 64-bit integer at offset `o`.
pub fn read_u64(b: &[u8], o: usize, e: Endianness) -> (r: u64)
    requires
        o + 8 <= b@.len(),
    ensures
        r as int == uint_at(b@, o as int, 8, e),
{
    let _n = b.len();
    let x = read_u32(b, o, e) as u64;
    let y = read_u32(b, o + 4, e) as u64;
    match e {
        Endianness::LittleEndian => x + y * 4294967296,
        Endianness::BigEndian => x * 4294967296 + y,
    }
}

impl RssStat {
    /// Decodes the payload in byte order `endian`.
    pub fn parse(data: &[u8], endian: Endianness) -> (r: Result<RssStat, RssStatParseError>)
        ensures
            match spec_rss_stat(data@, endian) {
                Some(s) => r == Ok::<RssStat, RssStatParseError>(s),
                None => r == Err::<RssStat, RssStatParseError>(RssStatParseError::TooShort),
            },
    {
        if data.len() < RSS_STAT_SIZE {
            return Err(RssStatParseError::TooShort);
        }
        Ok(RssStat {
            common_type: read_u16(data, 0, endian),
            common_flags: data[2],
            common_preempt_count: data[3],
            common_pid: read_u32(data, 4, endian) as i32,
            mm_id: read_u32(data, 8, endian),
            curr: read_u32(data, 12, endian),
            member: read_u32(data, 16, endian) as i32,
            size: read_u64(data, 24, endian) as i64,
        })
    }
}

impl RssStatMember {
    /// The counter that a `member` value names; none for unknown values.
    pub fn from_member(member: i32) -> (r: Option<RssStatMember>)
        ensures
            r == spec_member_of(member),
    {
        if member == MM_FILEPAGES {
            Some(RssStatMember::ResidentFileMappingPages)
        } else if member == MM_ANONPAGES {
            Some(RssStatMember::ResidentAnonymousPages)
        } else if member == MM_SWAPENTS {
            Some(RssStatMember::AnonymousSwapEntries)
        } else if member == MM_SHMEMPAGES {
            Some(RssStatMember::ResidentSharedMemoryPages)
        } else {
            None
        }
    }
}

} // verus!
