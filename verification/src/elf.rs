//! Resolves the entry point of an ELF32 little-endian image to an offset
//! inside the image's bytes.

use vstd::prelude::*;
use vstd::slice::slice_subrange;
use vstd::string::StringSliceAdditionalSpecFns;

verus! {

/// Why an image could not be resolved.
#[derive(Clone, Copy, Debug, PartialEq, Eq, Structural)]
pub enum ElfError {
    /// The image holds fewer bytes than the part of the ELF header that is read.
    HeaderTooShort,
    /// The image does not start with the four magic bytes.
    BadMagic,
    /// The class byte does not announce a 32-bit image.
    UnsupportedClass,
    /// The program header table reaches beyond the end of the image.
    ProgramHeadersOutOfRange,
    /// A program header entry is smaller than the fields that are read from it.
    ProgramHeaderTooShort,
    /// A segment's virtual range does not fit in 32 bits.
    SegmentSizeOverflow,
    /// No segment's virtual range contains the entry point.
    NoMatchingSegment,
}

impl ElfError {
    /// The reason in words, as bytes.
    pub open spec fn message_text(self) -> Seq<u8> {
        match self {
            ElfError::HeaderTooShort => "ELF header too short".spec_bytes(),
            ElfError::BadMagic => "Cannot run program: Magic ELF header not found.".spec_bytes(),
            ElfError::UnsupportedClass => "Cannot run program: Not 32-bit.".spec_bytes(),
            ElfError::ProgramHeadersOutOfRange => "ELF program headers section too short".spec_bytes(),
            ElfError::ProgramHeaderTooShort => "Program header too short".spec_bytes(),
            ElfError::SegmentSizeOverflow => "Segment size overflow error".spec_bytes(),
            ElfError::NoMatchingSegment => "No program headers found".spec_bytes(),
        }
    }

    /// The reason in words.
    pub fn message(&self) -> (text: &'static str)
        ensures
            text.spec_bytes() == self.message_text(),
    {
        match self {
            ElfError::HeaderTooShort => "ELF header too short",
            ElfError::BadMagic => "Cannot run program: Magic ELF header not found.",
            ElfError::UnsupportedClass => "Cannot run program: Not 32-bit.",
            ElfError::ProgramHeadersOutOfRange => "ELF program headers section too short",
            ElfError::ProgramHeaderTooShort => "Program header too short",
            ElfError::SegmentSizeOverflow => "Segment size overflow error",
            ElfError::NoMatchingSegment => "No program headers found",
        }
    }
}

/// Number of leading bytes of an image that the resolver reads as the ELF header.
pub const HEADER_LENGTH: usize = 54;

/// Number of leading bytes of a program header entry that the resolver reads.
pub const PROGRAM_HEADER_LENGTH: usize = 0x14;

/// The value of the first two bytes of `bytes`, least significant byte first.
pub open spec fn le_u16(bytes: Seq<u8>) -> int {
    bytes[0] as int + 256 * (bytes[1] as int)
}

/// The value of the first four bytes of `bytes`, least significant byte first.
pub open spec fn le_u32(bytes: Seq<u8>) -> int {
    bytes[0] as int + 256 * (bytes[1] as int) + 65536 * (bytes[2] as int) + 16777216 * (
    bytes[3] as int)
}

/// Whether `image` starts with the bytes `7F 45 4C 46`.
pub open spec fn has_magic(image: Seq<u8>) -> bool {
    &&& image.len() >= 4
    &&& image[0] == 0x7f
    &&& image[1] == 0x45
    &&& image[2] == 0x4c
    &&& image[3] == 0x46
}

/// What one program header entry says of `entry_point`: the offset in the
/// file that the entry point is loaded from if the segment's virtual range
/// contains it, nothing if the range does not, or the reason why the entry
/// is rejected.
pub open spec fn segment_offset(header: Seq<u8>, entry_point: int) -> Result<Option<int>, ElfError> {
    if header.len() < PROGRAM_HEADER_LENGTH {
        Err(ElfError::ProgramHeaderTooShort)
    } else {
        let file_offset = le_u32(header.subrange(0x04, 0x08));
        let virtual_address = le_u32(header.subrange(0x08, 0x0c));
        let memory_size = le_u32(header.subrange(0x10, 0x14));
        if virtual_address + memory_size > u32::MAX {
            Err(ElfError::SegmentSizeOverflow)
        } else if virtual_address <= entry_point < virtual_address + memory_size {
            Ok(Some(entry_point + file_offset - virtual_address))
        } else {
            Ok(None)
        }
    }
}

/// Entry `index` of a program header table whose entries have `entry_size` bytes.
pub open spec fn table_entry(table: Seq<u8>, entry_size: int, index: int) -> Seq<u8> {
    table.subrange(index * entry_size, (index + 1) * entry_size)
}

/// The outcome of walking the table's entries in file order from `index` on:
/// the first entry that is rejected or that contains the entry point decides.
pub open spec fn scan_segments(
    table: Seq<u8>,
    entry_size: int,
    count: int,
    index: int,
    entry_point: int,
) -> Result<int, ElfError>
    decreases count - index,
{
    if index >= count {
        Err(ElfError::NoMatchingSegment)
    } else {
        match segment_offset(table_entry(table, entry_size, index), entry_point) {
            Err(error) => Err(error),
            Ok(Some(offset)) => Ok(offset),
            Ok(None) => scan_segments(table, entry_size, count, index + 1, entry_point),
        }
    }
}

/// The file offset of the entry point of `image`, or the first reason why it
/// has none.
pub open spec fn entry_offset(image: Seq<u8>) -> Result<int, ElfError> {
    if image.len() < HEADER_LENGTH {
        Err(ElfError::HeaderTooShort)
    } else if !has_magic(image) {
        Err(ElfError::BadMagic)
    } else if image[4] != 1 {
        Err(ElfError::UnsupportedClass)
    } else {
        let entry_point = le_u32(image.subrange(0x18, 0x1c));
        let table_start = le_u32(image.subrange(0x1c, 0x20));
        let entry_size = le_u16(image.subrange(0x2a, 0x2c));
        let count = le_u16(image.subrange(0x2c, 0x2e));
        let table_end = table_start + entry_size * count;
        if table_end > image.len() {
            Err(ElfError::ProgramHeadersOutOfRange)
        } else {
            scan_segments(image.subrange(table_start, table_end), entry_size, count, 0, entry_point)
        }
    }
}

/// Whether the segment of entry `at` of the table does not contain the entry
/// point, and the entry is not rejected.
pub open spec fn misses(table: Seq<u8>, entry_size: int, at: int, entry_point: int) -> bool {
    segment_offset(table_entry(table, entry_size, at), entry_point) == Ok::<
        Option<int>,
        ElfError,
    >(None)
}

/// The first entry, from `index` on, that is rejected or whose segment
/// contains the entry point decides the walk: the walk gives what that
/// entry gives.
pub proof fn lemma_first_entry_decides(
    table: Seq<u8>,
    entry_size: int,
    count: int,
    index: int,
    at: int,
    entry_point: int,
)
    requires
        0 <= index <= at < count,
        forall|before: int| index <= before < at ==> misses(table, entry_size, before, entry_point),
        !misses(table, entry_size, at, entry_point),
    ensures
        scan_segments(table, entry_size, count, index, entry_point) == match segment_offset(
            table_entry(table, entry_size, at),
            entry_point,
        ) {
            Ok(found) => Ok::<int, ElfError>(found.unwrap()),
            Err(error) => Err::<int, ElfError>(error),
        },
    decreases at - index,
{
    if index < at {
        assert(misses(table, entry_size, index, entry_point));
        lemma_first_entry_decides(table, entry_size, count, index + 1, at, entry_point);
    }
}

/// If every entry from `index` on misses the entry point, the walk finds no
/// segment.
pub proof fn lemma_no_entry_decides(
    table: Seq<u8>,
    entry_size: int,
    count: int,
    index: int,
    entry_point: int,
)
    requires
        0 <= index,
        forall|at: int| index <= at < count ==> misses(table, entry_size, at, entry_point),
    ensures
        scan_segments(table, entry_size, count, index, entry_point) == Err::<int, ElfError>(
            ElfError::NoMatchingSegment,
        ),
    decreases count - index,
{
    if index < count {
        assert(misses(table, entry_size, index, entry_point));
        lemma_no_entry_decides(table, entry_size, count, index + 1, entry_point);
    }
}

/// The entries of a table lie one behind the other, within the table.
proof fn lemma_entry_bounds(entry_size: int, index: int, count: int)
    requires
        0 <= index < count,
        0 <= entry_size,
    ensures
        0 <= index * entry_size,
        (index + 1) * entry_size == index * entry_size + entry_size,
        (index + 1) * entry_size <= entry_size * count,
{
    assert(0 <= index * entry_size) by (nonlinear_arith)
        requires
            0 <= index,
            0 <= entry_size,
    ;
    assert((index + 1) * entry_size == index * entry_size + entry_size) by (nonlinear_arith);
    assert((index + 1) * entry_size <= entry_size * count) by (nonlinear_arith)
        requires
            index + 1 <= count,
            0 <= entry_size,
    ;
}

/// Reads a 16-bit little-endian value from the start of `bytes`.
pub fn read_u16(bytes: &[u8]) -> (value: u16)
    requires
        bytes@.len() >= 2,
    ensures
        value == le_u16(bytes@),
{
    let low: u16 = bytes[0] as u16;
    let high: u16 = bytes[1] as u16;
    low + 256 * high
}

/// Reads a 32-bit little-endian value from the start of `bytes`.
pub fn read_u32(bytes: &[u8]) -> (value: u32)
    requires
        bytes@.len() >= 4,
    ensures
        value == le_u32(bytes@),
{
    let b0: u32 = bytes[0] as u32;
    let b1: u32 = bytes[1] as u32;
    let b2: u32 = bytes[2] as u32;
    let b3: u32 = bytes[3] as u32;
    b0 + 256 * b1 + 65536 * b2 + 16777216 * b3
}

/// Tests one program header entry against the entry point.
pub fn read_program_header(program_header: &[u8], entry_point: u32) -> (result: Result<
    Option<u64>,
    ElfError,
>)
    ensures
        result matches Ok(Some(offset)) ==> offset <= 2 * u32::MAX,
        match result {
            Ok(Some(offset)) => segment_offset(program_header@, entry_point as int) == Ok::<
                Option<int>,
                ElfError,
            >(Some(offset as int)),
            Ok(None) => segment_offset(program_header@, entry_point as int) == Ok::<
                Option<int>,
                ElfError,
            >(None),
            Err(error) => segment_offset(program_header@, entry_point as int) == Err::<
                Option<int>,
                ElfError,
            >(error),
        },
{
    if program_header.len() < PROGRAM_HEADER_LENGTH {
        return Err(ElfError::ProgramHeaderTooShort);
    }
    let file_offset: u64 = read_u32(slice_subrange(program_header, 0x04, 0x08)) as u64;
    let virtual_address: u64 = read_u32(slice_subrange(program_header, 0x08, 0x0c)) as u64;
    let memory_size: u64 = read_u32(slice_subrange(program_header, 0x10, 0x14)) as u64;
    let entry: u64 = entry_point as u64;

    if virtual_address + memory_size > 0xffff_ffff {
        return Err(ElfError::SegmentSizeOverflow);
    }
    if virtual_address <= entry && entry < virtual_address + memory_size {
        Ok(Some(entry + file_offset - virtual_address))
    } else {
        Ok(None)
    }
}

/// Resolves the entry point of `contents` to an offset in `contents`.
///
/// The header is checked field by field and the program headers are walked
/// in file order; the first violation decides the error.
pub fn read_elf(contents: &[u8]) -> (result: Result<u64, ElfError>)
    ensures
        result matches Ok(offset) ==> offset <= 2 * u32::MAX,
        match result {
            Ok(offset) => entry_offset(contents@) == Ok::<int, ElfError>(offset as int),
            Err(error) => entry_offset(contents@) == Err::<int, ElfError>(error),
        },
{
    if contents.len() < HEADER_LENGTH {
        return Err(ElfError::HeaderTooShort);
    }
    if contents[0] != 0x7f || contents[1] != 0x45 || contents[2] != 0x4c || contents[3] != 0x46 {
        return Err(ElfError::BadMagic);
    }
    if contents[4] != 1 {
        return Err(ElfError::UnsupportedClass);
    }
    let entry_point: u32 = read_u32(slice_subrange(contents, 0x18, 0x1c));
    let table_start: u64 = read_u32(slice_subrange(contents, 0x1c, 0x20)) as u64;
    let entry_size: u64 = read_u16(slice_subrange(contents, 0x2a, 0x2c)) as u64;
    let count: u64 = read_u16(slice_subrange(contents, 0x2c, 0x2e)) as u64;

    assert(entry_size * count <= 65535 * 65535) by (nonlinear_arith)
        requires
            entry_size <= 65535,
            count <= 65535,
    ;
    let table_size: u64 = entry_size * count;
    let table_end: u64 = table_start + table_size;
    if table_end > contents.len() as u64 {
        return Err(ElfError::ProgramHeadersOutOfRange);
    }
    let table = slice_subrange(contents, table_start as usize, table_end as usize);
    let step: usize = entry_size as usize;

    let mut index: u64 = 0;
    let mut header_start: usize = 0;
    while index < count
        invariant
            index <= count,
            step == entry_size,
            header_start == index * entry_size,
            table@.len() == entry_size * count,
            table@.len() <= usize::MAX,
            entry_offset(contents@) == scan_segments(
                table@,
                entry_size as int,
                count as int,
                index as int,
                entry_point as int,
            ),
        decreases count - index,
    {
        proof {
            lemma_entry_bounds(entry_size as int, index as int, count as int);
        }
        let header_end: usize = header_start + step;
        let program_header = slice_subrange(table, header_start, header_end);
        match read_program_header(program_header, entry_point) {
            Err(error) => {
                return Err(error);
            },
            Ok(Some(offset)) => {
                return Ok(offset);
            },
            Ok(None) => {},
        }
        index = index + 1;
        header_start = header_end;
    }
    Err(ElfError::NoMatchingSegment)
}

} // verus!
