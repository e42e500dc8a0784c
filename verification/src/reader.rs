//! Structured reader: decodes fixed-layout little-endian records out of a
//! byte buffer at controlled offsets.  Every record reader demands that the
//! whole record fits in the buffer and fails with `TruncatedRead` otherwise;
//! structural validation of the decoded fields happens one layer up.

use vstd::prelude::*;

use crate::FormatError;

verus! {

/// The decoded value of two little-endian bytes at `off`.
pub open spec fn le16(d: Seq<u8>, off: int) -> u16 {
    (d[off] as int + d[off + 1] as int * 0x100) as u16
}

/// The decoded value of four little-endian bytes at `off`.
pub open spec fn le32(d: Seq<u8>, off: int) -> u32 {
    (d[off] as int + d[off + 1] as int * 0x100 + d[off + 2] as int * 0x10000 + d[off
        + 3] as int * 0x1000000) as u32
}

/// The fields of the MZ (DOS) header that the locator reads: the two
/// signature bytes and the file offset of the new (PE) header.
#[derive(Clone, Copy, Debug)]
pub struct MzHeader {
    pub sig0: u8,
    pub sig1: u8,
    pub new_header: u32,
}

/// The fields of the COFF/PE file header that the locator reads.
#[derive(Clone, Copy, Debug)]
pub struct PeHeader {
    pub sig0: u8,
    pub sig1: u8,
    pub sig2: u8,
    pub sig3: u8,
    pub machine: u16,
    pub num_sections: u16,
    pub timestamp: u32,
    pub optional_header_size: u16,
}

/// The two optional-header fields the core cares about; all other
/// optional-header fields are opaque to this crate.
#[derive(Clone, Copy, Debug)]
pub struct OptionalHeaderInfo {
    pub size_of_image: u32,
    pub num_tables: u32,
}

/// One data-directory entry: a virtual address and a size.
#[derive(Clone, Copy, Debug)]
pub struct DataDirectory {
    pub vaddr: u32,
    pub size: u32,
}

/// The fields of a section descriptor used to map a virtual address range
/// onto the file: raw (on-disk) placement, never in-memory virtual size.
#[derive(Clone, Copy, Debug)]
pub struct SectionHeader {
    pub vaddr: u32,
    pub raw_data_size: u32,
    pub pointer_to_raw_data: u32,
}

/// The fields of a debug-directory entry the extractor reads.
#[derive(Clone, Copy, Debug)]
pub struct DebugDirectoryEntry {
    pub typ: u32,
    pub size_of_data: u32,
    pub pointer_to_raw_data: u32,
}

/// The fixed part of a CodeView record: magic, GUID and age.  The GUID's
/// final eight bytes are kept as individual fields.
#[derive(Clone, Copy, Debug)]
pub struct CodeViewRecord {
    pub sig0: u8,
    pub sig1: u8,
    pub sig2: u8,
    pub sig3: u8,
    pub guid_a: u32,
    pub guid_b: u16,
    pub guid_c: u16,
    pub guid_d0: u8,
    pub guid_d1: u8,
    pub guid_d2: u8,
    pub guid_d3: u8,
    pub guid_d4: u8,
    pub guid_d5: u8,
    pub guid_d6: u8,
    pub guid_d7: u8,
    pub age: u32,
}

/// On-disk size of the full MZ header record.
pub const MZ_HEADER_SIZE: u64 = 64;

/// On-disk size of the full PE file header record.
pub const PE_HEADER_SIZE: u64 = 24;

/// On-disk size of the 32-bit optional header record.
pub const OPT_HEADER_32_SIZE: u64 = 96;

/// On-disk size of the 64-bit optional header record.
pub const OPT_HEADER_64_SIZE: u64 = 112;

/// On-disk size of one data-directory entry.
pub const DATA_DIRECTORY_SIZE: u64 = 8;

/// On-disk size of one section descriptor.
pub const SECTION_HEADER_SIZE: u64 = 40;

/// On-disk size of one debug-directory entry.
pub const DEBUG_DIRECTORY_SIZE: u64 = 28;

/// On-disk size of the fixed part of a CodeView record.
pub const CODEVIEW_HEADER_SIZE: u64 = 24;

/// The MZ header decoded from the start of `d`, which must hold the whole
/// record.
pub open spec fn spec_mz_header(d: Seq<u8>) -> MzHeader {
    MzHeader { sig0: d[0], sig1: d[1], new_header: le32(d, 60) }
}

/// The PE file header decoded at `off`.
pub open spec fn spec_pe_header(d: Seq<u8>, off: int) -> PeHeader {
    PeHeader {
        sig0: d[off],
        sig1: d[off + 1],
        sig2: d[off + 2],
        sig3: d[off + 3],
        machine: le16(d, off + 4),
        num_sections: le16(d, off + 6),
        timestamp: le32(d, off + 8),
        optional_header_size: le16(d, off + 20),
    }
}

/// The optional-header fields decoded at `off`; both bitness variants keep
/// the image size at byte 56, while the directory-entry count sits at byte
/// 92 in the 32-bit layout and byte 108 in the 64-bit one.
pub open spec fn spec_optional_header(d: Seq<u8>, off: int, wide: bool) -> OptionalHeaderInfo {
    OptionalHeaderInfo {
        size_of_image: le32(d, off + 56),
        num_tables: if wide {
            le32(d, off + 108)
        } else {
            le32(d, off + 92)
        },
    }
}

/// One data-directory entry decoded at `off`.
pub open spec fn spec_data_directory(d: Seq<u8>, off: int) -> DataDirectory {
    DataDirectory { vaddr: le32(d, off), size: le32(d, off + 4) }
}

/// One section descriptor decoded at `off`.
pub open spec fn spec_section_header(d: Seq<u8>, off: int) -> SectionHeader {
    SectionHeader {
        vaddr: le32(d, off + 12),
        raw_data_size: le32(d, off + 16),
        pointer_to_raw_data: le32(d, off + 20),
    }
}

/// One debug-directory entry decoded at `off`.
pub open spec fn spec_debug_directory_entry(d: Seq<u8>, off: int) -> DebugDirectoryEntry {
    DebugDirectoryEntry {
        typ: le32(d, off + 12),
        size_of_data: le32(d, off + 16),
        pointer_to_raw_data: le32(d, off + 24),
    }
}

/// The fixed CodeView record decoded at `off`.
pub open spec fn spec_codeview_record(d: Seq<u8>, off: int) -> CodeViewRecord {
    CodeViewRecord {
        sig0: d[off],
        sig1: d[off + 1],
        sig2: d[off + 2],
        sig3: d[off + 3],
        guid_a: le32(d, off + 4),
        guid_b: le16(d, off + 8),
        guid_c: le16(d, off + 10),
        guid_d0: d[off + 12],
        guid_d1: d[off + 13],
        guid_d2: d[off + 14],
        guid_d3: d[off + 15],
        guid_d4: d[off + 16],
        guid_d5: d[off + 17],
        guid_d6: d[off + 18],
        guid_d7: d[off + 19],
        age: le32(d, off + 20),
    }
}

/// True when the `size`-byte record at `off` lies inside `d`.
pub open spec fn spec_in_bounds(d: Seq<u8>, off: int, size: int) -> bool {
    off + size <= d.len()
}

/// Decides whether the `size`-byte record at `off` lies wholly inside `d`.
pub fn record_in_bounds(d: &Vec<u8>, off: u64, size: u64) -> (r: bool)
    ensures
        r == spec_in_bounds(d@, off as int, size as int),
        d@.len() <= u64::MAX,
{
    let len: u64 = d.len() as u64;
    size <= len && off <= len - size
}

/// Reads the byte at `off`.
fn get_u8(d: &Vec<u8>, off: u64) -> (r: u8)
    requires
        off < d@.len(),
    ensures
        r == d@[off as int],
{
    proof {
        assert(d.len() <= usize::MAX);
    }
    d[off as usize]
}

/// Reads two little-endian bytes at `off`.
fn get_u16(d: &Vec<u8>, off: u64) -> (r: u16)
    requires
        off + 2 <= d@.len(),
    ensures
        r == le16(d@, off as int),
{
    proof {
        assert(d.len() <= usize::MAX);
    }
    let b0 = get_u8(d, off);
    let b1 = get_u8(d, off + 1);
    b0 as u16 + b1 as u16 * 0x100
}

/// Reads four little-endian bytes at `off`.
fn get_u32(d: &Vec<u8>, off: u64) -> (r: u32)
    requires
        off + 4 <= d@.len(),
    ensures
        r == le32(d@, off as int),
{
    proof {
        assert(d.len() <= usize::MAX);
    }
    let b0 = get_u8(d, off);
    let b1 = get_u8(d, off + 1);
    let b2 = get_u8(d, off + 2);
    let b3 = get_u8(d, off + 3);
    b0 as u32 + b1 as u32 * 0x100 + b2 as u32 * 0x10000 + b3 as u32 * 0x1000000
}

/// Reads `len` raw bytes at `off`, the reader's one variable-length
/// operation, used for the CodeView trailing path string.
#[verifier::loop_isolation(false)]
pub fn read_bytes(d: &Vec<u8>, off: u64, len: u64) -> (r: Result<Vec<u8>, FormatError>)
    ensures
        r matches Ok(v) ==> spec_in_bounds(d@, off as int, len as int) && v@ == d@.subrange(
            off as int,
            off as int + len as int,
        ),
        r matches Err(e) ==> !spec_in_bounds(d@, off as int, len as int) && e
            == FormatError::TruncatedRead,
{
    if !record_in_bounds(d, off, len) {
        return Err(FormatError::TruncatedRead);
    }
    let mut v: Vec<u8> = Vec::new();
    let mut k: u64 = 0;
    while k < len
        invariant
            k <= len,
            v@ =~= d@.subrange(off as int, off as int + k as int),
        decreases len - k,
    {
        v.push(get_u8(d, off + k));
        k = k + 1;
    }
    Ok(v)
}

/// Reads the whole MZ header record from the start of `d`.
pub fn read_mz_header(d: &Vec<u8>) -> (r: Result<MzHeader, FormatError>)
    ensures
        r matches Ok(h) ==> spec_in_bounds(d@, 0, MZ_HEADER_SIZE as int) && h == spec_mz_header(d@),
        r matches Err(e) ==> !spec_in_bounds(d@, 0, MZ_HEADER_SIZE as int) && e
            == FormatError::TruncatedRead,
{
    if !record_in_bounds(d, 0, MZ_HEADER_SIZE) {
        return Err(FormatError::TruncatedRead);
    }
    Ok(MzHeader { sig0: get_u8(d, 0), sig1: get_u8(d, 1), new_header: get_u32(d, 60) })
}

/// Reads the whole PE file header record at `off`.
pub fn read_pe_header(d: &Vec<u8>, off: u64) -> (r: Result<PeHeader, FormatError>)
    ensures
        r matches Ok(h) ==> spec_in_bounds(d@, off as int, PE_HEADER_SIZE as int) && h
            == spec_pe_header(d@, off as int),
        r matches Err(e) ==> !spec_in_bounds(d@, off as int, PE_HEADER_SIZE as int) && e
            == FormatError::TruncatedRead,
{
    if !record_in_bounds(d, off, PE_HEADER_SIZE) {
        return Err(FormatError::TruncatedRead);
    }
    Ok(
        PeHeader {
            sig0: get_u8(d, off),
            sig1: get_u8(d, off + 1),
            sig2: get_u8(d, off + 2),
            sig3: get_u8(d, off + 3),
            machine: get_u16(d, off + 4),
            num_sections: get_u16(d, off + 6),
            timestamp: get_u32(d, off + 8),
            optional_header_size: get_u16(d, off + 20),
        },
    )
}

/// Reads the optional-header record at `off`; `wide` selects the 64-bit
/// layout.
pub fn read_optional_header(d: &Vec<u8>, off: u64, wide: bool) -> (r: Result<
    OptionalHeaderInfo,
    FormatError,
>)
    ensures
        ({
            let size = if wide {
                OPT_HEADER_64_SIZE as int
            } else {
                OPT_HEADER_32_SIZE as int
            };
            &&& (r matches Ok(h) ==> spec_in_bounds(d@, off as int, size) && h
                == spec_optional_header(d@, off as int, wide))
            &&& (r matches Err(e) ==> !spec_in_bounds(d@, off as int, size) && e
                == FormatError::TruncatedRead)
        }),
{
    let size: u64 = if wide {
        OPT_HEADER_64_SIZE
    } else {
        OPT_HEADER_32_SIZE
    };
    if !record_in_bounds(d, off, size) {
        return Err(FormatError::TruncatedRead);
    }
    let num_tables_off: u64 = if wide {
        off + 108
    } else {
        off + 92
    };
    Ok(
        OptionalHeaderInfo {
            size_of_image: get_u32(d, off + 56),
            num_tables: get_u32(d, num_tables_off),
        },
    )
}

/// Reads one data-directory entry at `off`.
pub fn read_data_directory(d: &Vec<u8>, off: u64) -> (r: Result<DataDirectory, FormatError>)
    ensures
        r matches Ok(h) ==> spec_in_bounds(d@, off as int, DATA_DIRECTORY_SIZE as int) && h
            == spec_data_directory(d@, off as int),
        r matches Err(e) ==> !spec_in_bounds(d@, off as int, DATA_DIRECTORY_SIZE as int) && e
            == FormatError::TruncatedRead,
{
    if !record_in_bounds(d, off, DATA_DIRECTORY_SIZE) {
        return Err(FormatError::TruncatedRead);
    }
    Ok(DataDirectory { vaddr: get_u32(d, off), size: get_u32(d, off + 4) })
}

/// Reads one section descriptor at `off`.
pub fn read_section_header(d: &Vec<u8>, off: u64) -> (r: Result<SectionHeader, FormatError>)
    ensures
        r matches Ok(h) ==> spec_in_bounds(d@, off as int, SECTION_HEADER_SIZE as int) && h
            == spec_section_header(d@, off as int),
        r matches Err(e) ==> !spec_in_bounds(d@, off as int, SECTION_HEADER_SIZE as int) && e
            == FormatError::TruncatedRead,
{
    if !record_in_bounds(d, off, SECTION_HEADER_SIZE) {
        return Err(FormatError::TruncatedRead);
    }
    Ok(
        SectionHeader {
            vaddr: get_u32(d, off + 12),
            raw_data_size: get_u32(d, off + 16),
            pointer_to_raw_data: get_u32(d, off + 20),
        },
    )
}

/// Reads one debug-directory entry at `off`.
pub fn read_debug_directory_entry(d: &Vec<u8>, off: u64) -> (r: Result<
    DebugDirectoryEntry,
    FormatError,
>)
    ensures
        r matches Ok(h) ==> spec_in_bounds(d@, off as int, DEBUG_DIRECTORY_SIZE as int) && h
            == spec_debug_directory_entry(d@, off as int),
        r matches Err(e) ==> !spec_in_bounds(d@, off as int, DEBUG_DIRECTORY_SIZE as int) && e
            == FormatError::TruncatedRead,
{
    if !record_in_bounds(d, off, DEBUG_DIRECTORY_SIZE) {
        return Err(FormatError::TruncatedRead);
    }
    Ok(
        DebugDirectoryEntry {
            typ: get_u32(d, off + 12),
            size_of_data: get_u32(d, off + 16),
            pointer_to_raw_data: get_u32(d, off + 24),
        },
    )
}

/// Reads the fixed CodeView record at `off`.
pub fn read_codeview_record(d: &Vec<u8>, off: u64) -> (r: Result<CodeViewRecord, FormatError>)
    ensures
        r matches Ok(h) ==> spec_in_bounds(d@, off as int, CODEVIEW_HEADER_SIZE as int) && h
            == spec_codeview_record(d@, off as int),
        r matches Err(e) ==> !spec_in_bounds(d@, off as int, CODEVIEW_HEADER_SIZE as int) && e
            == FormatError::TruncatedRead,
{
    if !record_in_bounds(d, off, CODEVIEW_HEADER_SIZE) {
        return Err(FormatError::TruncatedRead);
    }
    Ok(
        CodeViewRecord {
            sig0: get_u8(d, off),
            sig1: get_u8(d, off + 1),
            sig2: get_u8(d, off + 2),
            sig3: get_u8(d, off + 3),
            guid_a: get_u32(d, off + 4),
            guid_b: get_u16(d, off + 8),
            guid_c: get_u16(d, off + 10),
            guid_d0: get_u8(d, off + 12),
            guid_d1: get_u8(d, off + 13),
            guid_d2: get_u8(d, off + 14),
            guid_d3: get_u8(d, off + 15),
            guid_d4: get_u8(d, off + 16),
            guid_d5: get_u8(d, off + 17),
            guid_d6: get_u8(d, off + 18),
            guid_d7: get_u8(d, off + 19),
            age: get_u32(d, off + 20),
        },
    )
}

} // verus!
