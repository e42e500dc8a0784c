//! PE locator: validates and walks MZ -> PE -> optional header -> data
//! directories -> section table, and resolves the debug directory's virtual
//! address to a file offset through the first section whose raw on-disk
//! range contains it.

use vstd::prelude::*;

use crate::reader::{
    spec_in_bounds, spec_mz_header, spec_pe_header, spec_optional_header, spec_data_directory,
    spec_section_header, record_in_bounds, read_mz_header, read_pe_header, read_optional_header,
    read_data_directory, read_section_header, MzHeader, PeHeader, OptionalHeaderInfo,
    DataDirectory, SectionHeader, MZ_HEADER_SIZE, PE_HEADER_SIZE, OPT_HEADER_32_SIZE,
    OPT_HEADER_64_SIZE, DATA_DIRECTORY_SIZE, SECTION_HEADER_SIZE,
};
use crate::FormatError;

verus! {

/// Machine value for 32-bit x86 images.
pub const MACHINE_I386: u16 = 0x014c;

/// Machine value for IA64 images.
pub const MACHINE_IA64: u16 = 0x0200;

/// Machine value for x64 images.
pub const MACHINE_AMD64: u16 = 0x8664;

/// The data-directory index of the debug directory, fixed by the PE
/// specification.
pub const DEBUG_DIRECTORY_INDEX: u64 = 6;

/// True for the three machine values this crate accepts.
pub open spec fn spec_machine_supported(m: u16) -> bool {
    m == MACHINE_I386 || m == MACHINE_IA64 || m == MACHINE_AMD64
}

/// True for the machine values whose optional header uses the 64-bit
/// layout.
pub open spec fn spec_machine_wide(m: u16) -> bool {
    m == MACHINE_IA64 || m == MACHINE_AMD64
}

/// Everything the MZ/PE/optional-header walk yields: the two headers, the
/// optional-header info, and the file offset where the data-directory
/// table begins.
pub struct PeParse {
    pub mz: MzHeader,
    pub pe: PeHeader,
    pub info: OptionalHeaderInfo,
    pub dirs_off: u64,
}

/// The MZ/PE/optional-header walk over `d`: validates both signatures,
/// requires a supported machine, and decodes the optional header of the
/// matching bitness.
pub open spec fn spec_parse_pe(d: Seq<u8>) -> Result<PeParse, FormatError> {
    if !spec_in_bounds(d, 0, MZ_HEADER_SIZE as int) {
        Err(FormatError::TruncatedRead)
    } else {
        let mz = spec_mz_header(d);
        if !(mz.sig0 == 0x4d && mz.sig1 == 0x5a) {
            Err(FormatError::NotAnExecutable)
        } else if !spec_in_bounds(d, mz.new_header as int, PE_HEADER_SIZE as int) {
            Err(FormatError::TruncatedRead)
        } else {
            let pe = spec_pe_header(d, mz.new_header as int);
            if !(pe.sig0 == 0x50 && pe.sig1 == 0x45 && pe.sig2 == 0 && pe.sig3 == 0) {
                Err(FormatError::NotAPeFile)
            } else if !spec_machine_supported(pe.machine) {
                Err(FormatError::UnsupportedMachine)
            } else {
                let wide = spec_machine_wide(pe.machine);
                let opt_off = mz.new_header as int + PE_HEADER_SIZE as int;
                let opt_size = if wide {
                    OPT_HEADER_64_SIZE as int
                } else {
                    OPT_HEADER_32_SIZE as int
                };
                if !spec_in_bounds(d, opt_off, opt_size) {
                    Err(FormatError::TruncatedRead)
                } else {
                    Ok(
                        PeParse {
                            mz,
                            pe,
                            info: spec_optional_header(d, opt_off, wide),
                            dirs_off: (opt_off + opt_size) as u64,
                        },
                    )
                }
            }
        }
    }
}

/// Walks the MZ, PE and optional headers of `d`.
pub fn parse_pe(d: &Vec<u8>) -> (r: Result<PeParse, FormatError>)
    ensures
        r == spec_parse_pe(d@),
{
    let mz = match read_mz_header(d) {
        Ok(h) => h,
        Err(e) => { return Err(e) },
    };
    if !(mz.sig0 == 0x4d && mz.sig1 == 0x5a) {
        return Err(FormatError::NotAnExecutable);
    }
    let pe = match read_pe_header(d, mz.new_header as u64) {
        Ok(h) => h,
        Err(e) => { return Err(e) },
    };
    if !(pe.sig0 == 0x50 && pe.sig1 == 0x45 && pe.sig2 == 0 && pe.sig3 == 0) {
        return Err(FormatError::NotAPeFile);
    }
    if !(pe.machine == MACHINE_I386 || pe.machine == MACHINE_IA64 || pe.machine == MACHINE_AMD64) {
        return Err(FormatError::UnsupportedMachine);
    }
    let wide = pe.machine == MACHINE_IA64 || pe.machine == MACHINE_AMD64;
    let opt_off = mz.new_header as u64 + PE_HEADER_SIZE;
    let opt_size = if wide {
        OPT_HEADER_64_SIZE
    } else {
        OPT_HEADER_32_SIZE
    };
    let info = match read_optional_header(d, opt_off, wide) {
        Ok(h) => h,
        Err(e) => { return Err(e) },
    };
    Ok(PeParse { mz, pe, info, dirs_off: opt_off + opt_size })
}

/// The section table of `n` descriptors starting at file offset `off`.
pub open spec fn spec_section_table(d: Seq<u8>, off: int, n: nat) -> Seq<SectionHeader> {
    Seq::new(n, |i: int| spec_section_header(d, off + SECTION_HEADER_SIZE as int * i))
}

/// True when the debug directory's whole virtual range lies inside the
/// section's raw on-disk range, the containment check the locator uses.
pub open spec fn spec_section_maps(s: SectionHeader, dt: DataDirectory) -> bool {
    &&& s.vaddr <= dt.vaddr
    &&& dt.vaddr < s.vaddr + s.raw_data_size
    &&& s.vaddr <= dt.vaddr + dt.size - 1
    &&& dt.vaddr + dt.size - 1 < s.vaddr + s.raw_data_size
}

/// The file offset the first mapping section assigns to the debug
/// directory's virtual address, if any section maps it.
pub open spec fn spec_map_debug_dir(sections: Seq<SectionHeader>, dt: DataDirectory) -> Option<u64>
    decreases sections.len(),
{
    if sections.len() == 0 {
        None
    } else if spec_section_maps(sections[0], dt) {
        Some(((dt.vaddr - sections[0].vaddr + sections[0].pointer_to_raw_data)) as u64)
    } else {
        spec_map_debug_dir(sections.drop_first(), dt)
    }
}

/// What the locator yields on success: the optional-header info, the debug
/// data-directory entry, its resolved file offset, and the section table.
pub struct LocateResult {
    pub info: OptionalHeaderInfo,
    pub debug_dir: DataDirectory,
    pub debug_dir_file_offset: u64,
    pub sections: Vec<SectionHeader>,
}

/// The whole locator walk: headers, data-directory table (at least seven
/// entries, a non-empty debug entry), section table, and the mapping of
/// the debug directory's virtual address to a file offset.
pub open spec fn spec_locate(d: Seq<u8>) -> Result<
    (OptionalHeaderInfo, DataDirectory, u64),
    FormatError,
> {
    match spec_parse_pe(d) {
        Err(e) => Err(e),
        Ok(p) => {
            if !spec_in_bounds(
                d,
                p.dirs_off as int,
                p.info.num_tables as int * DATA_DIRECTORY_SIZE as int,
            ) {
                Err(FormatError::TruncatedRead)
            } else if p.info.num_tables < 7 {
                Err(FormatError::MissingDebugDirectory)
            } else {
                let dt = spec_data_directory(
                    d,
                    p.dirs_off as int + DEBUG_DIRECTORY_INDEX as int * DATA_DIRECTORY_SIZE as int,
                );
                if dt.vaddr == 0 || dt.size == 0 {
                    Err(FormatError::MissingDebugDirectory)
                } else {
                    let sec_off = p.mz.new_header as int + PE_HEADER_SIZE as int
                        + p.pe.optional_header_size as int;
                    if !spec_in_bounds(
                        d,
                        sec_off,
                        p.pe.num_sections as int * SECTION_HEADER_SIZE as int,
                    ) {
                        Err(FormatError::TruncatedRead)
                    } else {
                        match spec_map_debug_dir(
                            spec_section_table(d, sec_off, p.pe.num_sections as nat),
                            dt,
                        ) {
                            None => Err(FormatError::DebugDirectoryUnmapped),
                            Some(off) => Ok((p.info, dt, off)),
                        }
                    }
                }
            }
        },
    }
}

/// Skipping sections that do not map the debug directory does not change
/// the mapping result.
proof fn lemma_map_skip(sections: Seq<SectionHeader>, dt: DataDirectory, i: int)
    requires
        0 <= i <= sections.len(),
        forall|j: int| 0 <= j < i ==> !spec_section_maps(sections[j], dt),
    ensures
        spec_map_debug_dir(sections, dt) == spec_map_debug_dir(sections.skip(i), dt),
    decreases i,
{
    if i == 0 {
        assert(sections.skip(0) =~= sections);
    } else {
        lemma_map_skip(sections, dt, i - 1);
        let s = sections.skip(i - 1);
        assert(s.len() > 0);
        assert(s[0] == sections[i - 1]);
        assert(!spec_section_maps(s[0], dt));
        assert(s.drop_first() =~= sections.skip(i));
        assert(spec_map_debug_dir(s, dt) == spec_map_debug_dir(s.drop_first(), dt));
    }
}

/// Validates and walks the PE structure of `d`, resolving the debug
/// directory to a file offset.
#[verifier::loop_isolation(false)]
pub fn locate(d: &Vec<u8>) -> (r: Result<LocateResult, FormatError>)
    ensures
        r matches Ok(l) ==> {
            &&& spec_locate(d@) == Ok::<_, FormatError>(
                (l.info, l.debug_dir, l.debug_dir_file_offset),
            )
            &&& l.debug_dir_file_offset <= u32::MAX as u64 + u32::MAX as u64
            &&& spec_parse_pe(d@) matches Ok(p) && l.sections@ == spec_section_table(
                d@,
                p.mz.new_header as int + PE_HEADER_SIZE as int + p.pe.optional_header_size as int,
                p.pe.num_sections as nat,
            )
        },
        r matches Err(e) ==> spec_locate(d@) == Err::<
            (OptionalHeaderInfo, DataDirectory, u64),
            FormatError,
        >(e),
{
    let p = match parse_pe(d) {
        Ok(p) => p,
        Err(e) => { return Err(e) },
    };
    let nt: u64 = p.info.num_tables as u64;
    if !record_in_bounds(d, p.dirs_off, nt * DATA_DIRECTORY_SIZE) {
        return Err(FormatError::TruncatedRead);
    }
    if p.info.num_tables < 7 {
        return Err(FormatError::MissingDebugDirectory);
    }
    let dt = match read_data_directory(d, p.dirs_off + DEBUG_DIRECTORY_INDEX
        * DATA_DIRECTORY_SIZE) {
        Ok(x) => x,
        Err(e) => {
            proof {
                assert(false);
            }
            return Err(e);
        },
    };
    if dt.vaddr == 0 || dt.size == 0 {
        return Err(FormatError::MissingDebugDirectory);
    }
    let sec_off: u64 = p.mz.new_header as u64 + PE_HEADER_SIZE + p.pe.optional_header_size as u64;
    let ns: u64 = p.pe.num_sections as u64;
    if !record_in_bounds(d, sec_off, ns * SECTION_HEADER_SIZE) {
        return Err(FormatError::TruncatedRead);
    }
    let ghost stable = spec_section_table(d@, sec_off as int, p.pe.num_sections as nat);
    let mut sections: Vec<SectionHeader> = Vec::new();
    let mut i: u64 = 0;
    while i < ns
        invariant
            ns == p.pe.num_sections,
            i <= ns,
            d@.len() <= u64::MAX,
            sec_off + ns * SECTION_HEADER_SIZE <= d@.len(),
            stable == spec_section_table(d@, sec_off as int, p.pe.num_sections as nat),
            sections@ =~= stable.take(i as int),
        decreases ns - i,
    {
        proof {
            assert(i * SECTION_HEADER_SIZE + SECTION_HEADER_SIZE <= ns * SECTION_HEADER_SIZE)
                by (nonlinear_arith)
                requires
                    i < ns,
                    SECTION_HEADER_SIZE == 40,
            ;
        }
        let s = match read_section_header(d, sec_off + i * SECTION_HEADER_SIZE) {
            Ok(s) => s,
            Err(e) => {
                proof {
                    assert(false);
                }
                return Err(e);
            },
        };
        proof {
            assert(stable[i as int] == s);
            assert(stable.take(i as int).push(s) =~= stable.take(i as int + 1));
        }
        sections.push(s);
        i = i + 1;
    }
    proof {
        assert(sections@ =~= stable);
    }
    let n: usize = sections.len();
    let mut j: usize = 0;
    while j < n
        invariant
            n == sections@.len(),
            j <= n,
            sections@ == stable,
            forall|k: int| 0 <= k < j ==> !spec_section_maps(sections@[k], dt),
            dt.size >= 1,
        decreases n - j,
    {
        let s = sections[j];
        let s_lo: u64 = s.vaddr as u64;
        let s_hi: u64 = s.vaddr as u64 + s.raw_data_size as u64;
        let dt_lo: u64 = dt.vaddr as u64;
        let dt_hi: u64 = dt.vaddr as u64 + dt.size as u64 - 1;
        if s_lo <= dt_lo && dt_lo < s_hi && s_lo <= dt_hi && dt_hi < s_hi {
            let off: u64 = dt.vaddr as u64 - s.vaddr as u64 + s.pointer_to_raw_data as u64;
            proof {
                lemma_map_skip(stable, dt, j as int);
                assert(stable.skip(j as int)[0] == stable[j as int]);
                assert(spec_section_maps(stable[j as int], dt));
                assert(spec_map_debug_dir(stable.skip(j as int), dt) == Some(off));
                assert(spec_map_debug_dir(stable, dt) == Some(off));
                assert(spec_locate(d@) == Ok::<_, FormatError>((p.info, dt, off)));
            }
            return Ok(
                LocateResult {
                    info: p.info,
                    debug_dir: dt,
                    debug_dir_file_offset: off,
                    sections,
                },
            );
        }
        j = j + 1;
    }
    proof {
        lemma_map_skip(stable, dt, n as int);
        assert(stable.skip(n as int) =~= Seq::<SectionHeader>::empty());
    }
    Err(FormatError::DebugDirectoryUnmapped)
}

/// Decides whether `item` lies in the half-open range from `start` to
/// `end`.
pub fn contains(start: u32, end: u32, item: u32) -> (r: bool)
    ensures
        r == (start <= item && item < end),
{
    start <= item && item < end
}

} // verus!
