//! Debug identity extractor: walks the debug-directory entries to the
//! first CodeView entry, decodes the RSDS GUID/age/path record, and
//! renders the `symchk`-compatible identity line
//! `<name>,<GUID uppercase hex><age lowercase hex>,1`.

use vstd::prelude::*;

use crate::hexfmt::{spec_hex_fixed, spec_hex_nopad, append_hex_fixed, append_hex_nopad};
use crate::pe::{spec_locate, locate};
use crate::reader::{
    spec_in_bounds, spec_debug_directory_entry, spec_codeview_record, read_debug_directory_entry,
    read_codeview_record, read_bytes, CodeViewRecord, DebugDirectoryEntry,
    DEBUG_DIRECTORY_SIZE, CODEVIEW_HEADER_SIZE,
};
use crate::strutil::{spec_file_name, file_name_component, utf8_to_string, push_char};
use crate::FormatError;

verus! {

/// The debug-directory type tag of CodeView entries.
pub const DEBUG_TYPE_CODEVIEW: u32 = 2;

/// The GUID and age of a CodeView record rendered the way `symchk`
/// renders them: eleven fixed-width uppercase hex fields for the GUID,
/// then the age as unpadded lowercase hex.
pub open spec fn spec_guid_age(cv: CodeViewRecord) -> Seq<char> {
    spec_hex_fixed(cv.guid_a as int, 8, true) + spec_hex_fixed(cv.guid_b as int, 4, true)
        + spec_hex_fixed(cv.guid_c as int, 4, true) + spec_hex_fixed(cv.guid_d0 as int, 2, true)
        + spec_hex_fixed(cv.guid_d1 as int, 2, true) + spec_hex_fixed(cv.guid_d2 as int, 2, true)
        + spec_hex_fixed(cv.guid_d3 as int, 2, true) + spec_hex_fixed(cv.guid_d4 as int, 2, true)
        + spec_hex_fixed(cv.guid_d5 as int, 2, true) + spec_hex_fixed(cv.guid_d6 as int, 2, true)
        + spec_hex_fixed(cv.guid_d7 as int, 2, true) + spec_hex_nopad(cv.age as int)
}

/// A whole manifest identity line: name, GUID and age, and the literal
/// trailer field `1`.
pub open spec fn spec_identity(name: Seq<char>, cv: CodeViewRecord) -> Seq<char> {
    name + seq![','] + spec_guid_age(cv) + seq![','] + seq!['1']
}

/// The index of the first NUL byte at or after `i`, if any.
pub open spec fn spec_find_nul_from(s: Seq<u8>, i: int) -> Option<int>
    decreases s.len() - i,
{
    if i < 0 || i >= s.len() {
        None
    } else if s[i] == 0 {
        Some(i)
    } else {
        spec_find_nul_from(s, i + 1)
    }
}

/// The identity produced from the CodeView trailing path bytes: the bytes
/// before the first NUL must decode as UTF-8, and the decoded path must
/// carry a non-empty final component, which names the PDB.
pub open spec fn spec_identity_from_path(bytes: Seq<u8>, cv: CodeViewRecord) -> Result<
    Seq<char>,
    FormatError,
> {
    match spec_find_nul_from(bytes, 0) {
        None => Err(FormatError::MissingNulTerminator),
        Some(n) => {
            let pre = bytes.subrange(0, n);
            if !vstd::utf8::valid_utf8(pre) {
                Err(FormatError::InvalidPathEncoding)
            } else {
                let path = vstd::utf8::decode_utf8(pre);
                let name = spec_file_name(path);
                if name.len() == 0 {
                    Err(FormatError::UnparsablePath)
                } else {
                    Ok(spec_identity(name, cv))
                }
            }
        },
    }
}

/// What one CodeView debug-directory entry yields: its record must fit in
/// the file, carry the RSDS magic, declare at least the fixed header's
/// worth of data, and its trailing path must fit and parse.
pub open spec fn spec_extract_codeview(d: Seq<u8>, e: DebugDirectoryEntry) -> Result<
    Seq<char>,
    FormatError,
> {
    if !spec_in_bounds(d, e.pointer_to_raw_data as int, CODEVIEW_HEADER_SIZE as int) {
        Err(FormatError::TruncatedRead)
    } else {
        let cv = spec_codeview_record(d, e.pointer_to_raw_data as int);
        if !(cv.sig0 == 0x52 && cv.sig1 == 0x53 && cv.sig2 == 0x44 && cv.sig3 == 0x53) {
            Err(FormatError::InvalidCodeViewSignature)
        } else if e.size_of_data < CODEVIEW_HEADER_SIZE {
            Err(FormatError::MalformedDebugTable)
        } else {
            let strlen = e.size_of_data as int - CODEVIEW_HEADER_SIZE as int;
            let start = e.pointer_to_raw_data as int + CODEVIEW_HEADER_SIZE as int;
            if !spec_in_bounds(d, start, strlen) {
                Err(FormatError::TruncatedRead)
            } else {
                spec_identity_from_path(d.subrange(start, start + strlen), cv)
            }
        }
    }
}

/// The scan over `remaining` debug-directory entries starting at file
/// offset `off`: the first CodeView entry decides the outcome, entries of
/// other types are skipped, and running out of entries means no CodeView
/// entry exists.
pub open spec fn spec_scan_debug_entries(d: Seq<u8>, off: int, remaining: nat) -> Result<
    Seq<char>,
    FormatError,
> decreases remaining,
{
    if remaining == 0 {
        Err(FormatError::NoCodeViewEntry)
    } else if !spec_in_bounds(d, off, DEBUG_DIRECTORY_SIZE as int) {
        Err(FormatError::TruncatedRead)
    } else {
        let e = spec_debug_directory_entry(d, off);
        if e.typ == DEBUG_TYPE_CODEVIEW {
            spec_extract_codeview(d, e)
        } else {
            spec_scan_debug_entries(d, off + DEBUG_DIRECTORY_SIZE as int, (remaining - 1) as nat)
        }
    }
}

/// The whole extraction pipeline over a file image: locate the debug
/// directory, demand a table that is a non-zero exact multiple of the
/// entry size, and scan its entries.
pub open spec fn spec_get_pdb(d: Seq<u8>) -> Result<Seq<char>, FormatError> {
    match spec_locate(d) {
        Err(e) => Err(e),
        Ok((info, dt, off)) => {
            if dt.size % DEBUG_DIRECTORY_SIZE as u32 != 0 || dt.size / DEBUG_DIRECTORY_SIZE as u32
                == 0 {
                Err(FormatError::MalformedDebugTable)
            } else {
                spec_scan_debug_entries(d, off as int, (dt.size / DEBUG_DIRECTORY_SIZE as u32) as nat)
            }
        },
    }
}

/// The debug-directory entry at index `j` of the table at file offset
/// `off`.
pub open spec fn spec_entry_at(d: Seq<u8>, off: int, j: int) -> DebugDirectoryEntry {
    spec_debug_directory_entry(d, off + j * DEBUG_DIRECTORY_SIZE as int)
}

/// True when the entry at index `j` of the table at `off` lies inside
/// `d`.
pub open spec fn spec_entry_in_bounds(d: Seq<u8>, off: int, j: int) -> bool {
    spec_in_bounds(d, off + j * DEBUG_DIRECTORY_SIZE as int, DEBUG_DIRECTORY_SIZE as int)
}

/// First CodeView wins, not first entry: however many entries of other
/// types precede it, the scan resolves the first entry whose type is
/// CodeView, and that entry alone decides the outcome.
pub proof fn lemma_first_codeview_wins(d: Seq<u8>, off: int, n: nat, k: int)
    requires
        0 <= k < n,
        forall|j: int|
            0 <= j < k ==> #[trigger] spec_entry_in_bounds(d, off, j) && spec_entry_at(
                d,
                off,
                j,
            ).typ != DEBUG_TYPE_CODEVIEW,
        spec_entry_in_bounds(d, off, k),
        spec_entry_at(d, off, k).typ == DEBUG_TYPE_CODEVIEW,
    ensures
        spec_scan_debug_entries(d, off, n) == spec_extract_codeview(d, spec_entry_at(d, off, k)),
    decreases k,
{
    if k == 0 {
        assert(off + 0 * DEBUG_DIRECTORY_SIZE as int == off);
    } else {
        assert(spec_entry_in_bounds(d, off, 0) && spec_entry_at(d, off, 0).typ
            != DEBUG_TYPE_CODEVIEW);
        assert(off + 0 * DEBUG_DIRECTORY_SIZE as int == off);
        let off2 = off + DEBUG_DIRECTORY_SIZE as int;
        assert forall|j: int| 0 <= j < k - 1 implies #[trigger] spec_entry_in_bounds(d, off2, j)
            && spec_entry_at(d, off2, j).typ != DEBUG_TYPE_CODEVIEW by {
            assert(off2 + j * DEBUG_DIRECTORY_SIZE as int == off + (j + 1)
                * DEBUG_DIRECTORY_SIZE as int);
            assert(spec_entry_in_bounds(d, off, j + 1) && spec_entry_at(d, off, j + 1).typ
                != DEBUG_TYPE_CODEVIEW);
        }
        assert(off2 + (k - 1) * DEBUG_DIRECTORY_SIZE as int == off + k
            * DEBUG_DIRECTORY_SIZE as int);
        assert(spec_entry_in_bounds(d, off2, k - 1));
        assert(spec_entry_at(d, off2, k - 1).typ == DEBUG_TYPE_CODEVIEW);
        lemma_first_codeview_wins(d, off2, (n - 1) as nat, k - 1);
        assert(spec_scan_debug_entries(d, off, n) == spec_scan_debug_entries(
            d,
            off2,
            (n - 1) as nat,
        ));
    }
}

/// Renders the identity line for a file name and CodeView record.
pub fn render_identity(name: &str, cv: &CodeViewRecord) -> (r: String)
    ensures
        r@ == spec_identity(name@, *cv),
{
    let mut out = String::from_str(name);
    push_char(&mut out, ',');
    append_hex_fixed(&mut out, cv.guid_a as u64, 8, true);
    append_hex_fixed(&mut out, cv.guid_b as u64, 4, true);
    append_hex_fixed(&mut out, cv.guid_c as u64, 4, true);
    append_hex_fixed(&mut out, cv.guid_d0 as u64, 2, true);
    append_hex_fixed(&mut out, cv.guid_d1 as u64, 2, true);
    append_hex_fixed(&mut out, cv.guid_d2 as u64, 2, true);
    append_hex_fixed(&mut out, cv.guid_d3 as u64, 2, true);
    append_hex_fixed(&mut out, cv.guid_d4 as u64, 2, true);
    append_hex_fixed(&mut out, cv.guid_d5 as u64, 2, true);
    append_hex_fixed(&mut out, cv.guid_d6 as u64, 2, true);
    append_hex_fixed(&mut out, cv.guid_d7 as u64, 2, true);
    append_hex_nopad(&mut out, cv.age as u64);
    push_char(&mut out, ',');
    push_char(&mut out, '1');
    proof {
        assert(out@ =~= spec_identity(name@, *cv));
    }
    out
}

/// Finds the first NUL byte in `v`.
#[verifier::loop_isolation(false)]
fn find_nul(v: &Vec<u8>) -> (r: Option<usize>)
    ensures
        r matches Some(i) ==> spec_find_nul_from(v@, 0) == Some(i as int) && i < v@.len(),
        r is None ==> spec_find_nul_from(v@, 0) is None,
{
    let n = v.len();
    let mut i: usize = 0;
    while i < n
        invariant
            i <= n,
            spec_find_nul_from(v@, 0) == spec_find_nul_from(v@, i as int),
        decreases n - i,
    {
        if v[i] == 0 {
            return Some(i);
        }
        i = i + 1;
    }
    None
}

/// Decodes the CodeView record named by debug-directory entry `e` and
/// renders its identity line.
fn extract_codeview(d: &Vec<u8>, e: &DebugDirectoryEntry) -> (r: Result<String, FormatError>)
    ensures
        r matches Ok(s) ==> spec_extract_codeview(d@, *e) == Ok::<_, FormatError>(s@),
        r matches Err(err) ==> spec_extract_codeview(d@, *e) == Err::<Seq<char>, _>(err),
{
    let cv = match read_codeview_record(d, e.pointer_to_raw_data as u64) {
        Ok(c) => c,
        Err(err) => { return Err(err) },
    };
    if !(cv.sig0 == 0x52 && cv.sig1 == 0x53 && cv.sig2 == 0x44 && cv.sig3 == 0x53) {
        return Err(FormatError::InvalidCodeViewSignature);
    }
    if e.size_of_data < CODEVIEW_HEADER_SIZE as u32 {
        return Err(FormatError::MalformedDebugTable);
    }
    let strlen: u64 = e.size_of_data as u64 - CODEVIEW_HEADER_SIZE;
    let start: u64 = e.pointer_to_raw_data as u64 + CODEVIEW_HEADER_SIZE;
    let path_bytes = match read_bytes(d, start, strlen) {
        Ok(v) => v,
        Err(err) => { return Err(err) },
    };
    let nul = match find_nul(&path_bytes) {
        Some(i) => i,
        None => { return Err(FormatError::MissingNulTerminator) },
    };
    let pre = match read_bytes(&path_bytes, 0, nul as u64) {
        Ok(v) => v,
        Err(err) => {
            proof {
                assert(false);
            }
            return Err(err);
        },
    };
    let path = match utf8_to_string(&pre) {
        Some(s) => s,
        None => { return Err(FormatError::InvalidPathEncoding) },
    };
    let name = match file_name_component(path.as_str()) {
        Some(s) => s,
        None => { return Err(FormatError::UnparsablePath) },
    };
    Ok(render_identity(name.as_str(), &cv))
}

/// Scans `entry_count` debug-directory entries at file offset
/// `debug_dir_file_offset` and extracts the identity of the first
/// CodeView entry.
#[verifier::loop_isolation(false)]
pub fn extract(d: &Vec<u8>, debug_dir_file_offset: u64, entry_count: u32) -> (r: Result<
    String,
    FormatError,
>)
    requires
        debug_dir_file_offset + entry_count as int * DEBUG_DIRECTORY_SIZE as int <= u64::MAX,
    ensures
        r matches Ok(s) ==> spec_scan_debug_entries(
            d@,
            debug_dir_file_offset as int,
            entry_count as nat,
        ) == Ok::<_, FormatError>(s@),
        r matches Err(err) ==> spec_scan_debug_entries(
            d@,
            debug_dir_file_offset as int,
            entry_count as nat,
        ) == Err::<Seq<char>, _>(err),
{
    let mut i: u32 = 0;
    while i < entry_count
        invariant
            i <= entry_count,
            spec_scan_debug_entries(d@, debug_dir_file_offset as int, entry_count as nat)
                == spec_scan_debug_entries(
                d@,
                debug_dir_file_offset as int + i as int * DEBUG_DIRECTORY_SIZE as int,
                (entry_count - i) as nat,
            ),
        decreases entry_count - i,
    {
        proof {
            assert(i as int * DEBUG_DIRECTORY_SIZE as int <= entry_count as int
                * DEBUG_DIRECTORY_SIZE as int) by (nonlinear_arith)
                requires
                    i < entry_count,
                    DEBUG_DIRECTORY_SIZE == 28,
            ;
        }
        let off: u64 = debug_dir_file_offset + i as u64 * DEBUG_DIRECTORY_SIZE;
        let e = match read_debug_directory_entry(d, off) {
            Ok(e) => e,
            Err(err) => { return Err(err) },
        };
        if e.typ == DEBUG_TYPE_CODEVIEW {
            return extract_codeview(d, &e);
        }
        proof {
            assert(debug_dir_file_offset as int + i as int * DEBUG_DIRECTORY_SIZE as int
                + DEBUG_DIRECTORY_SIZE as int == debug_dir_file_offset as int + (i + 1) as int
                * DEBUG_DIRECTORY_SIZE as int) by (nonlinear_arith);
        }
        i = i + 1;
    }
    Err(FormatError::NoCodeViewEntry)
}

/// Parses the PE image in `d` and extracts the `symchk` identity line of
/// the PDB it references, exactly as `spec_get_pdb` lays the walk out.
pub fn get_pdb(d: &Vec<u8>) -> (r: Result<String, FormatError>)
    ensures
        r matches Ok(s) ==> spec_get_pdb(d@) == Ok::<_, FormatError>(s@),
        r matches Err(err) ==> spec_get_pdb(d@) == Err::<Seq<char>, _>(err),
{
    let loc = match locate(d) {
        Ok(l) => l,
        Err(err) => { return Err(err) },
    };
    let dt = loc.debug_dir;
    let ents: u32 = dt.size / DEBUG_DIRECTORY_SIZE as u32;
    if dt.size % DEBUG_DIRECTORY_SIZE as u32 != 0 || ents == 0 {
        return Err(FormatError::MalformedDebugTable);
    }
    proof {
        assert(ents as int * DEBUG_DIRECTORY_SIZE as int <= u32::MAX as int) by (nonlinear_arith)
            requires
                ents == dt.size / 28,
                DEBUG_DIRECTORY_SIZE == 28,
        ;
    }
    extract(d, loc.debug_dir_file_offset, ents)
}

} // verus!
