use pdblister::codeview::{extract, get_pdb, render_identity};
use pdblister::pe::{contains, locate, parse_pe};
use pdblister::reader::CodeViewRecord;
use pdblister::FormatError;

fn put_u16(d: &mut Vec<u8>, off: usize, v: u16) {
    d[off] = (v & 0xff) as u8;
    d[off + 1] = (v >> 8) as u8;
}

fn put_u32(d: &mut Vec<u8>, off: usize, v: u32) {
    d[off] = (v & 0xff) as u8;
    d[off + 1] = ((v >> 8) & 0xff) as u8;
    d[off + 2] = ((v >> 16) & 0xff) as u8;
    d[off + 3] = ((v >> 24) & 0xff) as u8;
}

/// Builds a minimal PE32 image whose single debug-directory entry points
/// at a CodeView record with the given GUID, age and path.
fn synthetic_pe32(path: &[u8], age: u32) -> Vec<u8> {
    let mut d = vec![0u8; 0x600 + path.len()];
    // MZ header
    d[0] = b'M';
    d[1] = b'Z';
    put_u32(&mut d, 60, 64); // new_header
    // PE header at 64
    d[64] = b'P';
    d[65] = b'E';
    put_u16(&mut d, 68, 0x014c); // machine: x86
    put_u16(&mut d, 70, 1); // one section
    put_u32(&mut d, 72, 0xDEADBEEF); // timestamp
    put_u16(&mut d, 84, 96 + 128); // optional header size incl. 16 dirs
    // optional header (32-bit) at 88
    put_u32(&mut d, 88 + 56, 0x5000); // size_of_image
    put_u32(&mut d, 88 + 92, 16); // num_tables
    // data directories at 184; debug directory is entry 6
    put_u32(&mut d, 184 + 48, 0x1000); // vaddr
    put_u32(&mut d, 184 + 52, 28); // size: one entry
    // section table at 64 + 24 + 224 = 312
    put_u32(&mut d, 312 + 12, 0x1000); // vaddr
    put_u32(&mut d, 312 + 16, 0x200); // raw_data_size
    put_u32(&mut d, 312 + 20, 0x400); // pointer_to_raw_data
    // debug directory entry at mapped offset 0x400
    put_u32(&mut d, 0x400 + 12, 2); // type: CodeView
    put_u32(&mut d, 0x400 + 16, 24 + path.len() as u32); // size_of_data
    put_u32(&mut d, 0x400 + 24, 0x500); // pointer_to_raw_data
    // CodeView record at 0x500
    d[0x500] = b'R';
    d[0x501] = b'S';
    d[0x502] = b'D';
    d[0x503] = b'S';
    put_u32(&mut d, 0x504, 0x01234567); // guid_a
    put_u16(&mut d, 0x508, 0x89AB); // guid_b
    put_u16(&mut d, 0x50A, 0xCDEF); // guid_c
    let tail = [0x01u8, 0x23, 0x45, 0x67, 0x89, 0xAB, 0xCD, 0xEF];
    for (i, b) in tail.iter().enumerate() {
        d[0x50C + i] = *b;
    }
    put_u32(&mut d, 0x514, age);
    for (i, b) in path.iter().enumerate() {
        d[0x518 + i] = *b;
    }
    d
}

/// Builds the PE32+ variant of the same image.
fn synthetic_pe64(path: &[u8], age: u32) -> Vec<u8> {
    let mut d = synthetic_pe32(path, age);
    put_u16(&mut d, 68, 0x8664); // machine: x64
    put_u16(&mut d, 84, 112 + 128); // optional header size incl. 16 dirs
    put_u32(&mut d, 88 + 92, 0); // old num_tables slot now unused
    put_u32(&mut d, 88 + 108, 16); // num_tables in the 64-bit layout
    // data dirs follow the 112-byte optional header at 200
    put_u32(&mut d, 200 + 48, 0x1000);
    put_u32(&mut d, 200 + 52, 28);
    // section table at 64 + 24 + 240 = 328
    put_u32(&mut d, 328 + 12, 0x1000);
    put_u32(&mut d, 328 + 16, 0x200);
    put_u32(&mut d, 328 + 20, 0x400);
    d
}

#[test]
fn extracts_pe32_identity() {
    let d = synthetic_pe32(b"C:\\build\\foo.pdb\0", 0x15);
    let got = get_pdb(&d).unwrap();
    assert_eq!(got, "foo.pdb,0123456789ABCDEF0123456789ABCDEF15,1");
}

#[test]
fn extracts_pe64_identity() {
    let d = synthetic_pe64(b"C:\\build\\foo.pdb\0", 0x15);
    let got = get_pdb(&d).unwrap();
    assert_eq!(got, "foo.pdb,0123456789ABCDEF0123456789ABCDEF15,1");
}

#[test]
fn forward_slash_path_component() {
    let d = synthetic_pe32(b"/home/build/bar.pdb\0", 1);
    let got = get_pdb(&d).unwrap();
    assert_eq!(got, "bar.pdb,0123456789ABCDEF0123456789ABCDEF1,1");
}

#[test]
fn age_zero_renders_single_zero() {
    let d = synthetic_pe32(b"foo.pdb\0", 0);
    let got = get_pdb(&d).unwrap();
    assert_eq!(got, "foo.pdb,0123456789ABCDEF0123456789ABCDEF0,1");
}

#[test]
fn missing_mz_signature() {
    let mut d = synthetic_pe32(b"foo.pdb\0", 1);
    d[0] = b'X';
    assert_eq!(get_pdb(&d).unwrap_err(), FormatError::NotAnExecutable);
}

#[test]
fn missing_pe_signature() {
    let mut d = synthetic_pe32(b"foo.pdb\0", 1);
    d[64] = b'Q';
    assert_eq!(get_pdb(&d).unwrap_err(), FormatError::NotAPeFile);
}

#[test]
fn truncated_file() {
    let d = vec![b'M', b'Z', 0, 0];
    assert_eq!(get_pdb(&d).unwrap_err(), FormatError::TruncatedRead);
}

#[test]
fn unsupported_machine() {
    let mut d = synthetic_pe32(b"foo.pdb\0", 1);
    put_u16(&mut d, 68, 0x01c4); // ARM
    assert_eq!(get_pdb(&d).unwrap_err(), FormatError::UnsupportedMachine);
}

#[test]
fn too_few_data_directories() {
    let mut d = synthetic_pe32(b"foo.pdb\0", 1);
    put_u32(&mut d, 88 + 92, 6);
    assert_eq!(get_pdb(&d).unwrap_err(), FormatError::MissingDebugDirectory);
}

#[test]
fn empty_debug_directory_entry() {
    let mut d = synthetic_pe32(b"foo.pdb\0", 1);
    put_u32(&mut d, 184 + 48, 0);
    put_u32(&mut d, 184 + 52, 0);
    assert_eq!(get_pdb(&d).unwrap_err(), FormatError::MissingDebugDirectory);
}

#[test]
fn debug_directory_unmapped() {
    let mut d = synthetic_pe32(b"foo.pdb\0", 1);
    put_u32(&mut d, 312 + 12, 0x4000); // section elsewhere
    assert_eq!(get_pdb(&d).unwrap_err(), FormatError::DebugDirectoryUnmapped);
}

#[test]
fn debug_table_size_not_a_multiple() {
    let mut d = synthetic_pe32(b"foo.pdb\0", 1);
    put_u32(&mut d, 184 + 52, 30);
    assert_eq!(get_pdb(&d).unwrap_err(), FormatError::MalformedDebugTable);
}

#[test]
fn no_codeview_entry() {
    let mut d = synthetic_pe32(b"foo.pdb\0", 1);
    put_u32(&mut d, 0x400 + 12, 1); // COFF debug type, not CodeView
    assert_eq!(get_pdb(&d).unwrap_err(), FormatError::NoCodeViewEntry);
}

#[test]
fn bad_codeview_magic() {
    let mut d = synthetic_pe32(b"foo.pdb\0", 1);
    d[0x500] = b'N';
    d[0x501] = b'B';
    d[0x502] = b'1';
    d[0x503] = b'0';
    assert_eq!(get_pdb(&d).unwrap_err(), FormatError::InvalidCodeViewSignature);
}

#[test]
fn missing_nul_terminator() {
    let d = synthetic_pe32(b"foo.pdb", 1); // no NUL in the declared bytes
    assert_eq!(get_pdb(&d).unwrap_err(), FormatError::MissingNulTerminator);
}

#[test]
fn invalid_path_encoding() {
    let d = synthetic_pe32(&[0xFF, 0xFE, 0x41, 0x00], 1);
    assert_eq!(get_pdb(&d).unwrap_err(), FormatError::InvalidPathEncoding);
}

#[test]
fn path_without_file_name() {
    let d = synthetic_pe32(b"C:\\build\\\0", 1);
    assert_eq!(get_pdb(&d).unwrap_err(), FormatError::UnparsablePath);
}

#[test]
fn first_codeview_wins_over_earlier_entry() {
    let path = b"foo.pdb\0";
    let mut d = synthetic_pe32(path, 7);
    // grow the debug table to two entries; the first is not CodeView
    put_u32(&mut d, 184 + 52, 56);
    put_u32(&mut d, 0x400 + 12, 1); // first entry: COFF debug info
    put_u32(&mut d, 0x400 + 16, 0);
    put_u32(&mut d, 0x400 + 24, 0);
    put_u32(&mut d, 0x400 + 28 + 12, 2); // second entry: CodeView
    put_u32(&mut d, 0x400 + 28 + 16, 24 + path.len() as u32);
    put_u32(&mut d, 0x400 + 28 + 24, 0x500);
    let got = get_pdb(&d).unwrap();
    assert_eq!(got, "foo.pdb,0123456789ABCDEF0123456789ABCDEF7,1");
}

#[test]
fn extract_reads_named_table_directly() {
    let d = synthetic_pe32(b"foo.pdb\0", 2);
    let loc = locate(&d).unwrap();
    assert_eq!(loc.debug_dir_file_offset, 0x400);
    assert_eq!(loc.debug_dir.size, 28);
    assert_eq!(loc.info.num_tables, 16);
    assert_eq!(loc.sections.len(), 1);
    let got = extract(&d, loc.debug_dir_file_offset, 1).unwrap();
    assert_eq!(got, "foo.pdb,0123456789ABCDEF0123456789ABCDEF2,1");
}

#[test]
fn parse_pe_reports_headers() {
    let d = synthetic_pe32(b"foo.pdb\0", 1);
    let p = parse_pe(&d).unwrap();
    assert_eq!(p.mz.new_header, 64);
    assert_eq!(p.pe.machine, 0x014c);
    assert_eq!(p.pe.timestamp, 0xDEADBEEF);
    assert_eq!(p.info.size_of_image, 0x5000);
    assert_eq!(p.info.num_tables, 16);
    assert_eq!(p.dirs_off, 64 + 24 + 96);
}

#[test]
fn contains_is_half_open() {
    assert!(contains(1, 5, 1));
    assert!(contains(1, 5, 4));
    assert!(!contains(1, 5, 5));
    assert!(!contains(1, 5, 0));
    assert!(!contains(5, 5, 5));
}

#[test]
fn render_identity_formats_fields() {
    let cv = CodeViewRecord {
        sig0: b'R',
        sig1: b'S',
        sig2: b'D',
        sig3: b'S',
        guid_a: 0,
        guid_b: 0,
        guid_c: 0,
        guid_d0: 0,
        guid_d1: 0,
        guid_d2: 0,
        guid_d3: 0,
        guid_d4: 0,
        guid_d5: 0,
        guid_d6: 0,
        guid_d7: 0,
        age: 0,
    };
    assert_eq!(render_identity("n.pdb", &cv), "n.pdb,000000000000000000000000000000000,1");
    let cv2 = CodeViewRecord { guid_a: 0xFFFFFFFF, age: 255, ..cv };
    assert_eq!(render_identity("n.pdb", &cv2), "n.pdb,FFFFFFFF000000000000000000000000ff,1");
}
