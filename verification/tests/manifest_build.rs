use pdblister::fetch::parse_manifest_line;
use pdblister::manifest::{
    build_manifest, join_lines, get_file_path, recursive_listdir, sort_and_dedup, DirTree,
};
use pdblister::FormatError;

fn put_u16(d: &mut Vec<u8>, off: usize, v: u16) {
    d[off] = (v & 0xff) as u8;
    d[off + 1] = (v >> 8) as u8;
}

fn put_u32(d: &mut Vec<u8>, off: usize, v: u32) {
    d[off] = (v & 0xff) as u8;
    d[off + 1] = ((v >> 8) & 0xff) as u8;
    d[off + 2] = ((v >> 16) & 0xff) as u8;
    d[off + 3] = ((v >> 24) & 0xff) as u8;
}

/// A minimal PE32 image with one CodeView record naming `path`.
fn synthetic_pe(path: &[u8], age: u32) -> Vec<u8> {
    let mut d = vec![0u8; 0x600 + path.len()];
    d[0] = b'M';
    d[1] = b'Z';
    put_u32(&mut d, 60, 64);
    d[64] = b'P';
    d[65] = b'E';
    put_u16(&mut d, 68, 0x014c);
    put_u16(&mut d, 70, 1);
    put_u32(&mut d, 72, 0x1234ABCD);
    put_u16(&mut d, 84, 96 + 128);
    put_u32(&mut d, 88 + 56, 0x7000);
    put_u32(&mut d, 88 + 92, 16);
    put_u32(&mut d, 184 + 48, 0x1000);
    put_u32(&mut d, 184 + 52, 28);
    put_u32(&mut d, 312 + 12, 0x1000);
    put_u32(&mut d, 312 + 16, 0x200);
    put_u32(&mut d, 312 + 20, 0x400);
    put_u32(&mut d, 0x400 + 12, 2);
    put_u32(&mut d, 0x400 + 16, 24 + path.len() as u32);
    put_u32(&mut d, 0x400 + 24, 0x500);
    d[0x500] = b'R';
    d[0x501] = b'S';
    d[0x502] = b'D';
    d[0x503] = b'S';
    put_u32(&mut d, 0x504, 0x01234567);
    put_u16(&mut d, 0x508, 0x89AB);
    put_u16(&mut d, 0x50A, 0xCDEF);
    let tail = [0x01u8, 0x23, 0x45, 0x67, 0x89, 0xAB, 0xCD, 0xEF];
    for (i, b) in tail.iter().enumerate() {
        d[0x50C + i] = *b;
    }
    put_u32(&mut d, 0x514, age);
    for (i, b) in path.iter().enumerate() {
        d[0x518 + i] = *b;
    }
    d
}

#[test]
fn manifest_round_trip() {
    let files = vec![
        synthetic_pe(b"alpha.pdb\0", 1),
        vec![0u8; 200], // no MZ signature: contributes nothing
        synthetic_pe(b"beta.pdb\0", 2),
    ];
    let lines = build_manifest(&files);
    assert_eq!(lines.len(), 2);
    let e0 = parse_manifest_line(&lines[0]).unwrap();
    assert_eq!(e0.name, "alpha.pdb");
    assert_eq!(e0.id, "0123456789ABCDEF0123456789ABCDEF1");
    assert_eq!(e0.trailer, "1");
    let e1 = parse_manifest_line(&lines[1]).unwrap();
    assert_eq!(e1.name, "beta.pdb");
    assert_eq!(e1.id, "0123456789ABCDEF0123456789ABCDEF2");
}

#[test]
fn failed_files_contribute_nothing() {
    let files = vec![vec![0u8; 10], vec![], vec![b'M', b'Z']];
    let lines = build_manifest(&files);
    assert_eq!(lines.len(), 0);
}

#[test]
fn join_lines_has_no_trailing_newline() {
    let lines = vec![String::from("a"), String::from("b"), String::from("c")];
    assert_eq!(join_lines(&lines), "a\nb\nc");
    let one = vec![String::from("only")];
    assert_eq!(join_lines(&one), "only");
    let none: Vec<String> = vec![];
    assert_eq!(join_lines(&none), "");
}

#[test]
fn file_store_path_layout() {
    let d = synthetic_pe(b"x.pdb\0", 1);
    let got = get_file_path("C:\\sys\\drivers\\thing.sys", &d).unwrap();
    assert_eq!(got, "filestore/thing.sys/1234abcd7000/thing.sys");
}

#[test]
fn file_store_path_needs_file_name() {
    let d = synthetic_pe(b"x.pdb\0", 1);
    assert_eq!(
        get_file_path("C:\\sys\\drivers\\", &d).unwrap_err(),
        FormatError::UnparsablePath
    );
}

#[test]
fn file_store_path_needs_executable() {
    let d = vec![0u8; 128];
    assert_eq!(
        get_file_path("thing.sys", &d).unwrap_err(),
        FormatError::NotAnExecutable
    );
}

#[test]
fn listdir_keeps_traversal_order() {
    let tree = DirTree::Dir {
        entries: vec![
            DirTree::File { path: String::from("/r/a.dll") },
            DirTree::Dir {
                entries: vec![
                    DirTree::File { path: String::from("/r/sub/b.dll") },
                    DirTree::File { path: String::from("/r/sub/c.exe") },
                ],
            },
            DirTree::File { path: String::from("/r/d.sys") },
        ],
    };
    let files = recursive_listdir(&tree);
    assert_eq!(files, vec!["/r/a.dll", "/r/sub/b.dll", "/r/sub/c.exe", "/r/d.sys"]);
}

#[test]
fn listdir_of_empty_dir_is_empty() {
    let tree = DirTree::Dir { entries: vec![] };
    assert_eq!(recursive_listdir(&tree).len(), 0);
}

#[test]
fn sort_and_dedup_is_order_insensitive() {
    let a = vec![
        String::from("b.pdb,2,1"),
        String::from("a.pdb,1,1"),
        String::from("b.pdb,2,1"),
        String::from("c.pdb,3,1"),
    ];
    let b = vec![
        String::from("c.pdb,3,1"),
        String::from("b.pdb,2,1"),
        String::from("a.pdb,1,1"),
        String::from("a.pdb,1,1"),
    ];
    let ra = sort_and_dedup(&a);
    let rb = sort_and_dedup(&b);
    assert_eq!(ra, vec!["a.pdb,1,1", "b.pdb,2,1", "c.pdb,3,1"]);
    assert_eq!(ra, rb);
}

#[test]
fn sort_and_dedup_of_unique_input_keeps_all() {
    let a = vec![String::from("z"), String::from("y"), String::from("x")];
    assert_eq!(sort_and_dedup(&a), vec!["x", "y", "z"]);
}
