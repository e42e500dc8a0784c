//! Manifest builder: drives the extractor over a list of candidate file
//! images, collects the identities of the files that carry one (in input
//! order, silently dropping the rest), and renders the manifest text.
//! Also the traversal order of a directory tree, the filestore path
//! layout, and the sort-and-dedup step the download stage applies.

use vstd::prelude::*;

use crate::codeview::{spec_get_pdb, get_pdb};
use crate::hexfmt::{spec_hex_fixed, spec_hex_nopad, append_hex_fixed, append_hex_nopad};
use crate::pe::{spec_parse_pe, parse_pe};
use crate::strutil::{
    spec_file_name, file_name_component, push_char, lex_lt, str_lt, lemma_lex_trichotomy,
    lemma_lex_transitive,
};
use crate::FormatError;

verus! {

/// A directory tree as the manifest and filestore walks see it: leaves
/// carry full file paths, directories carry their entries in listing
/// order.
pub enum DirTree {
    File { path: String },
    Dir { entries: Vec<DirTree> },
}

/// The file paths of a tree in traversal order: a leaf contributes its
/// path, a directory the files of its entries in order.
pub open spec fn spec_files_of(t: DirTree) -> Seq<Seq<char>>
    decreases t, 0int,
{
    match t {
        DirTree::File { path } => seq![path@],
        DirTree::Dir { entries } => spec_files_of_list(entries@, 0),
    }
}

/// The file paths contributed by `ts[i..]`, in order.
pub open spec fn spec_files_of_list(ts: Seq<DirTree>, i: int) -> Seq<Seq<char>>
    decreases ts, ts.len() - i,
{
    if i < 0 || i >= ts.len() {
        Seq::empty()
    } else {
        spec_files_of(ts[i]) + spec_files_of_list(ts, i + 1)
    }
}

/// Flattens a directory tree into the list of its file paths, in
/// traversal order.
#[verifier::loop_isolation(false)]
pub fn recursive_listdir(t: &DirTree) -> (r: Vec<String>)
    ensures
        r@.map_values(|p: String| p@) == spec_files_of(*t),
    decreases *t, 0int,
{
    match t {
        DirTree::File { path } => {
            let mut out: Vec<String> = Vec::new();
            out.push(path.clone());
            proof {
                assert(out@.map_values(|p: String| p@) =~= seq![path@]);
            }
            out
        },
        DirTree::Dir { entries } => {
            let mut out: Vec<String> = Vec::new();
            let n = entries.len();
            let mut i: usize = 0;
            proof {
                assert(out@.map_values(|p: String| p@) =~= Seq::<Seq<char>>::empty());
            }
            while i < n
                invariant
                    i <= n,
                    out@.map_values(|p: String| p@) + spec_files_of_list(entries@, i as int)
                        == spec_files_of_list(entries@, 0),
                decreases n - i,
            {
                let mut sub = recursive_listdir(&entries[i]);
                proof {
                    assert((out@ + sub@).map_values(|p: String| p@) =~= out@.map_values(
                        |p: String| p@,
                    ) + sub@.map_values(|p: String| p@));
                }
                out.append(&mut sub);
                i = i + 1;
            }
            proof {
                assert(out@.map_values(|p: String| p@) + Seq::<Seq<char>>::empty()
                    =~= out@.map_values(|p: String| p@));
            }
            out
        },
    }
}

/// The manifest lines of a list of file images: for each image that
/// yields an identity, that identity line, in input order; images without
/// one contribute nothing.
pub open spec fn spec_manifest_lines(ds: Seq<Seq<u8>>) -> Seq<Seq<char>>
    decreases ds.len(),
{
    if ds.len() == 0 {
        Seq::empty()
    } else {
        spec_manifest_lines(ds.drop_last()) + match spec_get_pdb(ds.last()) {
            Ok(s) => seq![s],
            Err(_) => Seq::empty(),
        }
    }
}

/// How many of the images yield an identity.
pub open spec fn spec_count_with_identity(ds: Seq<Seq<u8>>) -> nat
    decreases ds.len(),
{
    if ds.len() == 0 {
        0
    } else {
        spec_count_with_identity(ds.drop_last()) + if spec_get_pdb(ds.last()) is Ok {
            1nat
        } else {
            0nat
        }
    }
}

/// A manifest holds exactly one line per image that carries a debug
/// identity.
pub proof fn lemma_manifest_line_count(ds: Seq<Seq<u8>>)
    ensures
        spec_manifest_lines(ds).len() == spec_count_with_identity(ds),
    decreases ds.len(),
{
    if ds.len() > 0 {
        lemma_manifest_line_count(ds.drop_last());
    }
}

/// Extracts identities from every image in order, keeping the successes
/// and silently dropping the images that carry none.
#[verifier::loop_isolation(false)]
pub fn build_manifest(files: &Vec<Vec<u8>>) -> (r: Vec<String>)
    ensures
        r@.map_values(|s: String| s@) == spec_manifest_lines(
            files@.map_values(|f: Vec<u8>| f@),
        ),
{
    let ghost ds = files@.map_values(|f: Vec<u8>| f@);
    let mut out: Vec<String> = Vec::new();
    let n = files.len();
    let mut i: usize = 0;
    proof {
        assert(ds.take(0) =~= Seq::<Seq<u8>>::empty());
        assert(out@.map_values(|s: String| s@) =~= Seq::<Seq<char>>::empty());
    }
    while i < n
        invariant
            i <= n,
            out@.map_values(|s: String| s@) == spec_manifest_lines(ds.take(i as int)),
        decreases n - i,
    {
        proof {
            assert(ds.take(i as int + 1).drop_last() =~= ds.take(i as int));
            assert(ds.take(i as int + 1).last() == files@[i as int]@);
        }
        match get_pdb(&files[i]) {
            Ok(line) => {
                proof {
                    assert(out@.push(line).map_values(|s: String| s@) =~= out@.map_values(
                        |s: String| s@,
                    ).push(line@));
                    assert(spec_manifest_lines(ds.take(i as int)).push(line@)
                        =~= spec_manifest_lines(ds.take(i as int + 1)));
                }
                out.push(line);
            },
            Err(_) => {
                proof {
                    assert(spec_manifest_lines(ds.take(i as int)) + Seq::<Seq<char>>::empty()
                        =~= spec_manifest_lines(ds.take(i as int)));
                }
            },
        }
        i = i + 1;
    }
    proof {
        assert(ds.take(n as int) =~= ds);
    }
    out
}

/// The manifest text: its lines joined by single newlines, with no
/// trailing newline.
pub open spec fn spec_join_lines(lines: Seq<Seq<char>>) -> Seq<char>
    decreases lines.len(),
{
    if lines.len() == 0 {
        Seq::empty()
    } else if lines.len() == 1 {
        lines[0]
    } else {
        spec_join_lines(lines.drop_last()) + seq!['\n'] + lines.last()
    }
}

/// Joins manifest lines with newlines, no trailing newline.
#[verifier::loop_isolation(false)]
pub fn join_lines(lines: &Vec<String>) -> (r: String)
    ensures
        r@ == spec_join_lines(lines@.map_values(|s: String| s@)),
{
    let ghost ls = lines@.map_values(|s: String| s@);
    let mut out = String::new();
    let n = lines.len();
    let mut i: usize = 0;
    proof {
        assert(out@ =~= spec_join_lines(ls.take(0)));
    }
    while i < n
        invariant
            i <= n,
            out@ == spec_join_lines(ls.take(i as int)),
        decreases n - i,
    {
        proof {
            assert(ls.take(i as int + 1).drop_last() =~= ls.take(i as int));
            assert(ls.take(i as int + 1).last() == lines@[i as int]@);
        }
        if i > 0 {
            push_char(&mut out, '\n');
        }
        out.append(lines[i].as_str());
        proof {
            if i == 0 {
                assert(out@ =~= ls.take(1)[0]);
            } else {
                assert(out@ =~= spec_join_lines(ls.take(i as int)) + seq!['\n'] + ls.take(
                    i as int + 1,
                ).last());
            }
        }
        i = i + 1;
    }
    proof {
        assert(ls.take(n as int) =~= ls);
    }
    out
}

/// The filestore path of an executable:
/// `filestore/<name>/<timestamp as 8 lowercase hex digits><image size as
/// unpadded lowercase hex>/<name>`, keyed by the PE header's timestamp
/// and the optional header's image size.
pub open spec fn spec_file_store_path(fname: Seq<char>, d: Seq<u8>) -> Result<
    Seq<char>,
    FormatError,
> {
    match spec_parse_pe(d) {
        Err(e) => Err(e),
        Ok(p) => {
            let name = spec_file_name(fname);
            if name.len() == 0 {
                Err(FormatError::UnparsablePath)
            } else {
                Ok(
                    seq!['f', 'i', 'l', 'e', 's', 't', 'o', 'r', 'e', '/'] + name + seq!['/']
                        + spec_hex_fixed(p.pe.timestamp as int, 8, false) + spec_hex_nopad(
                        p.info.size_of_image as int,
                    ) + seq!['/'] + name,
                )
            }
        },
    }
}

/// Computes the filestore path of the executable image `d` listed under
/// the path `filename`.
pub fn get_file_path(filename: &str, d: &Vec<u8>) -> (r: Result<String, FormatError>)
    ensures
        r matches Ok(s) ==> spec_file_store_path(filename@, d@) == Ok::<_, FormatError>(s@),
        r matches Err(e) ==> spec_file_store_path(filename@, d@) == Err::<Seq<char>, _>(e),
{
    let p = match parse_pe(d) {
        Ok(p) => p,
        Err(e) => { return Err(e) },
    };
    let name = match file_name_component(filename) {
        Some(s) => s,
        None => { return Err(FormatError::UnparsablePath) },
    };
    let mut out = String::from_str("filestore/");
    proof {
        reveal_strlit("filestore/");
        assert(out@ =~= seq!['f', 'i', 'l', 'e', 's', 't', 'o', 'r', 'e', '/']);
    }
    out.append(name.as_str());
    push_char(&mut out, '/');
    append_hex_fixed(&mut out, p.pe.timestamp as u64, 8, false);
    append_hex_nopad(&mut out, p.info.size_of_image as u64);
    push_char(&mut out, '/');
    out.append(name.as_str());
    proof {
        assert(out@ =~= spec_file_store_path(filename@, d@)->Ok_0);
    }
    Ok(out)
}

/// The character sequences of a list of strings.
pub open spec fn spec_views(s: Seq<String>) -> Seq<Seq<char>> {
    s.map_values(|x: String| x@)
}

/// Strictly ascending in lexicographic order, hence free of duplicates.
pub open spec fn spec_strictly_sorted(s: Seq<Seq<char>>) -> bool {
    forall|i: int, j: int| 0 <= i < j < s.len() ==> lex_lt(s[i], s[j])
}

/// Inserting an element anywhere adds exactly it to the element set.
proof fn lemma_insert_to_set(s: Seq<Seq<char>>, x: Seq<char>, p: int)
    requires
        0 <= p <= s.len(),
    ensures
        s.insert(p, x).to_set() == s.to_set().insert(x),
{
    s.insert_ensures(p, x);
    let t = s.insert(p, x);
    assert forall|y: Seq<char>| #[trigger] t.to_set().contains(y) implies s.to_set().insert(
        x,
    ).contains(y) by {
        let i = choose|i: int| 0 <= i < t.len() && t[i] == y;
        if i < p {
            assert(t[i] == s[i]);
            assert(s.contains(y));
        } else if i == p {
            assert(y == x);
        } else {
            assert(t[(i - 1) + 1] == s[i - 1]);
            assert(s.contains(y));
        }
    }
    assert forall|y: Seq<char>| #[trigger] s.to_set().insert(x).contains(y) implies t.to_set(
    ).contains(y) by {
        if y == x {
            assert(t[p] == x);
            assert(t.contains(y));
        } else {
            let i = choose|i: int| 0 <= i < s.len() && s[i] == y;
            if i < p {
                assert(t[i] == s[i]);
            } else {
                assert(t[i + 1] == s[i]);
            }
            assert(t.contains(y));
        }
    }
    assert(t.to_set() =~= s.to_set().insert(x));
}

/// Inserting at a position that respects the order keeps the sequence
/// strictly sorted.
proof fn lemma_sorted_insert(s: Seq<Seq<char>>, x: Seq<char>, p: int)
    requires
        0 <= p <= s.len(),
        spec_strictly_sorted(s),
        forall|m: int| 0 <= m < p ==> lex_lt(s[m], x),
        p < s.len() ==> lex_lt(x, s[p]),
    ensures
        spec_strictly_sorted(s.insert(p, x)),
{
    s.insert_ensures(p, x);
    let t = s.insert(p, x);
    assert forall|i: int, j: int| 0 <= i < j < t.len() implies lex_lt(t[i], t[j]) by {
        if j < p {
            assert(t[i] == s[i] && t[j] == s[j]);
        } else if i < p && j == p {
            assert(t[i] == s[i]);
        } else if i < p && j > p {
            assert(t[i] == s[i] && t[(j - 1) + 1] == s[j - 1]);
            if i < j - 1 {
            } else {
                assert(i == j - 1 && p <= j - 1 && i < p);
                assert(false);
            }
        } else if i == p && j > p {
            assert(t[(j - 1) + 1] == s[j - 1]);
            if j - 1 == p {
            } else {
                lemma_lex_transitive(x, s[p], s[j - 1]);
            }
        } else {
            assert(t[(i - 1) + 1] == s[i - 1] && t[(j - 1) + 1] == s[j - 1]);
        }
    }
}

/// Finds the first position whose element is not below `line`.
#[verifier::loop_isolation(false)]
fn insert_pos(out: &Vec<String>, line: &str) -> (p: usize)
    ensures
        p <= out@.len(),
        forall|q: int| 0 <= q < p ==> lex_lt(out@[q]@, line@),
        p < out@.len() ==> !lex_lt(out@[p as int]@, line@),
{
    let n = out.len();
    let mut p: usize = 0;
    while p < n
        invariant
            p <= n,
            forall|q: int| 0 <= q < p ==> lex_lt(out@[q]@, line@),
        decreases n - p,
    {
        if !str_lt(out[p].as_str(), line) {
            return p;
        }
        p = p + 1;
    }
    p
}

/// Sorts the manifest lines and drops duplicates: the result is strictly
/// ascending and holds exactly the set of input lines.
#[verifier::loop_isolation(false)]
pub fn sort_and_dedup(lines: &Vec<String>) -> (r: Vec<String>)
    ensures
        spec_strictly_sorted(spec_views(r@)),
        spec_views(r@).to_set() == spec_views(lines@).to_set(),
{
    let mut out: Vec<String> = Vec::new();
    let n = lines.len();
    let mut i: usize = 0;
    proof {
        assert(spec_views(out@) =~= Seq::<Seq<char>>::empty());
        assert(spec_views(lines@.take(0)) =~= Seq::<Seq<char>>::empty());
    }
    while i < n
        invariant
            i <= n,
            spec_strictly_sorted(spec_views(out@)),
            spec_views(out@).to_set() == spec_views(lines@.take(i as int)).to_set(),
        decreases n - i,
    {
        let ghost old_out = out@;
        let ghost old_views = spec_views(out@);
        let line = &lines[i];
        let p = insert_pos(&out, line.as_str());
        proof {
            assert(spec_views(lines@.take(i as int + 1)) =~= spec_views(
                lines@.take(i as int),
            ).push(line@));
            assert(spec_views(lines@.take(i as int)).push(line@) =~= spec_views(
                lines@.take(i as int),
            ).insert(spec_views(lines@.take(i as int)).len() as int, line@));
            lemma_insert_to_set(
                spec_views(lines@.take(i as int)),
                line@,
                spec_views(lines@.take(i as int)).len() as int,
            );
        }
        let mut duplicate = false;
        if p < out.len() {
            if out[p].eq(line) {
                duplicate = true;
            }
        }
        if duplicate {
            proof {
                assert(old_views[p as int] == line@);
                assert(old_views.contains(line@));
                assert(old_views.to_set().contains(line@));
                assert(old_views.to_set().insert(line@) =~= old_views.to_set());
            }
        } else {
            proof {
                if p < old_out.len() {
                    lemma_lex_trichotomy(line@, old_views[p as int]);
                }
                lemma_sorted_insert(old_views, line@, p as int);
                lemma_insert_to_set(old_views, line@, p as int);
            }
            out.insert(p, line.clone());
            proof {
                old_out.insert_ensures(p as int, *line);
                old_views.insert_ensures(p as int, line@);
                assert forall|k: int| 0 <= k < out@.len() implies spec_views(out@)[k]
                    == old_views.insert(p as int, line@)[k] by {
                    if k < p {
                        assert(out@[k] == old_out[k]);
                    } else if k == p {
                        assert(out@[k]@ == line@);
                    } else {
                        assert(out@[(k - 1) + 1] == old_out[k - 1]);
                    }
                }
                assert(spec_views(out@) =~= old_views.insert(p as int, line@));
            }
        }
        i = i + 1;
    }
    proof {
        assert(lines@.take(n as int) =~= lines@);
    }
    out
}

/// The sorted, deduplicated form of a manifest is determined by the set
/// of its lines alone: two strictly sorted sequences over the same set
/// are the same sequence, whatever order the lines arrived in.
pub proof fn lemma_sorted_dedup_deterministic(a: Seq<Seq<char>>, b: Seq<Seq<char>>)
    requires
        spec_strictly_sorted(a),
        spec_strictly_sorted(b),
        a.to_set() == b.to_set(),
    ensures
        a == b,
    decreases a.len(),
{
    if a.len() == 0 {
        if b.len() > 0 {
            assert(b.contains(b[0]));
            assert(b.to_set().contains(b[0]));
            assert(a.contains(b[0]));
            assert(false);
        }
        assert(a =~= b);
    } else if b.len() == 0 {
        assert(a.contains(a[0]));
        assert(a.to_set().contains(a[0]));
        assert(b.contains(a[0]));
        assert(false);
    } else {
        assert(a.contains(a[0]));
        assert(a.to_set().contains(a[0]));
        assert(b.contains(a[0]));
        let jb = choose|j: int| 0 <= j < b.len() && b[j] == a[0];
        assert(b.contains(b[0]));
        assert(b.to_set().contains(b[0]));
        assert(a.contains(b[0]));
        let ja = choose|j: int| 0 <= j < a.len() && a[j] == b[0];
        if jb > 0 {
            assert(lex_lt(b[0], b[jb]));
            if ja > 0 {
                assert(lex_lt(a[0], a[ja]));
                lemma_lex_trichotomy(a[0], b[0]);
                assert(false);
            } else {
                lemma_lex_trichotomy(a[0], b[0]);
                assert(false);
            }
        }
        assert(a[0] == b[0]);
        let at = a.drop_first();
        let bt = b.drop_first();
        assert forall|i: int, j: int| 0 <= i < j < at.len() implies lex_lt(at[i], at[j]) by {
            assert(at[i] == a[i + 1] && at[j] == a[j + 1]);
        }
        assert forall|i: int, j: int| 0 <= i < j < bt.len() implies lex_lt(bt[i], bt[j]) by {
            assert(bt[i] == b[i + 1] && bt[j] == b[j + 1]);
        }
        assert forall|y: Seq<char>| #[trigger] at.to_set().contains(y) implies bt.to_set(
        ).contains(y) by {
            let i = choose|i: int| 0 <= i < at.len() && at[i] == y;
            assert(a[i + 1] == y);
            assert(lex_lt(a[0], y));
            assert(a.contains(y));
            assert(a.to_set().contains(y));
            assert(b.contains(y));
            let j = choose|j: int| 0 <= j < b.len() && b[j] == y;
            lemma_lex_trichotomy(b[0], y);
            assert(j != 0);
            assert(bt[j - 1] == y);
            assert(bt.contains(y));
        }
        assert forall|y: Seq<char>| #[trigger] bt.to_set().contains(y) implies at.to_set(
        ).contains(y) by {
            let i = choose|i: int| 0 <= i < bt.len() && bt[i] == y;
            assert(b[i + 1] == y);
            assert(lex_lt(b[0], y));
            assert(b.contains(y));
            assert(b.to_set().contains(y));
            assert(a.contains(y));
            let j = choose|j: int| 0 <= j < a.len() && a[j] == y;
            lemma_lex_trichotomy(a[0], y);
            assert(j != 0);
            assert(at[j - 1] == y);
            assert(at.contains(y));
        }
        assert(at.to_set() =~= bt.to_set());
        lemma_sorted_dedup_deterministic(at, bt);
        assert forall|k: int| 0 <= k < a.len() implies a[k] == b[k] by {
            if k > 0 {
                assert(at[k - 1] == bt[k - 1]);
            }
        }
        assert(a =~= b);
    }
}

} // verus!
