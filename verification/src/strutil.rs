//! Small string utilities shared by the identity renderer and the parsers:
//! appending single characters, splitting on a separator, and lexicographic
//! comparison.

use vstd::prelude::*;

verus! {

/// Relies on `alloc::string::String::push`: appends exactly the given
/// character to the end of the string.
#[verifier::external_body]
pub fn push_char(s: &mut String, c: char)
    ensures
        final(s)@ == old(s)@ + seq![c],
{
    s.push(c);
}

/// The index of the first occurrence of `c` in `s`, if any.
pub open spec fn spec_find_char(s: Seq<char>, c: char) -> Option<int>
    decreases s.len(),
{
    if s.len() == 0 {
        None
    } else if s[0] == c {
        Some(0)
    } else {
        match spec_find_char(s.drop_first(), c) {
            None => None,
            Some(j) => Some(j + 1),
        }
    }
}

/// A first occurrence, when there is one, is a position in the string.
pub proof fn lemma_find_char_in_range(s: Seq<char>, c: char)
    ensures
        spec_find_char(s, c) matches Some(j) ==> 0 <= j < s.len() && s[j] == c,
    decreases s.len(),
{
    if s.len() > 0 && s[0] != c {
        lemma_find_char_in_range(s.drop_first(), c);
    }
}

/// The fields of `s` when split on the separator `c`; splitting the empty
/// string yields one empty field, as `str::split` does.
pub open spec fn spec_split(s: Seq<char>, c: char) -> Seq<Seq<char>>
    decreases s.len(),
    via spec_split_decreases
{
    match spec_find_char(s, c) {
        None => seq![s],
        Some(j) => seq![s.subrange(0, j)] + spec_split(
            s.subrange(j + 1, s.len() as int),
            c,
        ),
    }
}

#[via_fn]
proof fn spec_split_decreases(s: Seq<char>, c: char) {
    lemma_find_char_in_range(s, c);
}

/// Splitting always yields at least one field.
pub proof fn lemma_split_nonempty(s: Seq<char>, c: char)
    ensures
        spec_split(s, c).len() >= 1,
{
    lemma_find_char_in_range(s, c);
}

/// A string with no occurrence of `c` has no first occurrence.
pub proof fn lemma_find_char_absent(s: Seq<char>, c: char)
    requires
        forall|i: int| 0 <= i < s.len() ==> s[i] != c,
    ensures
        spec_find_char(s, c) is None,
    decreases s.len(),
{
    if s.len() > 0 {
        lemma_find_char_absent(s.drop_first(), c);
    }
}

/// If `pre` is free of `c`, the first occurrence of `c` in
/// `pre + [c] + suf` is right after `pre`.
pub proof fn lemma_find_char_concat(pre: Seq<char>, suf: Seq<char>, c: char)
    requires
        forall|i: int| 0 <= i < pre.len() ==> pre[i] != c,
    ensures
        spec_find_char(pre + seq![c] + suf, c) == Some(pre.len() as int),
    decreases pre.len(),
{
    let s = pre + seq![c] + suf;
    if pre.len() == 0 {
        assert(s[0] == c);
    } else {
        lemma_find_char_concat(pre.drop_first(), suf, c);
        assert(s.drop_first() =~= pre.drop_first() + seq![c] + suf);
        assert(s[0] == pre[0]);
    }
}

/// Splitting `pre + [c] + suf` on `c` yields `pre` and then the fields of
/// `suf`, when `pre` is free of `c`.
pub proof fn lemma_split_concat(pre: Seq<char>, suf: Seq<char>, c: char)
    requires
        forall|i: int| 0 <= i < pre.len() ==> pre[i] != c,
    ensures
        spec_split(pre + seq![c] + suf, c) == seq![pre] + spec_split(suf, c),
{
    let s = pre + seq![c] + suf;
    lemma_find_char_concat(pre, suf, c);
    assert(s.subrange(0, pre.len() as int) =~= pre);
    assert(s.subrange(pre.len() as int + 1, s.len() as int) =~= suf);
}

/// Splitting a string free of `c` yields that one field.
pub proof fn lemma_split_whole(s: Seq<char>, c: char)
    requires
        forall|i: int| 0 <= i < s.len() ==> s[i] != c,
    ensures
        spec_split(s, c) == seq![s],
{
    lemma_find_char_absent(s, c);
}

/// Splits `s` into its fields around the separator `c`.
pub fn split_on(s: &str, c: char) -> (r: Vec<String>)
    ensures
        r@.map_values(|p: String| p@) == spec_split(s@, c),
{
    let n: usize = s.unicode_len();
    let mut pieces: Vec<String> = Vec::new();
    let mut cur: String = String::new();
    let mut i: usize = 0;
    proof {
        assert(cur@ + s@.skip(0) =~= s@);
        assert(pieces@.map_values(|p: String| p@) =~= Seq::<Seq<char>>::empty());
        assert(Seq::<Seq<char>>::empty() + spec_split(s@, c) =~= spec_split(s@, c));
    }
    while i < n
        invariant
            n == s@.len(),
            i <= n,
            forall|k: int| 0 <= k < cur@.len() ==> cur@[k] != c,
            spec_split(s@, c) == pieces@.map_values(|p: String| p@) + spec_split(
                cur@ + s@.skip(i as int),
                c,
            ),
        decreases n - i,
    {
        let ch = s.get_char(i);
        if ch == c {
            proof {
                lemma_split_concat(cur@, s@.skip(i + 1), c);
                assert(cur@ + s@.skip(i as int) =~= cur@ + seq![c] + s@.skip(i + 1));
                assert((pieces@.push(cur)).map_values(|p: String| p@) =~= pieces@.map_values(
                    |p: String| p@,
                ).push(cur@));
            }
            pieces.push(cur);
            cur = String::new();
        } else {
            proof {
                assert(cur@ + s@.skip(i as int) =~= (cur@ + seq![ch]) + s@.skip(i + 1));
            }
            push_char(&mut cur, ch);
        }
        i = i + 1;
    }
    proof {
        lemma_split_whole(cur@, c);
        assert(cur@ + s@.skip(n as int) =~= cur@);
        assert((pieces@.push(cur)).map_values(|p: String| p@) =~= pieces@.map_values(
            |p: String| p@,
        ).push(cur@));
    }
    pieces.push(cur);
    pieces
}

/// Relies on `core::str::from_utf8`: succeeds exactly on well-formed
/// UTF-8 input and decodes it to the corresponding characters.
#[verifier::external_body]
pub fn utf8_to_string(v: &Vec<u8>) -> (r: Option<String>)
    ensures
        r is Some <==> vstd::utf8::valid_utf8(v@),
        r matches Some(s) ==> s@ == vstd::utf8::decode_utf8(v@),
{
    match core::str::from_utf8(v.as_slice()) {
        Ok(s) => Some(s.to_string()),
        Err(_) => None,
    }
}

/// True for the two path separators PDB paths use.
pub open spec fn spec_is_sep(c: char) -> bool {
    c == '/' || c == '\\'
}

/// The index right after the last separator among the first `i`
/// characters of `s`; 0 when none occurs there.
pub open spec fn spec_file_name_start(s: Seq<char>, i: int) -> int
    decreases i,
{
    if i <= 0 {
        0
    } else if spec_is_sep(s[i - 1]) {
        i
    } else {
        spec_file_name_start(s, i - 1)
    }
}

/// The final path component of `s`: everything after the last separator.
pub open spec fn spec_file_name(s: Seq<char>) -> Seq<char> {
    s.subrange(spec_file_name_start(s, s.len() as int), s.len() as int)
}

/// Finds the index right after the last separator among the first `n`
/// characters of `path`.
#[verifier::loop_isolation(false)]
fn file_name_start(path: &str, n: usize) -> (r: usize)
    requires
        n <= path@.len(),
    ensures
        r == spec_file_name_start(path@, n as int),
        r <= n,
{
    let mut i: usize = n;
    while i > 0
        invariant
            i <= n,
            spec_file_name_start(path@, n as int) == spec_file_name_start(path@, i as int),
        decreases i,
    {
        let c = path.get_char(i - 1);
        if c == '/' || c == '\\' {
            return i;
        }
        i = i - 1;
    }
    0
}

/// The final path component of `path`, handling both separator
/// conventions; `None` when that component is empty.
#[verifier::loop_isolation(false)]
pub fn file_name_component(path: &str) -> (r: Option<String>)
    ensures
        r is Some <==> spec_file_name(path@).len() > 0,
        r matches Some(s) ==> s@ == spec_file_name(path@),
{
    let n: usize = path.unicode_len();
    let i: usize = file_name_start(path, n);
    if i == n {
        proof {
            assert(spec_file_name(path@) =~= Seq::<char>::empty());
        }
        None
    } else {
        let name = path.substring_char(i, n);
        Some(String::from_str(name))
    }
}

/// Strict lexicographic order on character sequences: a proper prefix is
/// smaller, otherwise the first differing character decides.
pub open spec fn lex_lt(a: Seq<char>, b: Seq<char>) -> bool
    decreases a.len(),
{
    if b.len() == 0 {
        false
    } else if a.len() == 0 {
        true
    } else if a[0] != b[0] {
        (a[0] as u32) < (b[0] as u32)
    } else {
        lex_lt(a.drop_first(), b.drop_first())
    }
}

/// Exactly one of `a < b`, `a == b`, `b < a` holds.
pub proof fn lemma_lex_trichotomy(a: Seq<char>, b: Seq<char>)
    ensures
        lex_lt(a, b) || lex_lt(b, a) || a =~= b,
        lex_lt(a, b) ==> !lex_lt(b, a) && !(a =~= b),
        lex_lt(b, a) ==> !lex_lt(a, b) && !(a =~= b),
    decreases a.len(),
{
    if a.len() > 0 && b.len() > 0 && a[0] != b[0] {
        vstd::utf8::char_u32_cast(a[0], a[0] as u32);
        vstd::utf8::char_u32_cast(b[0], b[0] as u32);
    }
    if a.len() > 0 && b.len() > 0 && a[0] == b[0] {
        lemma_lex_trichotomy(a.drop_first(), b.drop_first());
        if a.drop_first() =~= b.drop_first() {
            assert forall|i: int| 0 <= i < a.len() implies a[i] == b[i] by {
                if i > 0 {
                    assert(a[i] == a.drop_first()[i - 1]);
                    assert(b[i] == b.drop_first()[i - 1]);
                }
            }
            assert(a =~= b);
        }
        if a =~= b {
            assert(a.drop_first() =~= b.drop_first());
        }
    }
}

/// Lexicographic order is transitive.
pub proof fn lemma_lex_transitive(a: Seq<char>, b: Seq<char>, c: Seq<char>)
    requires
        lex_lt(a, b),
        lex_lt(b, c),
    ensures
        lex_lt(a, c),
    decreases a.len(),
{
    if a.len() > 0 && b.len() > 0 && c.len() > 0 {
        if a[0] == b[0] && b[0] == c[0] {
            lemma_lex_transitive(a.drop_first(), b.drop_first(), c.drop_first());
        }
    }
}

/// Decides `lex_lt(a@, b@)`.
pub fn str_lt(a: &str, b: &str) -> (r: bool)
    ensures
        r == lex_lt(a@, b@),
{
    let an: usize = a.unicode_len();
    let bn: usize = b.unicode_len();
    let mut i: usize = 0;
    proof {
        assert(a@.skip(0) =~= a@);
        assert(b@.skip(0) =~= b@);
    }
    loop
        invariant
            an == a@.len(),
            bn == b@.len(),
            i <= an,
            i <= bn,
            forall|k: int| 0 <= k < i ==> a@[k] == b@[k],
            lex_lt(a@, b@) == lex_lt(a@.skip(i as int), b@.skip(i as int)),
        decreases an - i,
    {
        if i >= an || i >= bn {
            return i < bn;
        }
        let ca = a.get_char(i);
        let cb = b.get_char(i);
        if ca != cb {
            return (ca as u32) < (cb as u32);
        }
        proof {
            assert(a@.skip(i as int).drop_first() =~= a@.skip(i + 1));
            assert(b@.skip(i as int).drop_first() =~= b@.skip(i + 1));
        }
        i = i + 1;
    }
}

} // verus!
