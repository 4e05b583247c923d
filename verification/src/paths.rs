//! Identifier and output-name derivation from path strings.
//!
//! Tree files are recognized by their extension, identifiers are file
//! names with every extension stripped, and output files are named by
//! suffixing the stem of the output prefix.  The functions here follow
//! the conventions of `std::path` file names: the base name is the part
//! after the last `/` (ignoring trailing `/`), the extension is the
//! part after the last `.` of the base name unless that `.` is its
//! first character, and `.` and `..` are not file names.

use vstd::prelude::*;

use crate::errors::PipelineError;

verus! {

/// `s` with trailing `/` characters removed.
pub open spec fn trim_slashes(s: Seq<char>) -> Seq<char>
    decreases s.len(),
{
    if s.len() > 0 && s[s.len() - 1] == '/' {
        trim_slashes(s.drop_last())
    } else {
        s
    }
}

/// The index just after the last `/` of `s`, or 0 if there is none.
pub open spec fn base_start(s: Seq<char>) -> int
    decreases s.len(),
{
    if s.len() == 0 {
        0
    } else if s[s.len() - 1] == '/' {
        s.len() as int
    } else {
        base_start(s.drop_last())
    }
}

proof fn lemma_base_start_bounds(s: Seq<char>)
    ensures
        0 <= base_start(s) <= s.len(),
    decreases s.len(),
{
    if s.len() != 0 && s[s.len() - 1] != '/' {
        lemma_base_start_bounds(s.drop_last());
    }
}

/// The base (file) name of path `s`: what follows the last `/`, with
/// trailing `/` ignored.
pub open spec fn base_of(s: Seq<char>) -> Seq<char> {
    let t = trim_slashes(s);
    t.subrange(base_start(t), t.len() as int)
}

/// The directory part of path `s`: everything up to and including the
/// last `/`, with trailing `/` ignored.
pub open spec fn dir_of(s: Seq<char>) -> Seq<char> {
    let t = trim_slashes(s);
    t.subrange(0, base_start(t))
}

/// The index of the first `.` of `s` at or after `from`, or `s.len()`
/// if there is none.
pub open spec fn first_dot_at_or_after(s: Seq<char>, from: int) -> int
    decreases s.len() - from,
{
    if from < 0 || from >= s.len() {
        s.len() as int
    } else if s[from] == '.' {
        from
    } else {
        first_dot_at_or_after(s, from + 1)
    }
}

proof fn lemma_first_dot_bounds(s: Seq<char>, from: int)
    requires
        0 <= from <= s.len(),
    ensures
        from <= first_dot_at_or_after(s, from) <= s.len(),
    decreases s.len() - from,
{
    if from < s.len() && s[from] != '.' {
        lemma_first_dot_bounds(s, from + 1);
    }
}

/// The index of the last `.` of `s`, or -1 if there is none.
pub open spec fn last_dot(s: Seq<char>) -> int
    decreases s.len(),
{
    if s.len() == 0 {
        -1
    } else if s[s.len() - 1] == '.' {
        s.len() - 1
    } else {
        last_dot(s.drop_last())
    }
}

proof fn lemma_last_dot_bounds(s: Seq<char>)
    ensures
        -1 <= last_dot(s) < s.len(),
    decreases s.len(),
{
    if s.len() != 0 && s[s.len() - 1] != '.' {
        lemma_last_dot_bounds(s.drop_last());
    }
}

/// The extension of base name `b`: what follows its last `.`, unless
/// that `.` is absent or is the first character of `b`.
pub open spec fn ext_of(b: Seq<char>) -> Option<Seq<char>> {
    let k = last_dot(b);
    if k > 0 {
        Some(b.subrange(k + 1, b.len() as int))
    } else {
        None
    }
}

/// Whether `b` is a usable file name.
pub open spec fn valid_file_name(b: Seq<char>) -> bool {
    b.len() != 0 && b != "."@ && b != ".."@
}

/// The identifier of the file at path `s`: its base name with every
/// extension stripped, or nothing if `s` has no usable file name.
pub open spec fn file_id_spec(s: Seq<char>) -> Option<Seq<char>> {
    let b = base_of(s);
    if valid_file_name(b) {
        Some(b.subrange(0, first_dot_at_or_after(b, 0)))
    } else {
        None
    }
}

/// Whether the file at path `s` has a newick extension.
pub open spec fn is_newick_spec(s: Seq<char>) -> bool {
    let e = ext_of(base_of(s));
    e == Some("nwk"@) || e == Some("newick"@)
}

/// `s` with a `.gz` extension appended unless it already has one.
pub open spec fn add_gz_spec(s: Seq<char>) -> Seq<char> {
    if ext_of(base_of(s)) == Some("gz"@) {
        s
    } else {
        s + ".gz"@
    }
}

/// The base name `b` truncated at its first `.` after the first
/// character: the fixpoint of extension stripping.
pub open spec fn stem_fix(b: Seq<char>) -> Seq<char> {
    b.subrange(0, first_dot_at_or_after(b, 1))
}

/// `name` with its extension replaced by (or suffixed with) `ext`.
pub open spec fn set_ext(name: Seq<char>, ext: Seq<char>) -> Seq<char> {
    let k = last_dot(name);
    if k > 0 {
        name.subrange(0, k) + "."@ + ext
    } else {
        name + "."@ + ext
    }
}

/// The output path derived from prefix `s`: the stem of its file name,
/// `_` and `suffix` appended, with extension `ext`; or nothing if `s`
/// has no usable file name.
pub open spec fn suffixed_spec(s: Seq<char>, suffix: Seq<char>, ext: Seq<char>) -> Option<
    Seq<char>,
> {
    let b = base_of(s);
    if valid_file_name(b) {
        Some(dir_of(s) + set_ext(stem_fix(b) + "_"@ + suffix, ext))
    } else {
        None
    }
}

/// Character-wise string equality.
pub(crate) fn str_eq(a: &str, b: &str) -> (r: bool)
    ensures
        r == (a@ == b@),
{
    let n = a.unicode_len();
    if n != b.unicode_len() {
        return false;
    }
    let mut i: usize = 0;
    while i < n
        invariant
            i <= n,
            n == a@.len(),
            n == b@.len(),
            forall|j: int| 0 <= j < i ==> a@[j] == b@[j],
        decreases n - i,
    {
        if a.get_char(i) != b.get_char(i) {
            return false;
        }
        i += 1;
    }
    proof {
        assert(a@ =~= b@);
    }
    true
}

/// The bounds of the base name inside `path`: the result `(bs, tl)`
/// delimits the base name `path[bs..tl]`, with `path[..tl]` the path
/// without its trailing slashes.
fn base_bounds(path: &str) -> (r: (usize, usize))
    ensures
        r.0 <= r.1 <= path@.len(),
        trim_slashes(path@) == path@.take(r.1 as int),
        r.0 == base_start(trim_slashes(path@)),
{
    let n = path.unicode_len();
    proof {
        assert(path@.take(n as int) =~= path@);
    }
    let mut tl: usize = n;
    while tl > 0 && path.get_char(tl - 1) == '/'
        invariant
            tl <= n,
            n == path@.len(),
            trim_slashes(path@) == trim_slashes(path@.take(tl as int)),
        decreases tl,
    {
        proof {
            assert(path@.take(tl as int).drop_last() =~= path@.take(tl - 1));
        }
        tl = tl - 1;
    }
    proof {
        if tl > 0 {
            assert(path@.take(tl as int)[tl - 1] == path@[tl - 1]);
        }
        assert(trim_slashes(path@.take(tl as int)) == path@.take(tl as int));
    }
    let mut bs: usize = 0;
    let mut j: usize = 0;
    while j < tl
        invariant
            j <= tl <= n,
            n == path@.len(),
            bs == base_start(path@.take(j as int)),
            bs <= j,
        decreases tl - j,
    {
        proof {
            assert(path@.take(j + 1).drop_last() =~= path@.take(j as int));
            assert(path@.take(j + 1)[j as int] == path@[j as int]);
        }
        if path.get_char(j) == '/' {
            bs = j + 1;
        }
        j += 1;
    }
    (bs, tl)
}

/// The index of the first `.` of `b` at or after `from`, or the length
/// of `b` if there is none.
fn find_first_dot(b: &str, from: usize) -> (r: usize)
    requires
        from <= b@.len(),
    ensures
        r == first_dot_at_or_after(b@, from as int),
        from <= r <= b@.len(),
{
    let n = b.unicode_len();
    let mut i: usize = from;
    while i < n && b.get_char(i) != '.'
        invariant
            from <= i <= n,
            n == b@.len(),
            first_dot_at_or_after(b@, from as int) == first_dot_at_or_after(b@, i as int),
        decreases n - i,
    {
        i += 1;
    }
    i
}

/// The index of the last `.` of `b`, if any.
fn find_last_dot(b: &str) -> (r: Option<usize>)
    ensures
        match r {
            Some(k) => k as int == last_dot(b@) && k < b@.len(),
            None => last_dot(b@) == -1,
        },
{
    let n = b.unicode_len();
    proof {
        assert(b@.take(n as int) =~= b@);
    }
    let mut i: usize = n;
    while i > 0
        invariant
            i <= n,
            n == b@.len(),
            last_dot(b@) == last_dot(b@.take(i as int)),
        decreases i,
    {
        proof {
            assert(b@.take(i as int).drop_last() =~= b@.take(i - 1));
            assert(b@.take(i as int)[i - 1] == b@[i - 1]);
        }
        if b.get_char(i - 1) == '.' {
            return Some(i - 1);
        }
        i = i - 1;
    }
    None
}

/// Whether the file at `path` has a `.nwk` or `.newick` extension.
pub fn is_newick(path: &str) -> (r: bool)
    ensures
        r == is_newick_spec(path@),
{
    let (bs, tl) = base_bounds(path);
    let b = path.substring_char(bs, tl);
    proof {
        assert(b@ =~= base_of(path@));
    }
    if let Some(k) = find_last_dot(b) {
        if k > 0 {
            let e = b.substring_char(k + 1, b.unicode_len());
            proof {
                assert(e@ =~= ext_of(base_of(path@)).unwrap());
            }
            return str_eq(e, "nwk") || str_eq(e, "newick");
        }
    }
    false
}

/// Extract the identifier of the file at `path`: its base name with
/// every extension stripped.  Fails with a parse fault when `path` has
/// no usable file name.
pub fn get_file_id(path: &str) -> (r: Result<String, PipelineError>)
    ensures
        r is Ok <==> file_id_spec(path@) is Some,
        r matches Ok(id) ==> Some(id@) == file_id_spec(path@),
        r matches Err(e) ==> e is Parse,
{
    let (bs, tl) = base_bounds(path);
    let b = path.substring_char(bs, tl);
    proof {
        assert(b@ =~= base_of(path@));
    }
    if b.unicode_len() == 0 || str_eq(b, ".") || str_eq(b, "..") {
        let mut m = String::from_str("could not extract an identifier from: ");
        m.append(path);
        Err(PipelineError::Parse(m))
    } else {
        let k = find_first_dot(b, 0);
        let id = b.substring_char(0, k);
        proof {
            assert(id@ =~= file_id_spec(path@).unwrap());
        }
        Ok(String::from_str(id))
    }
}

/// Append a `.gz` extension to `path` unless it already has one.
pub fn add_gz_ext(path: String) -> (r: String)
    ensures
        r@ == add_gz_spec(path@),
{
    let (bs, tl) = base_bounds(path.as_str());
    let b = path.as_str().substring_char(bs, tl);
    proof {
        assert(b@ =~= base_of(path@));
    }
    let mut has_gz = false;
    if let Some(k) = find_last_dot(b) {
        if k > 0 {
            let e = b.substring_char(k + 1, b.unicode_len());
            proof {
                assert(e@ =~= ext_of(base_of(path@)).unwrap());
            }
            has_gz = str_eq(e, "gz");
        }
    }
    if has_gz {
        path
    } else {
        path.concat(".gz")
    }
}

/// Derive the output path for one sink from the output prefix: the
/// stem of the prefix's file name, `_` and `suffix` appended, with
/// extension `ext`, and a `.gz` extension on top when `zip` is set.
/// Fails with a configuration fault when the prefix has no usable file
/// name.
pub fn get_suffixed_filenme(path: &str, suffix: &str, ext: &str, zip: bool) -> (r: Result<
    String,
    PipelineError,
>)
    ensures
        r is Ok <==> suffixed_spec(path@, suffix@, ext@) is Some,
        r matches Ok(out) ==> out@ == if zip {
            add_gz_spec(suffixed_spec(path@, suffix@, ext@).unwrap())
        } else {
            suffixed_spec(path@, suffix@, ext@).unwrap()
        },
        r matches Err(e) ==> e is Config,
{
    let (bs, tl) = base_bounds(path);
    let b = path.substring_char(bs, tl);
    proof {
        assert(b@ =~= base_of(path@));
    }
    if b.unicode_len() == 0 || str_eq(b, ".") || str_eq(b, "..") {
        let mut m = String::from_str("could not deduce a file prefix from: ");
        m.append(path);
        return Err(PipelineError::Config(m));
    }
    let k = find_first_dot(b, 1);
    let stem = b.substring_char(0, k);
    proof {
        assert(stem@ =~= stem_fix(base_of(path@)));
    }
    let mut name = String::from_str(stem);
    name.append("_");
    name.append(suffix);
    proof {
        assert(name@ =~= stem_fix(base_of(path@)) + "_"@ + suffix@);
    }
    let mut out = String::from_str(path.substring_char(0, bs));
    proof {
        assert(out@ =~= dir_of(path@));
        lemma_last_dot_bounds(name@);
    }
    let nm_len = name.as_str().unicode_len();
    let mut cut = nm_len;
    if let Some(k2) = find_last_dot(name.as_str()) {
        if k2 > 0 {
            cut = k2;
        }
    }
    out.append(name.as_str().substring_char(0, cut));
    out.append(".");
    out.append(ext);
    proof {
        assert(out@ =~= dir_of(path@) + set_ext(name@, ext@));
    }
    if zip {
        Ok(add_gz_ext(out))
    } else {
        Ok(out)
    }
}

} // verus!
