//! Paths as sequences of characters separated by `/`, and the translation of
//! a source file's path into its place in the output tree.
use vstd::prelude::*;
use crate::error::CliError;
use vstd::string::*;
use crate::text::{chars_of, string_of, push_chars};

verus! {

/// Index of the last occurrence of `c` in `s`, or -1 when there is none.
pub open spec fn last_index_of(s: Seq<char>, c: char) -> int
    decreases s.len(),
{
    if s.len() == 0 {
        -1
    } else if s.last() == c {
        s.len() - 1
    } else {
        last_index_of(s.drop_last(), c)
    }
}

/// Where the path relative to `root` starts inside a path under `root`.
pub open spec fn rel_start(root: Seq<char>) -> int {
    if root.len() == 0 || root.last() == '/' {
        root.len() as int
    } else {
        root.len() + 1int
    }
}

/// `p` lies strictly below the directory `root`: it starts with `root` and a
/// separator, and holds more than separators after them.
pub open spec fn is_under(p: Seq<char>, root: Seq<char>) -> bool {
    &&& rel_start(root) < p.len()
    &&& p.subrange(0, root.len() as int) == root
    &&& (rel_start(root) == root.len() || p[root.len() as int] == '/')
    &&& trim_trailing_slashes(relative(p, root)).len() > 0
}

/// The part of `p` below `root`.
pub open spec fn relative(p: Seq<char>, root: Seq<char>) -> Seq<char> {
    p.subrange(rel_start(root), p.len() as int)
}

/// The extension of the target language, dot included.
pub open spec fn rs_ext() -> Seq<char> {
    seq!['.', 'r', 's']
}

/// The extension of the source language, dot included.
pub open spec fn py_ext() -> Seq<char> {
    seq!['.', 'p', 'y']
}

/// The name of the source subdirectory of an output module.
pub open spec fn src_dir() -> Seq<char> {
    seq!['s', 'r', 'c']
}

/// The last component of `p` has an extension: a dot that is not its first
/// character.
pub open spec fn has_extension(p: Seq<char>) -> bool {
    last_index_of(p, '.') > last_index_of(p, '/') + 1
}

/// `p` with the extension of its last component replaced by (or, where it has
/// none, extended with) the target extension.
pub open spec fn with_rs_extension(p: Seq<char>) -> Seq<char> {
    if has_extension(p) {
        p.subrange(0, last_index_of(p, '.')) + rs_ext()
    } else {
        p + rs_ext()
    }
}

/// `a` and `b` joined by a single separator.
pub open spec fn join(a: Seq<char>, b: Seq<char>) -> Seq<char> {
    if a.len() == 0 {
        b
    } else if a.last() == '/' {
        a + b
    } else {
        a + seq!['/'] + b
    }
}

/// The output path of the source file `p` of the module at `from`, when the
/// output module is at `to`.
pub open spec fn translated(p: Seq<char>, from: Seq<char>, to: Seq<char>) -> Seq<char> {
    join(join(to, src_dir()), with_rs_extension(trim_trailing_slashes(relative(p, from))))
}

/// The last component of `t` is a non-empty stem followed by the target
/// extension.
pub open spec fn has_rs_file_name(t: Seq<char>) -> bool {
    &&& t.len() >= 4
    &&& t.subrange(t.len() - 3, t.len() as int) == rs_ext()
    &&& t[t.len() - 4] != '/'
}

/// `p` with its last component replaced by `name`.
pub open spec fn with_file_name(p: Seq<char>, name: Seq<char>) -> Seq<char> {
    p.subrange(0, last_index_of(p, '/') + 1) + name
}

/// `p` without separators at its end.
pub open spec fn trim_trailing_slashes(p: Seq<char>) -> Seq<char>
    decreases p.len(),
{
    if p.len() > 0 && p.last() == '/' {
        trim_trailing_slashes(p.drop_last())
    } else {
        p
    }
}

/// The directory that holds `p`: everything before the last separator of
/// `p` once separators at its end are dropped.
pub open spec fn parent_of(p: Seq<char>) -> Seq<char> {
    let t = trim_trailing_slashes(p);
    if last_index_of(t, '/') < 0 {
        Seq::empty()
    } else {
        t.subrange(0, last_index_of(t, '/'))
    }
}

/// A file name in the source language, below a directory: it ends in the
/// source extension, with at least one character of its own before it.
pub open spec fn is_source_file_name(rel: Seq<char>) -> bool {
    &&& rel.len() > 3
    &&& rel.subrange(rel.len() - 3, rel.len() as int) == py_ext()
    &&& rel[rel.len() - 4] != '/'
}

pub proof fn lemma_last_index_of(s: Seq<char>, c: char)
    ensures
        -1 <= last_index_of(s, c) < s.len(),
        last_index_of(s, c) >= 0 ==> s[last_index_of(s, c)] == c,
        forall|j: int| last_index_of(s, c) < j < s.len() ==> s[j] != c,
    decreases s.len(),
{
    if s.len() > 0 && s.last() != c {
        lemma_last_index_of(s.drop_last(), c);
        assert(forall|j: int| 0 <= j < s.len() - 1 ==> s.drop_last()[j] == s[j]);
    }
}

/// Any position of `c` after which `c` does not occur is the last one.
pub proof fn lemma_last_index_of_at(s: Seq<char>, c: char, k: int)
    requires
        -1 <= k < s.len(),
        k >= 0 ==> s[k] == c,
        forall|j: int| k < j < s.len() ==> s[j] != c,
    ensures
        last_index_of(s, c) == k,
{
    lemma_last_index_of(s, c);
    let r = last_index_of(s, c);
    if r < k {
        assert(s[k] != c);
    } else if r > k {
        assert(s[r] != c);
    }
}

proof fn lemma_join_prefix(a: Seq<char>, b: Seq<char>)
    ensures
        join(a, b).len() >= a.len(),
        join(a, b).subrange(0, a.len() as int) == a,
        join(a, b).len() >= b.len(),
        join(a, b).subrange(join(a, b).len() - b.len(), join(a, b).len() as int) == b,
{
    assert(join(a, b).subrange(0, a.len() as int) =~= a);
    assert(join(a, b).subrange(join(a, b).len() - b.len(), join(a, b).len() as int) =~= b);
}

proof fn lemma_join_cancel(a: Seq<char>, b: Seq<char>, c: Seq<char>)
    requires
        join(a, b) == join(a, c),
    ensures
        b == c,
{
    let k: int = if a.len() == 0 { 0 } else if a.last() == '/' { a.len() as int } else { a.len() + 1int };
    assert(join(a, b).subrange(k, join(a, b).len() as int) =~= b);
    assert(join(a, c).subrange(k, join(a, c).len() as int) =~= c);
}

proof fn lemma_with_rs_extension_of_source(rel: Seq<char>)
    requires
        is_source_file_name(rel),
    ensures
        with_rs_extension(rel) == rel.subrange(0, rel.len() - 3) + rs_ext(),
{
    let n = rel.len() as int;
    assert(rel[n - 3] == rel.subrange(n - 3, n)[0]);
    assert(rel[n - 2] == rel.subrange(n - 3, n)[1]);
    assert(rel[n - 1] == rel.subrange(n - 3, n)[2]);
    lemma_last_index_of_at(rel, '.', n - 3);
    lemma_last_index_of(rel, '/');
    let slash = last_index_of(rel, '/');
    if slash >= n - 4 {
        assert(rel[slash] == '/');
    }
}

proof fn lemma_trim_last(s: Seq<char>)
    ensures
        trim_trailing_slashes(s).len() <= s.len(),
        trim_trailing_slashes(s).len() > 0 ==> trim_trailing_slashes(s).last() != '/',
    decreases s.len(),
{
    if s.len() > 0 && s.last() == '/' {
        lemma_trim_last(s.drop_last());
    }
}

/// Every translated path starts with the output root, and its last component
/// is a non-empty stem followed by the target extension.
pub proof fn lemma_translate_shape(p: Seq<char>, from: Seq<char>, to: Seq<char>)
    requires
        is_under(p, from),
    ensures
        translated(p, from, to).len() >= to.len() + 3,
        translated(p, from, to).subrange(0, to.len() as int) == to,
        translated(p, from, to).subrange(
            translated(p, from, to).len() - 3,
            translated(p, from, to).len() as int,
        ) == rs_ext(),
        has_rs_file_name(translated(p, from, to)),
{
    let base = join(to, src_dir());
    let rel = trim_trailing_slashes(relative(p, from));
    lemma_trim_last(relative(p, from));
    let rs = with_rs_extension(rel);
    lemma_join_prefix(to, src_dir());
    lemma_join_prefix(base, rs);
    let t = translated(p, from, to);
    assert(t.subrange(0, to.len() as int) =~= base.subrange(0, to.len() as int));
    lemma_last_index_of(rel, '.');
    lemma_last_index_of(rel, '/');
    if has_extension(rel) {
        let d = last_index_of(rel, '.');
        assert(rs.subrange(rs.len() - 3, rs.len() as int) =~= rs_ext());
        assert(rs[rs.len() - 4] == rel[d - 1]);
        assert(rel[d - 1] != '/');
    } else {
        assert(rs.subrange(rs.len() - 3, rs.len() as int) =~= rs_ext());
        assert(rs[rs.len() - 4] == rel.last());
    }
    assert(t.subrange(t.len() - 3, t.len() as int) =~= rs.subrange(rs.len() - 3, rs.len() as int));
    assert(t[t.len() - 4] == t.subrange(t.len() - rs.len(), t.len() as int)[rs.len() - 4]);
}

/// Two source files of one module, each named with the source extension, are
/// never translated to the same output path unless they are the same path.
pub proof fn lemma_translate_injective(p: Seq<char>, q: Seq<char>, from: Seq<char>, to: Seq<char>)
    requires
        is_under(p, from),
        is_under(q, from),
        is_source_file_name(relative(p, from)),
        is_source_file_name(relative(q, from)),
        translated(p, from, to) == translated(q, from, to),
    ensures
        p == q,
{
    let base = join(to, src_dir());
    let rp = relative(p, from);
    let rq = relative(q, from);
    assert(rp.last() == rp.subrange(rp.len() - 3, rp.len() as int)[2]);
    assert(rq.last() == rq.subrange(rq.len() - 3, rq.len() as int)[2]);
    assert(trim_trailing_slashes(rp) == rp);
    assert(trim_trailing_slashes(rq) == rq);
    lemma_join_cancel(base, with_rs_extension(rp), with_rs_extension(rq));
    lemma_with_rs_extension_of_source(rp);
    lemma_with_rs_extension_of_source(rq);
    let sp = rp.subrange(0, rp.len() - 3);
    let sq = rq.subrange(0, rq.len() - 3);
    assert(sp =~= (sp + rs_ext()).subrange(0, sp.len() as int));
    assert(sq =~= (sq + rs_ext()).subrange(0, sq.len() as int));
    assert(sp =~= sq);
    assert(rp =~= sp + py_ext());
    assert(rq =~= sq + py_ext());
    let k = rel_start(from);
    assert forall|i: int| 0 <= i < p.len() implies p[i] == q[i] by {
        if i < from.len() {
            assert(p[i] == p.subrange(0, from.len() as int)[i]);
            assert(q[i] == q.subrange(0, from.len() as int)[i]);
        } else if i >= k {
            assert(p[i] == rp[i - k]);
            assert(q[i] == rq[i - k]);
        }
    }
    assert(p =~= q);
}

/// Position of the last `c` in `s`.
pub fn find_last(s: &Vec<char>, c: char) -> (r: Option<usize>)
    ensures
        match r {
            Some(i) => i == last_index_of(s@, c),
            None => last_index_of(s@, c) == -1,
        },
{
    let mut i: usize = s.len();
    while i > 0
        invariant
            i <= s@.len(),
            forall|j: int| i <= j < s@.len() ==> s@[j] != c,
        decreases i,
    {
        if s[i - 1] == c {
            proof {
                lemma_last_index_of_at(s@, c, i - 1);
            }
            return Some(i - 1);
        }
        i = i - 1;
    }
    proof {
        lemma_last_index_of_at(s@, c, -1);
    }
    None
}

/// `p` without separators at its end.
pub fn trim_slashes(p: &Vec<char>) -> (r: Vec<char>)
    ensures
        r@ == trim_trailing_slashes(p@),
{
    let mut n: usize = p.len();
    assert(p@.subrange(0, n as int) =~= p@);
    while n > 0 && p[n - 1] == '/'
        invariant
            n <= p@.len(),
            trim_trailing_slashes(p@) == trim_trailing_slashes(p@.subrange(0, n as int)),
        decreases n,
    {
        assert(p@.subrange(0, n as int).drop_last() =~= p@.subrange(0, n - 1));
        n = n - 1;
    }
    assert(p@.subrange(0, n as int).len() == 0 || p@.subrange(0, n as int).last() != '/');
    slice_of(p, 0, n)
}

/// The characters of `s` from `from` to `to`.
pub fn slice_of(s: &Vec<char>, from: usize, to: usize) -> (r: Vec<char>)
    requires
        from <= to <= s@.len(),
    ensures
        r@ == s@.subrange(from as int, to as int),
{
    let mut r: Vec<char> = Vec::new();
    let mut i: usize = from;
    while i < to
        invariant
            from <= i <= to,
            to <= s@.len(),
            r@ == s@.subrange(from as int, i as int),
        decreases to - i,
    {
        r.push(s[i]);
        i = i + 1;
    }
    r
}

/// Whether `p` lies strictly below `root`.
pub fn is_under_exec(p: &Vec<char>, root: &Vec<char>) -> (r: bool)
    ensures
        r == is_under(p@, root@),
{
    let n = root.len();
    let sep: bool = !(n == 0 || root[n - 1] == '/');
    if n >= p.len() || (sep && n + 1 >= p.len()) {
        return false;
    }
    let mut i: usize = 0;
    while i < n
        invariant
            i <= n,
            n == root@.len(),
            n < p@.len(),
            forall|j: int| 0 <= j < i ==> p@[j] == root@[j],
        decreases n - i,
    {
        if p[i] != root[i] {
            assert(p@.subrange(0, n as int)[i as int] != root@[i as int]);
            return false;
        }
        i = i + 1;
    }
    assert(p@.subrange(0, n as int) =~= root@);
    if sep && p[n] != '/' {
        return false;
    }
    let start: usize = if sep { n + 1 } else { n };
    let rel = trim_slashes(&slice_of(p, start, p.len()));
    rel.len() > 0
}

/// `a` and `b` joined by a single separator.
pub fn join_exec(a: &Vec<char>, b: &Vec<char>) -> (r: Vec<char>)
    ensures
        r@ == join(a@, b@),
{
    let mut r: Vec<char> = Vec::new();
    push_chars(&mut r, a);
    if a.len() > 0 && a[a.len() - 1] != '/' {
        r.push('/');
    }
    push_chars(&mut r, b);
    r
}

/// `p` with the target extension in place of its own.
pub fn with_rs_extension_exec(p: &Vec<char>) -> (r: Vec<char>)
    ensures
        r@ == with_rs_extension(p@),
{
    let slash = find_last(p, '/');
    let dot = find_last(p, '.');
    proof {
        lemma_last_index_of(p@, '.');
    }
    let mut r: Vec<char> = match dot {
        Some(d) => {
            let after_slash: bool = match slash {
                Some(s) => s < d && d - s > 1,
                None => d > 0,
            };
            if after_slash {
                slice_of(p, 0, d)
            } else {
                slice_of(p, 0, p.len())
            }
        },
        None => slice_of(p, 0, p.len()),
    };
    assert(p@.subrange(0, p@.len() as int) =~= p@);
    r.push('.');
    r.push('r');
    r.push('s');
    assert(r@ =~= with_rs_extension(p@));
    r
}

/// Output path of the source file `path` of the module at `from_stem`, when the
/// output module is at `to_stem`: the part below `from_stem`, with the target
/// extension, under the source subdirectory of `to_stem`. A path that is not
/// below `from_stem` is refused.
pub fn translate(path: &str, from_stem: &str, to_stem: &str) -> (r: Result<String, CliError>)
    ensures
        is_under(path@, from_stem@) ==> (r matches Ok(t) && t@ == translated(path@, from_stem@, to_stem@)),
        r matches Ok(t) ==> has_rs_file_name(t@),
        !is_under(path@, from_stem@) ==> (r matches Err(CliError::PathNotUnderRoot(a, b))
            && a@ == path@ && b@ == from_stem@),
{
    let p = chars_of(path);
    let from = chars_of(from_stem);
    if !is_under_exec(&p, &from) {
        return Err(CliError::PathNotUnderRoot(String::from_str(path), String::from_str(from_stem)));
    }
    let n = from.len();
    let plen = p.len();
    let sep: bool = n > 0 && from[n - 1] != '/';
    proof {
        assert(rel_start(from@) < p@.len());
        if sep {
            assert(from@.last() == from@[n - 1]);
            assert(rel_start(from@) == n + 1);
        }
    }
    let start: usize = if sep { n + 1 } else { n };
    let rel = trim_slashes(&slice_of(&p, start, p.len()));
    let rs = with_rs_extension_exec(&rel);
    let to = chars_of(to_stem);
    let mut src: Vec<char> = Vec::new();
    src.push('s');
    src.push('r');
    src.push('c');
    assert(src@ =~= src_dir());
    let base = join_exec(&to, &src);
    let out = join_exec(&base, &rs);
    proof {
        lemma_translate_shape(path@, from_stem@, to_stem@);
    }
    Ok(string_of(&out))
}

/// `path` with its last component replaced by `name`.
pub fn set_file_name(path: &str, name: &str) -> (r: String)
    ensures
        r@ == with_file_name(path@, name@),
{
    let p = chars_of(path);
    let n = chars_of(name);
    proof {
        lemma_last_index_of(p@, '/');
    }
    let mut r = match find_last(&p, '/') {
        Some(i) => slice_of(&p, 0, i + 1),
        None => Vec::new(),
    };
    assert(p@.subrange(0, 0) =~= Seq::<char>::empty());
    push_chars(&mut r, &n);
    string_of(&r)
}

/// `a` and `b` joined by a single separator.
pub fn join_path(a: &str, b: &str) -> (r: String)
    ensures
        r@ == join(a@, b@),
{
    let x = chars_of(a);
    let y = chars_of(b);
    string_of(&join_exec(&x, &y))
}

/// The directory that holds `path`.
pub fn parent(path: &str) -> (r: String)
    ensures
        r@ == parent_of(path@),
{
    let p = trim_slashes(&chars_of(path));
    proof {
        lemma_last_index_of(p@, '/');
    }
    let r = match find_last(&p, '/') {
        Some(i) => slice_of(&p, 0, i),
        None => Vec::new(),
    };
    string_of(&r)
}

} // verus!
