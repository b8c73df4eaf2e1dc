//! Synthesis of the package manifest of an output module.
use vstd::prelude::*;
use cargo_toml_builder::CargoToml;
use cargo_toml_builder::types::{BinTarget, Dependency, LibTarget};
use vstd::string::*;
use crate::error::CliError;
use crate::lines::{lines_of, split_lines};
use crate::paths::{trim_trailing_slashes, trim_slashes, has_extension, join, join_path, last_index_of, lemma_last_index_of, find_last, slice_of};
use crate::plan::{Action, is_remove, is_write, apply_action, apply_actions};
use crate::text::{chars_of, string_of, push_chars, push_str};

verus! {

/// The manifest document that cargo_toml_builder renders for a package name,
/// an author, dependencies (name and version), and optional binary and library
/// targets (name and path).
pub uninterp spec fn manifest_document(
    name: Seq<char>,
    author: Seq<char>,
    deps: Seq<(Seq<char>, Seq<char>)>,
    bin: Option<(Seq<char>, Seq<char>)>,
    lib: Option<(Seq<char>, Seq<char>)>,
) -> Seq<char>;

pub open spec fn pair_view(p: (String, String)) -> (Seq<char>, Seq<char>) {
    (p.0@, p.1@)
}

pub open spec fn pairs_view(d: Seq<(String, String)>) -> Seq<(Seq<char>, Seq<char>)> {
    Seq::new(d.len(), |i: int| pair_view(d[i]))
}

pub open spec fn opt_pair_view(o: Option<(String, String)>) -> Option<(Seq<char>, Seq<char>)> {
    match o {
        Some(p) => Some(pair_view(p)),
        None => None,
    }
}

/// A character that toml_edit 0.1.5, which cargo_toml_builder writes through,
/// takes as it is in a key and in a string: no control character, no quote
/// and no backslash. Keys go through `Table::entry` and strings through
/// `Value::from(&str)`; both try the text bare, then within double quotes, and
/// panic where no form parses.
pub open spec fn plain_char(c: char) -> bool {
    &&& c as u32 >= 0x20
    &&& c != '"'
    &&& c != '\''
    &&& c != '\\'
}

/// Every character of `s` is plain.
pub open spec fn plain_text(s: Seq<char>) -> bool {
    forall|i: int| 0 <= i < s.len() ==> plain_char(#[trigger] s[i])
}

/// Every name and version of `d` is plain.
pub open spec fn plain_pairs(d: Seq<(Seq<char>, Seq<char>)>) -> bool {
    forall|i: int| 0 <= i < d.len() ==> plain_text((#[trigger] d[i]).0) && plain_text(d[i].1)
}

/// The name and the path of a target, if any, are plain.
pub open spec fn plain_target(t: Option<(Seq<char>, Seq<char>)>) -> bool {
    match t {
        Some((n, p)) => plain_text(n) && plain_text(p),
        None => true,
    }
}

/// Relies on cargo_toml_builder 0.3: `CargoToml::builder` given `author`,
/// `name`, `dependencies` made with `Dependency::version`, and `bin` / `lib`
/// targets made from a name and a path, then `build` and the `Display` of the
/// document. The text depends on these values alone. `build` fails only
/// without a name or an author, both of which are set here; plain text keeps
/// toml_edit from panicking.
#[verifier::external_body]
fn render_manifest(
    name: &str,
    author: &str,
    deps: &Vec<(String, String)>,
    bin: &Option<(String, String)>,
    lib: &Option<(String, String)>,
) -> (r: Result<String, String>)
    requires
        plain_text(name@),
        plain_text(author@),
        plain_pairs(pairs_view(deps@)),
        plain_target(opt_pair_view(*bin)),
        plain_target(opt_pair_view(*lib)),
    ensures
        r is Ok,
        r matches Ok(t) ==> t@ == manifest_document(
            name@,
            author@,
            pairs_view(deps@),
            opt_pair_view(*bin),
            opt_pair_view(*lib),
        ),
{
    let mut doc = CargoToml::builder();
    doc.author(author).name(name);
    doc.dependencies(&deps.iter().map(|(k, v)| Dependency::version(k, v)).collect::<Vec<_>>());
    if let Some((n, p)) = bin {
        doc.bin(BinTarget::new().name(n).path(p).build());
    }
    if let Some((n, p)) = lib {
        doc.lib(LibTarget::new().name(n).path(p).build());
    }
    doc.build().map(|d| d.to_string()).map_err(|e| e.to_string())
}

/// The author stamped into every manifest.
pub open spec fn manifest_author() -> Seq<char> {
    "automatically transpiled by serpent"@
}

/// The last component of `p`.
pub open spec fn last_component(p: Seq<char>) -> Seq<char> {
    p.subrange(last_index_of(p, '/') + 1, p.len() as int)
}

/// A file name without its extension.
pub open spec fn file_stem_of(name: Seq<char>) -> Seq<char> {
    if has_extension(name) {
        name.subrange(0, last_index_of(name, '.'))
    } else {
        name
    }
}

/// The package name for the output module at `out`: the stem of its last
/// component; none where that component is empty, `.` or `..`.
pub open spec fn package_name_of(out: Seq<char>) -> Option<Seq<char>> {
    let c = last_component(trim_trailing_slashes(out));
    if c.len() == 0 || c == seq!['.'] || c == seq!['.', '.'] {
        None
    } else {
        Some(file_stem_of(c))
    }
}

/// A target as the manifest declares it: the stem of its file as its name,
/// and its path.
pub open spec fn target_view(t: Option<Seq<char>>) -> Option<(Seq<char>, Seq<char>)> {
    match t {
        Some(p) => Some((file_stem_of(last_component(p)), p)),
        None => None,
    }
}

pub open spec fn opt_view(o: Option<String>) -> Option<Seq<char>> {
    match o {
        Some(s) => Some(s@),
        None => None,
    }
}

pub open spec fn seq_result(r: Result<Vec<Action>, CliError>) -> Result<Seq<Action>, CliError> {
    match r {
        Ok(a) => Ok(a@),
        Err(e) => Err(e),
    }
}

/// `pat` occurs in `s`.
pub open spec fn contains(s: Seq<char>, pat: Seq<char>) -> bool {
    exists|i: int| 0 <= i <= s.len() - pat.len() && #[trigger] s.subrange(i, i + pat.len()) == pat
}

/// The line that declares the language edition.
pub open spec fn edition_line() -> Seq<char> {
    "edition =\"2018\"\n"@
}

/// The lines `ls`, each ended by a newline, with the edition line after each
/// line that holds the package header.
pub open spec fn with_edition_lines(ls: Seq<Seq<char>>) -> Seq<char>
    decreases ls.len(),
{
    if ls.len() == 0 {
        Seq::empty()
    } else {
        with_edition_lines(ls.drop_last()) + ls.last() + seq!['\n'] + if contains(
            ls.last(),
            "[package]"@,
        ) {
            edition_line()
        } else {
            Seq::empty()
        }
    }
}

/// `content` with the edition line inserted after its package header.
pub open spec fn with_edition(content: Seq<char>) -> Seq<char> {
    with_edition_lines(lines_of(content))
}

/// The manifest text for the output module at `out`, or `None` where no
/// package name can be derived from `out`.
pub open spec fn manifest_text(
    out: Seq<char>,
    deps: Seq<(String, String)>,
    bin: Option<Seq<char>>,
    lib: Option<Seq<char>>,
) -> Option<Seq<char>> {
    match package_name_of(out) {
        None => None,
        Some(name) => Some(
            with_edition(
                manifest_document(name, manifest_author(), pairs_view(deps), target_view(bin), target_view(lib)),
            ),
        ),
    }
}

/// The path of the manifest of the output module at `out`.
pub open spec fn manifest_path_of(out: Seq<char>) -> Seq<char> {
    join(out, "Cargo.toml"@)
}

/// The last component of `p`.
fn last_component_exec(p: &Vec<char>) -> (r: Vec<char>)
    ensures
        r@ == last_component(p@),
{
    proof {
        lemma_last_index_of(p@, '/');
    }
    let n = p.len();
    match find_last(p, '/') {
        Some(i) => slice_of(p, i + 1, n),
        None => slice_of(p, 0, p.len()),
    }
}

/// `name` without its extension.
fn file_stem_exec(name: &Vec<char>) -> (r: Vec<char>)
    ensures
        r@ == file_stem_of(name@),
{
    proof {
        lemma_last_index_of(name@, '.');
        lemma_last_index_of(name@, '/');
    }
    let slash = find_last(name, '/');
    let dot = find_last(name, '.');
    assert(name@.subrange(0, name@.len() as int) =~= name@);
    match dot {
        Some(d) => {
            let ext: bool = match slash {
                Some(s) => s < d && d - s > 1,
                None => d > 0,
            };
            if ext {
                slice_of(name, 0, d)
            } else {
                slice_of(name, 0, name.len())
            }
        },
        None => slice_of(name, 0, name.len()),
    }
}

/// The package name for the output module at `out`.
pub fn package_name(out: &str) -> (r: Option<String>)
    ensures
        match package_name_of(out@) {
            Some(n) => r matches Some(s) && s@ == n,
            None => r is None,
        },
{
    let p = chars_of(out);
    let t = trim_slashes(&p);
    let c = last_component_exec(&t);
    let n = c.len();
    if n == 0 {
        return None;
    }
    if n == 1 && c[0] == '.' {
        assert(c@ =~= seq!['.']);
        return None;
    }
    if n == 2 && c[0] == '.' && c[1] == '.' {
        assert(c@ =~= seq!['.', '.']);
        return None;
    }
    assert(c@ != seq!['.']) by {
        if n == 1 {
            assert(c@[0] != seq!['.'][0]);
        }
    }
    assert(c@ != seq!['.', '.']) by {
        if n == 2 {
            assert(c@[0] != '.' || c@[1] != '.');
        }
    }
    Some(string_of(&file_stem_exec(&c)))
}

/// A declared target: its name, the stem of its file, and its path.
fn target_of(t: &Option<String>) -> (r: Option<(String, String)>)
    ensures
        opt_pair_view(r) == target_view(opt_view(*t)),
{
    match t {
        Some(p) => {
            let c = chars_of(p.as_str());
            let name = string_of(&file_stem_exec(&last_component_exec(&c)));
            Some((name, p.clone()))
        },
        None => None,
    }
}

/// Whether `pat` occurs in `s` at `i`.
fn occurs_at(s: &Vec<char>, pat: &Vec<char>, i: usize) -> (r: bool)
    requires
        i + pat@.len() <= s@.len(),
    ensures
        r == (s@.subrange(i as int, i + pat@.len()) == pat@),
{
    let sl = s.len();
    let mut k: usize = 0;
    while k < pat.len()
        invariant
            sl == s@.len(),
            k <= pat@.len(),
            i + pat@.len() <= s@.len(),
            forall|j: int| 0 <= j < k ==> s@[i + j] == pat@[j],
        decreases pat@.len() - k,
    {
        if s[i + k] != pat[k] {
            assert(s@.subrange(i as int, i + pat@.len())[k as int] != pat@[k as int]);
            return false;
        }
        k = k + 1;
    }
    assert(s@.subrange(i as int, i + pat@.len()) =~= pat@);
    true
}

/// Whether `pat` occurs in `s`.
fn contains_exec(s: &Vec<char>, pat: &Vec<char>) -> (r: bool)
    ensures
        r == contains(s@, pat@),
{
    if pat.len() > s.len() {
        return false;
    }
    let last = s.len() - pat.len();
    let mut i: usize = 0;
    loop
        invariant
            i <= last,
            last == s@.len() - pat@.len(),
            forall|j: int| 0 <= j < i ==> #[trigger] s@.subrange(j, j + pat@.len()) != pat@,
        decreases last - i,
    {
        if occurs_at(s, pat, i) {
            return true;
        }
        if i == last {
            return false;
        }
        i = i + 1;
    }
}

/// `content` with the edition line inserted after the line that holds the
/// package header; every line ends with a newline.
pub fn insert_edition(content: &str) -> (r: String)
    ensures
        r@ == with_edition(content@),
{
    let chars = chars_of(content);
    let lines = split_lines(&chars);
    let header = chars_of("[package]");
    let ghost ls = lines_of(content@);
    let mut out: Vec<char> = Vec::new();
    let mut k: usize = 0;
    while k < lines.len()
        invariant
            k <= lines@.len(),
            lines@.len() == ls.len(),
            ls == lines_of(content@),
            header@ == "[package]"@,
            forall|j: int| 0 <= j < lines@.len() ==> #[trigger] lines@[j]@ == ls[j],
            out@ == with_edition_lines(ls.subrange(0, k as int)),
        decreases lines@.len() - k,
    {
        assert(ls.subrange(0, k + 1).drop_last() =~= ls.subrange(0, k as int));
        assert(ls.subrange(0, k + 1).last() == ls[k as int]);
        push_chars(&mut out, &lines[k]);
        out.push('\n');
        if contains_exec(&lines[k], &header) {
            push_str(&mut out, "edition =\"2018\"\n");
        }
        k = k + 1;
    }
    assert(ls.subrange(0, lines@.len() as int) =~= ls);
    string_of(&out)
}

/// A package name: ASCII letters, digits, `-` and `_`, not empty and not
/// starting with a digit.
pub open spec fn is_package_name(n: Seq<char>) -> bool {
    &&& n.len() > 0
    &&& !('0' <= n[0] && n[0] <= '9')
    &&& forall|i: int| 0 <= i < n.len() ==> is_name_char(#[trigger] n[i])
}

pub open spec fn is_name_char(c: char) -> bool {
    ||| 'a' <= c && c <= 'z'
    ||| 'A' <= c && c <= 'Z'
    ||| '0' <= c && c <= '9'
    ||| c == '-'
    ||| c == '_'
}

/// A manifest can be made for these inputs: the output directory gives a
/// valid package name, and every dependency and target is plain text.
pub open spec fn manifest_inputs_ok(
    out: Seq<char>,
    deps: Seq<(String, String)>,
    bin: Option<Seq<char>>,
    lib: Option<Seq<char>>,
) -> bool {
    &&& package_name_of(out) matches Some(n) && is_package_name(n)
    &&& plain_pairs(pairs_view(deps))
    &&& plain_target(target_view(bin))
    &&& plain_target(target_view(lib))
}

/// Whether every character of `s` is plain.
fn plain_text_exec(s: &str) -> (r: bool)
    ensures
        r == plain_text(s@),
{
    let n = s.unicode_len();
    let mut i: usize = 0;
    while i < n
        invariant
            i <= n,
            n == s@.len(),
            forall|j: int| 0 <= j < i ==> plain_char(#[trigger] s@[j]),
        decreases n - i,
    {
        let c = s.get_char(i);
        if (c as u32) < 0x20 || c == '"' || c == '\'' || c == '\\' {
            assert(!plain_char(s@[i as int]));
            return false;
        }
        i = i + 1;
    }
    true
}

/// Whether `n` is a package name.
fn is_package_name_exec(n: &str) -> (r: bool)
    ensures
        r == is_package_name(n@),
{
    let len = n.unicode_len();
    if len == 0 {
        return false;
    }
    let first = n.get_char(0);
    if '0' <= first && first <= '9' {
        return false;
    }
    let mut i: usize = 0;
    while i < len
        invariant
            i <= len,
            len == n@.len(),
            forall|j: int| 0 <= j < i ==> is_name_char(#[trigger] n@[j]),
        decreases len - i,
    {
        let c = n.get_char(i);
        if !(('a' <= c && c <= 'z') || ('A' <= c && c <= 'Z') || ('0' <= c && c <= '9') || c == '-' || c == '_') {
            assert(!is_name_char(n@[i as int]));
            return false;
        }
        i = i + 1;
    }
    true
}

proof fn lemma_package_name_plain(n: Seq<char>)
    requires
        is_package_name(n),
    ensures
        plain_text(n),
{
    assert forall|i: int| 0 <= i < n.len() implies plain_char(#[trigger] n[i]) by {
        assert(is_name_char(n[i]));
    }
}

/// Whether every dependency name and version is plain.
fn plain_pairs_exec(deps: &Vec<(String, String)>) -> (r: bool)
    ensures
        r == plain_pairs(pairs_view(deps@)),
{
    let mut i: usize = 0;
    while i < deps.len()
        invariant
            i <= deps@.len(),
            forall|j: int| 0 <= j < i ==> plain_text((#[trigger] pairs_view(deps@)[j]).0) && plain_text(
                pairs_view(deps@)[j].1,
            ),
        decreases deps@.len() - i,
    {
        if !plain_text_exec(deps[i].0.as_str()) || !plain_text_exec(deps[i].1.as_str()) {
            assert(pairs_view(deps@)[i as int] == pair_view(deps@[i as int]));
            return false;
        }
        i = i + 1;
    }
    true
}

/// Whether the name and the path of a target, if any, are plain.
fn plain_target_exec(t: &Option<(String, String)>) -> (r: bool)
    ensures
        r == plain_target(opt_pair_view(*t)),
{
    match t {
        Some((n, p)) => plain_text_exec(n.as_str()) && plain_text_exec(p.as_str()),
        None => true,
    }
}

/// The manifest of the output module at `out_dir`: its package is named after
/// the directory, stamped with the tool as author and with the language
/// edition; it lists `deps`, and declares a binary and a library target where
/// their paths are given. A directory that gives no valid package name, or a
/// dependency or target that a manifest cannot hold as plain text, is a
/// manifest error.
pub fn emit_manifest(
    out_dir: &str,
    deps: &Vec<(String, String)>,
    bin_target: &Option<String>,
    lib_target: &Option<String>,
) -> (r: Result<String, CliError>)
    ensures
        manifest_inputs_ok(out_dir@, deps@, opt_view(*bin_target), opt_view(*lib_target)) ==> (r matches Ok(t)
            && manifest_text(out_dir@, deps@, opt_view(*bin_target), opt_view(*lib_target)) == Some(t@)),
        !manifest_inputs_ok(out_dir@, deps@, opt_view(*bin_target), opt_view(*lib_target)) ==> r matches Err(
            CliError::ManifestError(_),
        ),
{
    let name = match package_name(out_dir) {
        Some(n) => n,
        None => {
            return Err(
                CliError::ManifestError(String::from_str("no package name can be derived from the output directory")),
            );
        },
    };
    if !is_package_name_exec(name.as_str()) {
        return Err(CliError::ManifestError(String::from_str("the output directory gives no valid package name")));
    }
    proof {
        lemma_package_name_plain(name@);
    }
    if !plain_pairs_exec(deps) {
        return Err(CliError::ManifestError(String::from_str("a dependency cannot be written into a manifest")));
    }
    let bin = target_of(bin_target);
    let lib = target_of(lib_target);
    if !plain_target_exec(&bin) || !plain_target_exec(&lib) {
        return Err(CliError::ManifestError(String::from_str("a target cannot be written into a manifest")));
    }
    let author = "automatically transpiled by serpent";
    proof {
        reveal_strlit("automatically transpiled by serpent");
    }
    assert(plain_text(author@));
    match render_manifest(name.as_str(), author, deps, &bin, &lib) {
        Ok(doc) => Ok(insert_edition(doc.as_str())),
        Err(message) => Err(CliError::ManifestError(message)),
    }
}

/// The path of the manifest of the output module at `out_dir`.
pub fn manifest_path(out_dir: &str) -> (r: String)
    ensures
        r@ == manifest_path_of(out_dir@),
{
    join_path(out_dir, "Cargo.toml")
}

/// `acts` (re)writes the manifest at `mp` with `text`, deleting the existing
/// one first where there is one.
pub open spec fn manifest_plan(acts: Seq<Action>, mp: Seq<char>, exists: bool, text: Seq<char>) -> bool {
    if exists {
        acts.len() == 2 && is_remove(acts[0], mp) && is_write(acts[1], mp, text)
    } else {
        acts.len() == 1 && is_write(acts[0], mp, text)
    }
}

/// What `create_manifest` returns for these inputs.
pub open spec fn manifest_outcome(
    out: Seq<char>,
    exists: bool,
    overwrite: bool,
    deps: Seq<(String, String)>,
    bin: Option<Seq<char>>,
    lib: Option<Seq<char>>,
    r: Result<Seq<Action>, CliError>,
) -> bool {
    if exists && !overwrite {
        r matches Ok(acts) && acts.len() == 0
    } else if !manifest_inputs_ok(out, deps, bin, lib) {
        r matches Err(CliError::ManifestError(_))
    } else {
        r matches Ok(acts) && manifest_plan(acts, manifest_path_of(out), exists, manifest_text(out, deps, bin, lib)->0)
    }
}

/// The actions that produce the manifest of the output module at `out_dir`.
/// An existing manifest is deleted and regenerated when `overwrite_previous`
/// holds, and left alone otherwise; it is never merged.
pub fn create_manifest(
    out_dir: &str,
    manifest_exists: bool,
    overwrite_previous: bool,
    deps: &Vec<(String, String)>,
    bin_target: &Option<String>,
    lib_target: &Option<String>,
) -> (r: Result<Vec<Action>, CliError>)
    ensures
        manifest_outcome(
            out_dir@,
            manifest_exists,
            overwrite_previous,
            deps@,
            opt_view(*bin_target),
            opt_view(*lib_target),
            seq_result(r),
        ),
        manifest_exists && !overwrite_previous ==> r is Ok,
        manifest_inputs_ok(out_dir@, deps@, opt_view(*bin_target), opt_view(*lib_target)) ==> r is Ok,
{
    let mut acts: Vec<Action> = Vec::new();
    if manifest_exists && !overwrite_previous {
        return Ok(acts);
    }
    let content = emit_manifest(out_dir, deps, bin_target, lib_target)?;
    if manifest_exists {
        acts.push(Action::RemoveFile(manifest_path(out_dir)));
    }
    acts.push(Action::WriteFile { path: manifest_path(out_dir), content });
    Ok(acts)
}

/// Regenerating over an existing manifest gives the same bytes that a first
/// run writes where there was none, and changes no other file; without
/// overwriting, every file, the manifest included, is left as it was.
pub proof fn lemma_manifest_overwrite(
    fs: Map<Seq<char>, Seq<char>>,
    out: Seq<char>,
    deps: Seq<(String, String)>,
    bin: Option<Seq<char>>,
    lib: Option<Seq<char>>,
    regenerated: Result<Seq<Action>, CliError>,
    first: Result<Seq<Action>, CliError>,
    kept: Result<Seq<Action>, CliError>,
)
    requires
        fs.contains_key(manifest_path_of(out)),
        manifest_outcome(out, true, true, deps, bin, lib, regenerated),
        manifest_outcome(out, false, true, deps, bin, lib, first),
        manifest_outcome(out, true, false, deps, bin, lib, kept),
        manifest_inputs_ok(out, deps, bin, lib),
    ensures
        apply_actions(fs, regenerated->Ok_0) == apply_actions(fs.remove(manifest_path_of(out)), first->Ok_0),
        apply_actions(fs, regenerated->Ok_0) == fs.insert(
            manifest_path_of(out),
            manifest_text(out, deps, bin, lib)->0,
        ),
        apply_actions(fs, kept->Ok_0) == fs,
{
    let mp = manifest_path_of(out);
    let t = manifest_text(out, deps, bin, lib)->0;
    let a = regenerated->Ok_0;
    let b = first->Ok_0;
    let a0 = a.drop_last();
    assert(a0.drop_last() =~= Seq::<Action>::empty());
    assert(apply_actions(fs, a0.drop_last()) == fs);
    assert(a0.last() == a[0]);
    assert(apply_actions(fs, a0) == apply_action(fs, a[0]));
    assert(apply_action(fs, a[0]) == fs.remove(mp));
    assert(apply_actions(fs, a) == apply_action(fs.remove(mp), a[1]));
    assert(apply_actions(fs, a) =~= fs.remove(mp).insert(mp, t));
    assert(b.drop_last() =~= Seq::<Action>::empty());
    assert(apply_actions(fs.remove(mp), b.drop_last()) == fs.remove(mp));
    assert(fs.remove(mp).insert(mp, t) =~= fs.insert(mp, t));
    assert(apply_actions(fs.remove(mp), b) =~= fs.remove(mp).insert(mp, t));
}

} // verus!
