//! The remap configuration: a TOML document with a mandatory `dependencies`
//! table of version strings, and any number of module remaps beside it.
use vstd::prelude::*;
use vstd::string::*;
use crate::error::CliError;
use crate::paths::{join, parent_of, join_path, parent};
use crate::unit::{PathKind, TranspileUnit};

verus! {

#[verifier::external_type_specification]
#[verifier::external_body]
pub struct ExTomlValue(toml::Value);

/// A TOML value as the configuration reads it.
#[derive(Debug, PartialEq)]
pub enum TomlItem {
    /// A string.
    Text(String),
    /// A table: its keys and values. Parsed tables come in sorted order of
    /// keys, each key once.
    Table(Vec<(String, TomlItem)>),
    /// Any other value, as its TOML text.
    Other(String),
}

/// The value that toml makes of a document, or `None` where it does not parse.
pub uninterp spec fn toml_document(text: Seq<char>) -> Option<TomlItem>;

/// Relies on the variants of `toml::Value`: a string and a table are taken
/// apart, any other value is kept as its TOML text (its `Display`).
#[verifier::external_body]
fn toml_item(v: toml::Value) -> TomlItem {
    match v {
        toml::Value::String(s) => TomlItem::Text(s),
        toml::Value::Table(t) => TomlItem::Table(t.into_iter().map(|(k, v)| (k, toml_item(v))).collect()),
        other => TomlItem::Other(other.to_string()),
    }
}

/// Relies on `FromStr for toml::Value` (toml 0.5): the document that the text
/// parses into, or the parser's message; the outcome depends on the text alone.
#[verifier::external_body]
fn parse_toml(text: &str) -> (r: Result<TomlItem, String>)
    ensures
        match r {
            Ok(doc) => toml_document(text@) == Some(doc),
            Err(_) => toml_document(text@) is None,
        },
{
    match text.parse::<toml::Value>() {
        Ok(v) => Ok(toml_item(v)),
        Err(e) => Err(e.to_string()),
    }
}

/// The remap configuration: dependency names with their version strings, and
/// the module remaps.
#[derive(Debug)]
pub struct RemapConfig {
    pub dependencies: Vec<(String, String)>,
    pub remaps: Vec<(String, TomlItem)>,
}

/// The first position of `key` among the keys of `es`, or -1.
pub open spec fn key_index(es: Seq<(String, TomlItem)>, key: Seq<char>) -> int
    decreases es.len(),
{
    if es.len() == 0 {
        -1
    } else {
        let r = key_index(es.drop_last(), key);
        if r >= 0 {
            r
        } else if es.last().0@ == key {
            es.len() - 1
        } else {
            -1
        }
    }
}

/// The first position in `d` whose value is not a string, or -1.
pub open spec fn first_non_text(d: Seq<(String, TomlItem)>) -> int
    decreases d.len(),
{
    if d.len() == 0 {
        -1
    } else {
        let r = first_non_text(d.drop_last());
        if r >= 0 {
            r
        } else if !(d.last().1 is Text) {
            d.len() - 1
        } else {
            -1
        }
    }
}

/// `out` holds the keys of `d`, in order, each with its string value.
pub open spec fn dep_pairs_match(out: Seq<(String, String)>, d: Seq<(String, TomlItem)>) -> bool {
    &&& out.len() == d.len()
    &&& forall|j: int|
        0 <= j < d.len() ==> (#[trigger] out[j]).0 == d[j].0 && d[j].1 == TomlItem::Text(out[j].1)
}

/// `r` is the content error for value `v` where the shape `expected` was due.
pub open spec fn is_content_error<T>(r: Result<T, CliError>, v: TomlItem, expected: Seq<char>) -> bool {
    r matches Err(CliError::TomlContentError(w, e)) && w == v && e@ == expected
}

/// What the configuration read from the document `doc` is: the document must
/// be a table, its `dependencies` entry a table, and each dependency a
/// string; the remaps are the document's other entries.
pub open spec fn remap_outcome(doc: TomlItem, r: Result<RemapConfig, CliError>) -> bool {
    match doc {
        TomlItem::Table(es) => {
            let i = key_index(es@, "dependencies"@);
            if i < 0 {
                is_content_error(r, doc, "table with a `dependencies` table"@)
            } else {
                match es@[i].1 {
                    TomlItem::Table(d) => {
                        let j = first_non_text(d@);
                        if j < 0 {
                            r matches Ok(cfg) && dep_pairs_match(cfg.dependencies@, d@)
                                && cfg.remaps@ == es@.remove(i)
                        } else {
                            is_content_error(r, d@[j].1, "String"@)
                        }
                    },
                    _ => is_content_error(r, es@[i].1, "table"@),
                }
            }
        },
        _ => is_content_error(r, doc, "table"@),
    }
}

/// Whether `a` and `b` hold the same characters.
pub fn same_text(a: &str, b: &str) -> (r: bool)
    ensures
        r == (a@ == b@),
{
    let n = a.unicode_len();
    if n != b.unicode_len() {
        return false;
    }
    let mut i: usize = 0;
    while i < n
        invariant
            i <= n,
            n == a@.len(),
            n == b@.len(),
            forall|j: int| 0 <= j < i ==> a@[j] == b@[j],
        decreases n - i,
    {
        if a.get_char(i) != b.get_char(i) {
            return false;
        }
        i = i + 1;
    }
    assert(a@ =~= b@);
    true
}

/// The first position of `key` among the keys of `es`.
fn find_key(es: &Vec<(String, TomlItem)>, key: &str) -> (r: Option<usize>)
    ensures
        match r {
            Some(i) => i < es@.len() && i == key_index(es@, key@),
            None => key_index(es@, key@) == -1,
        },
{
    let mut j: usize = 0;
    while j < es.len()
        invariant
            j <= es@.len(),
            key_index(es@.subrange(0, j as int), key@) == -1,
        decreases es@.len() - j,
    {
        assert(es@.subrange(0, j + 1).drop_last() =~= es@.subrange(0, j as int));
        if same_text(es[j].0.as_str(), key) {
            proof {
                lemma_key_index_prefix(es@, key@, j + 1);
            }
            return Some(j);
        }
        j = j + 1;
    }
    assert(es@.subrange(0, es@.len() as int) =~= es@);
    None
}

/// The position found in a prefix is the position in the whole sequence.
proof fn lemma_key_index_prefix(es: Seq<(String, TomlItem)>, key: Seq<char>, n: int)
    requires
        0 <= n <= es.len(),
        key_index(es.subrange(0, n), key) >= 0,
    ensures
        key_index(es, key) == key_index(es.subrange(0, n), key),
    decreases es.len() - n,
{
    if n < es.len() {
        assert(es.subrange(0, n + 1).drop_last() =~= es.subrange(0, n));
        lemma_key_index_prefix(es, key, n + 1);
    } else {
        assert(es.subrange(0, n) =~= es);
    }
}

proof fn lemma_first_non_text_prefix(d: Seq<(String, TomlItem)>, n: int)
    requires
        0 <= n <= d.len(),
        first_non_text(d.subrange(0, n)) >= 0,
    ensures
        first_non_text(d) == first_non_text(d.subrange(0, n)),
    decreases d.len() - n,
{
    if n < d.len() {
        assert(d.subrange(0, n + 1).drop_last() =~= d.subrange(0, n));
        lemma_first_non_text_prefix(d, n + 1);
    } else {
        assert(d.subrange(0, n) =~= d);
    }
}

proof fn lemma_all_text(d: Seq<(String, TomlItem)>)
    requires
        first_non_text(d) == -1,
    ensures
        forall|k: int| 0 <= k < d.len() ==> (#[trigger] d[k]).1 is Text,
    decreases d.len(),
{
    if d.len() > 0 {
        lemma_all_text(d.drop_last());
        assert forall|k: int| 0 <= k < d.len() implies (#[trigger] d[k]).1 is Text by {
            if k < d.len() - 1 {
                assert(d[k] == d.drop_last()[k]);
            }
        }
    }
}

/// The first position in `d` whose value is not a string.
fn find_non_text(d: &Vec<(String, TomlItem)>) -> (r: Option<usize>)
    ensures
        match r {
            Some(j) => j < d@.len() && j == first_non_text(d@),
            None => first_non_text(d@) == -1,
        },
{
    let mut j: usize = 0;
    while j < d.len()
        invariant
            j <= d@.len(),
            first_non_text(d@.subrange(0, j as int)) == -1,
        decreases d@.len() - j,
    {
        assert(d@.subrange(0, j + 1).drop_last() =~= d@.subrange(0, j as int));
        let is_text: bool = match &d[j].1 {
            TomlItem::Text(_) => true,
            _ => false,
        };
        if !is_text {
            proof {
                lemma_first_non_text_prefix(d@, j + 1);
            }
            return Some(j);
        }
        j = j + 1;
    }
    assert(d@.subrange(0, d@.len() as int) =~= d@);
    None
}

/// The keys of `d` with their string values.
fn text_pairs(d: &Vec<(String, TomlItem)>) -> (r: Vec<(String, String)>)
    requires
        first_non_text(d@) == -1,
    ensures
        dep_pairs_match(r@, d@),
{
    proof {
        lemma_all_text(d@);
    }
    let mut out: Vec<(String, String)> = Vec::new();
    let mut j: usize = 0;
    while j < d.len()
        invariant
            j <= d@.len(),
            forall|k: int| 0 <= k < d@.len() ==> (#[trigger] d@[k]).1 is Text,
            out@.len() == j,
            forall|k: int|
                0 <= k < j ==> (#[trigger] out@[k]).0 == d@[k].0 && d@[k].1 == TomlItem::Text(
                    out@[k].1,
                ),
        decreases d@.len() - j,
    {
        assert(d@[j as int].1 is Text);
        if let TomlItem::Text(s) = &d[j].1 {
            out.push((d[j].0.clone(), s.clone()));
        }
        j = j + 1;
    }
    out
}

/// The configuration held by a parsed document. The document must be a table
/// with a `dependencies` table whose values are all strings; each violation is
/// a content error naming the offending value and the expected shape.
pub fn remap_from_document(doc: TomlItem) -> (r: Result<RemapConfig, CliError>)
    ensures
        remap_outcome(doc, r),
{
    match doc {
        TomlItem::Table(mut entries) => {
            match find_key(&entries, "dependencies") {
                None => Err(
                    CliError::TomlContentError(
                        TomlItem::Table(entries),
                        String::from_str("table with a `dependencies` table"),
                    ),
                ),
                Some(i) => {
                    let (_key, value) = entries.remove(i);
                    match value {
                        TomlItem::Table(mut deps) => {
                            match find_non_text(&deps) {
                                Some(j) => {
                                    let (_name, bad) = deps.remove(j);
                                    Err(CliError::TomlContentError(bad, String::from_str("String")))
                                },
                                None => {
                                    let dependencies = text_pairs(&deps);
                                    Ok(RemapConfig { dependencies, remaps: entries })
                                },
                            }
                        },
                        other => Err(CliError::TomlContentError(other, String::from_str("table"))),
                    }
                },
            }
        },
        other => Err(CliError::TomlContentError(other, String::from_str("table"))),
    }
}

/// The configuration held by the text of a remap file.
pub fn parse_remap_config(text: &str) -> (r: Result<RemapConfig, CliError>)
    ensures
        match toml_document(text@) {
            None => r matches Err(CliError::TomlError(_)),
            Some(doc) => remap_outcome(doc, r),
        },
{
    match parse_toml(text) {
        Ok(doc) => remap_from_document(doc),
        Err(message) => Err(CliError::TomlError(message)),
    }
}

/// The name by which a remap file is found next to a transpile target.
pub open spec fn remap_file_name() -> Seq<char> {
    "Remap.toml"@
}

/// Where a remap file is looked for, in order: for a file target, its
/// directory; for a module, the module directory and then the directory that
/// holds it.
pub open spec fn remap_candidates_of(t: TranspileUnit) -> Seq<Seq<char>> {
    match t {
        TranspileUnit::File(p) => seq![join(parent_of(p@), remap_file_name())],
        TranspileUnit::Module(p) => seq![
            join(p@, remap_file_name()),
            join(parent_of(p@), remap_file_name()),
        ],
    }
}

/// The first position that holds `true`, or -1.
pub open spec fn first_present(present: Seq<bool>) -> int
    decreases present.len(),
{
    if present.len() == 0 {
        -1
    } else if present[0] {
        0
    } else if first_present(present.subrange(1, present.len() as int)) < 0 {
        -1
    } else {
        first_present(present.subrange(1, present.len() as int)) + 1
    }
}

/// `r` is the remap file chosen for `target`: an explicit file wins, and must
/// exist; otherwise, unless detection is off, the first candidate that is
/// present; otherwise none. An explicit file with detection off is refused.
pub open spec fn remap_selected(
    target: TranspileUnit,
    explicit: Option<String>,
    explicit_kind: PathKind,
    no_remap: bool,
    present: Seq<bool>,
    r: Result<Option<String>, CliError>,
) -> bool {
    match explicit {
        Some(e) => if no_remap {
            r matches Err(CliError::RedundantParameter(_))
        } else if explicit_kind == PathKind::Missing {
            r matches Err(CliError::FileOrDirectoryNotFound(q)) && q@ == e@
        } else {
            r matches Ok(Some(q)) && q@ == e@
        },
        None => if no_remap || first_present(present) < 0 {
            r matches Ok(None)
        } else {
            r matches Ok(Some(q)) && q@ == remap_candidates_of(target)[first_present(present)]
        },
    }
}

/// The paths at which a remap file for `target` is looked for, in order.
pub fn remap_candidates(target: &TranspileUnit) -> (r: Vec<String>)
    ensures
        r@.len() == remap_candidates_of(*target).len(),
        forall|k: int| 0 <= k < r@.len() ==> #[trigger] r@[k]@ == remap_candidates_of(*target)[k],
{
    let name = "Remap.toml";
    let mut r: Vec<String> = Vec::new();
    match target {
        TranspileUnit::File(p) => {
            r.push(join_path(parent(p.as_str()).as_str(), name));
        },
        TranspileUnit::Module(p) => {
            r.push(join_path(p.as_str(), name));
            r.push(join_path(parent(p.as_str()).as_str(), name));
        },
    }
    r
}

/// The remap file to use. An explicit file wins, and must exist; otherwise,
/// unless detection is switched off, the first candidate of
/// `remap_candidates` that is present (`present[k]` tells whether the k-th
/// is); otherwise none. An explicit file together with switching detection
/// off is refused.
pub fn select_remap_file(
    target: &TranspileUnit,
    explicit: &Option<String>,
    explicit_kind: PathKind,
    no_remap: bool,
    present: &Vec<bool>,
) -> (r: Result<Option<String>, CliError>)
    requires
        present@.len() == remap_candidates_of(*target).len(),
    ensures
        remap_selected(*target, *explicit, explicit_kind, no_remap, present@, r),
{
    match explicit {
        Some(path) => {
            if no_remap {
                return Err(
                    CliError::RedundantParameter(
                        String::from_str("`remap-file` cannot be used together with `no-remap`"),
                    ),
                );
            }
            let p = crate::unit::to_path(path.as_str(), explicit_kind)?;
            Ok(Some(p))
        },
        None => {
            if no_remap {
                return Ok(None);
            }
            let candidates = remap_candidates(target);
            let mut k: usize = 0;
            while k < present.len()
                invariant
                    explicit is None,
                    !no_remap,
                    k <= present@.len(),
                    present@.len() == candidates@.len(),
                    candidates@.len() == remap_candidates_of(*target).len(),
                    forall|j: int| 0 <= j < candidates@.len() ==> #[trigger] candidates@[j]@
                        == remap_candidates_of(*target)[j],
                    forall|j: int| 0 <= j < k ==> !present@[j],
                decreases present@.len() - k,
            {
                if present[k] {
                    proof {
                        lemma_first_present_at(present@, k as int);
                    }
                    return Ok(Some(candidates[k].clone()));
                }
                k = k + 1;
            }
            proof {
                lemma_first_present_at(present@, -1);
            }
            Ok(None)
        },
    }
}

proof fn lemma_first_present_at(present: Seq<bool>, k: int)
    requires
        -1 <= k < present.len(),
        k >= 0 ==> present[k],
        forall|j: int| 0 <= j < k || (k < 0 && 0 <= j < present.len()) ==> !present[j],
    ensures
        first_present(present) == k,
    decreases present.len(),
{
    if present.len() > 0 && !present[0] {
        let rest = present.subrange(1, present.len() as int);
        let k1 = if k < 0 { -1 } else { k - 1 };
        assert forall|j: int| 0 <= j < k1 || (k1 < 0 && 0 <= j < rest.len()) implies !rest[j] by {
            assert(rest[j] == present[j + 1]);
        }
        if k1 >= 0 {
            assert(rest[k1] == present[k]);
        }
        lemma_first_present_at(rest, k1);
    }
}

} // verus!
