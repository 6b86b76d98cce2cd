//! Python: `requirements.txt`, `pyproject.toml` or `Pipfile`, checked against
//! `pip list` and described by `pip show`.
use vstd::prelude::*;

use crate::ecosystems::{
    decode_lossy, decode_strict, lookup, lookup_last, new_package, opt_view, pairs_view,
    push_opt, push_pair, resolve, resolved, utf8_lossy,
};
use crate::json::{self, JsonValue, json_document, json_get, json_str, parse_json};
use crate::text::{
    chars_of, line_ranges, lines, owned, pos_of, push_str, ranges_in,
    ranges_view, range_starts_with, replace_char, replaced, string_of, to_lowercase, trim,
    trim_range, unicode_lowercase, lemma_pos_of_is, ascii_lowercase, is_ascii_text,
    is_ascii_upper,
};
use crate::toml_doc::{self, TomlValue, parse_toml, toml_document, toml_get};
use crate::types::{PackageInfo, PackageModel, packages_view};

verus! {

/// The Python ecosystem: pip requirements and Python distributions.
pub struct PythonEcosystem;

/// Which Python manifest a project declares its dependencies in.
#[derive(Debug, Clone, Copy, PartialEq, Eq, Structural)]
pub enum PythonManifest {
    RequirementsTxt,
    PyprojectToml,
    Pipfile,
}

impl PythonEcosystem {
    /// Human-readable ecosystem name.
    pub fn name(&self) -> (r: &'static str)
        ensures
            r@ == "Python"@,
    {
        "Python"
    }

    /// The manifests whose presence marks a Python project, in the order in
    /// which they are preferred.
    pub fn manifest_files(&self) -> (r: Vec<&'static str>)
        ensures
            r@.len() == 3,
            r@[0]@ == "requirements.txt"@,
            r@[1]@ == "pyproject.toml"@,
            r@[2]@ == "Pipfile"@,
    {
        vec!["requirements.txt", "pyproject.toml", "Pipfile"]
    }

    /// File extensions of Python sources.
    pub fn source_extensions(&self) -> (r: Vec<&'static str>)
        ensures
            r@.len() == 1,
            r@[0]@ == "py"@,
    {
        vec!["py"]
    }

    /// Regex patterns whose first group captures an imported top-level
    /// module: `import pkg` and `from pkg import ...`.
    pub fn import_patterns(&self) -> (r: Vec<String>)
        ensures
            r@.len() == 2,
            r@[0]@ == "(?m)^\\s*import\\s+([a-zA-Z_][a-zA-Z0-9_]*)"@,
            r@[1]@ == "(?m)^\\s*from\\s+([a-zA-Z_][a-zA-Z0-9_]*)"@,
    {
        let mut r: Vec<String> = Vec::new();
        r.push(owned("(?m)^\\s*import\\s+([a-zA-Z_][a-zA-Z0-9_]*)"));
        r.push(owned("(?m)^\\s*from\\s+([a-zA-Z_][a-zA-Z0-9_]*)"));
        r
    }

    /// The packages for the declared (name, requirement) pairs, each looked
    /// up by its normalised name among the installed distributions
    /// `installed` and the `pip show` summaries `descriptions`.
    pub fn check_packages(
        &self,
        declared: &Vec<(String, String)>,
        installed: &Vec<(String, String)>,
        descriptions: &Vec<(String, String)>,
    ) -> (r: Vec<PackageInfo>)
        ensures
            packages_view(r@) == pairs_view(declared@).map_values(
                |d: (Seq<char>, Seq<char>)|
                    python_package(d, pairs_view(installed@), pairs_view(descriptions@)),
            ),
    {
        let mut out: Vec<PackageInfo> = Vec::new();
        let mut i: usize = 0;
        while i < declared.len()
            invariant
                0 <= i <= declared.len(),
                packages_view(out@) == pairs_view(declared@).take(i as int).map_values(
                    |d: (Seq<char>, Seq<char>)|
                        python_package(d, pairs_view(installed@), pairs_view(descriptions@)),
                ),
            decreases declared.len() - i,
        {
            let name = &declared[i].0;
            let normalized = normalize_name(name.as_str());
            let (status, version) = resolve(lookup_last(installed, &normalized), &declared[i].1);
            let description = match lookup_last(descriptions, &normalized) {
                Some(d) => d,
                None => owned("N/A"),
            };
            let lower = to_lowercase(name.as_str());
            let alias = replaced(lower.as_str(), '-', '_');
            let p = new_package(name.clone(), description, "Python", version, status, alias);
            let ghost old_out = out@;
            out.push(p);
            proof {
                let f = |d: (Seq<char>, Seq<char>)|
                    python_package(d, pairs_view(installed@), pairs_view(descriptions@));
                assert(pairs_view(declared@).take(i + 1) =~= pairs_view(declared@).take(
                    i as int,
                ).push(pairs_view(declared@)[i as int]));
                assert(packages_view(out@) =~= packages_view(old_out).push(p@));
                assert(packages_view(out@) =~= pairs_view(declared@).take(i + 1).map_values(f));
            }
            i = i + 1;
        }
        assert(pairs_view(declared@).take(declared.len() as int) =~= pairs_view(declared@));
        out
    }
}

/// The package record of a declared requirement `d` (name, requirement).
pub open spec fn python_package(
    d: (Seq<char>, Seq<char>),
    installed: Seq<(Seq<char>, Seq<char>)>,
    descriptions: Seq<(Seq<char>, Seq<char>)>,
) -> PackageModel {
    let n = normalized(d.0);
    let (status, version) = resolved(lookup(installed, n), d.1);
    PackageModel {
        name: d.0,
        description: match lookup(descriptions, n) {
            Some(x) => x,
            None => "N/A"@,
        },
        language: "Python"@,
        version,
        status,
        used_in_files: 0,
        scanned_files: 0,
        import_aliases: seq![replace_char(lowercased(d.0), '-', '_')],
    }
}

// ---------------------------------------------------------------------------
// Names
// ---------------------------------------------------------------------------

pub open spec fn name_separator(c: char) -> bool {
    c == '-' || c == '_' || c == '.'
}

/// `s` with each run of `-`, `_` and `.` replaced by a single `-`.
pub open spec fn collapse_separators(s: Seq<char>) -> Seq<char>
    decreases s.len(),
{
    if s.len() == 0 {
        seq![]
    } else {
        let prev = collapse_separators(s.drop_last());
        if !name_separator(s.last()) {
            prev.push(s.last())
        } else if s.len() >= 2 && name_separator(s[s.len() - 2]) {
            prev
        } else {
            prev.push('-')
        }
    }
}

/// What `str::to_lowercase` gives for `s`, as far as its contract states it:
/// ASCII lowercasing on ASCII text, the Unicode mapping otherwise.
pub open spec fn lowercased(s: Seq<char>) -> Seq<char> {
    if is_ascii_text(s) {
        ascii_lowercase(s)
    } else {
        unicode_lowercase(s)
    }
}

/// The normalized form of a distribution name (PEP 503): lowercased, with
/// each run of `-`, `_` and `.` replaced by a single `-`.
pub open spec fn normalized(s: Seq<char>) -> Seq<char> {
    collapse_separators(lowercased(s))
}

/// Normalize a distribution name as PEP 503 does: lowercase it and replace
/// each run of `-`, `_` and `.` by a single `-`.
pub fn normalize_name(name: &str) -> (r: String)
    ensures
        r@ == normalized(name@),
        forall|j: int| 0 <= j < r@.len() ==> #[trigger] r@[j] != '_' && r@[j] != '.',
        forall|j: int| 0 <= j < r@.len() - 1 ==> !(#[trigger] r@[j] == '-' && r@[j + 1] == '-'),
        is_ascii_text(name@) ==> is_ascii_text(r@) && normalized(r@) == r@,
{
    let lower = to_lowercase(name);
    let v = chars_of(lower.as_str());
    let mut r = String::new();
    let mut after_separator = false;
    let mut i: usize = 0;
    while i < v.len()
        invariant
            0 <= i <= v.len(),
            v@ == lowercased(name@),
            r@ == collapse_separators(v@.take(i as int)),
            after_separator == (i > 0 && name_separator(v@[i - 1])),
        decreases v.len() - i,
    {
        let c = v[i];
        proof {
            assert(v@.take(i + 1).drop_last() =~= v@.take(i as int));
        }
        if c == '-' || c == '_' || c == '.' {
            if !after_separator {
                r.push('-');
            }
            after_separator = true;
        } else {
            r.push(c);
            after_separator = false;
        }
        i = i + 1;
    }
    assert(v@.take(v.len() as int) =~= v@);
    proof {
        lemma_collapse_shape(v@);
        if is_ascii_text(name@) {
            let l = ascii_lowercase(name@);
            lemma_ascii_lowercase(name@);
            lemma_collapse_ascii(l);
            lemma_ascii_lowercase(r@);
            lemma_collapse_fixed(r@);
        }
    }
    r
}

/// A collapsed name has no `_` or `.`, and no two `-` in a row; it ends in
/// `-` exactly when the text ended in a separator.
pub proof fn lemma_collapse_shape(t: Seq<char>)
    ensures
        ({
            let c = collapse_separators(t);
            &&& forall|j: int| 0 <= j < c.len() ==> #[trigger] c[j] != '_' && c[j] != '.'
            &&& forall|j: int| 0 <= j < c.len() - 1 ==> !(#[trigger] c[j] == '-' && c[j + 1] == '-')
            &&& t.len() > 0 ==> c.len() > 0 && (c.last() == '-' <==> name_separator(t.last()))
            &&& t.len() == 0 ==> c.len() == 0
        }),
    decreases t.len(),
{
    if t.len() > 0 {
        lemma_collapse_shape(t.drop_last());
        let p = t.drop_last();
        if t.len() >= 2 {
            assert(p.last() == t[t.len() - 2]);
        }
    }
}

/// Collapsing keeps text ASCII, and keeps it free of capital letters.
pub proof fn lemma_collapse_ascii(t: Seq<char>)
    requires
        is_ascii_text(t),
    ensures
        is_ascii_text(collapse_separators(t)),
        (forall|j: int| 0 <= j < t.len() ==> !is_ascii_upper(#[trigger] t[j])) ==> (forall|j: int|
            0 <= j < collapse_separators(t).len() ==> !is_ascii_upper(
                #[trigger] collapse_separators(t)[j],
            )),
    decreases t.len(),
{
    if t.len() > 0 {
        let p = t.drop_last();
        assert(is_ascii_text(p)) by {
            assert forall|i: int| 0 <= i < p.len() implies (#[trigger] p[i] as u32) < 128 by {
                assert(p[i] == t[i]);
            }
        }
        lemma_collapse_ascii(p);
        assert(t[t.len() - 1] as u32 == t.last() as u32);
    }
}

/// A text with no `_` or `.` and no two `-` in a row is its own collapse.
pub proof fn lemma_collapse_fixed(t: Seq<char>)
    requires
        forall|j: int| 0 <= j < t.len() ==> #[trigger] t[j] != '_' && t[j] != '.',
        forall|j: int| 0 <= j < t.len() - 1 ==> !(#[trigger] t[j] == '-' && t[j + 1] == '-'),
    ensures
        collapse_separators(t) == t,
    decreases t.len(),
{
    if t.len() > 0 {
        let p = t.drop_last();
        assert forall|j: int| 0 <= j < p.len() implies #[trigger] p[j] != '_' && p[j] != '.' by {
            assert(p[j] == t[j]);
        }
        assert forall|j: int| 0 <= j < p.len() - 1 implies !(#[trigger] p[j] == '-' && p[j + 1]
            == '-') by {
            assert(p[j] == t[j] && p[j + 1] == t[j + 1]);
        }
        lemma_collapse_fixed(p);
        if t.len() >= 2 {
            assert(t[t.len() - 2] == t[(t.len() - 2) as int]);
        }
        assert(p.push(t.last()) =~= t);
    }
}

/// Texts that differ only in which separator stands where collapse alike.
pub proof fn lemma_collapse_agree(x: Seq<char>, y: Seq<char>)
    requires
        x.len() == y.len(),
        forall|i: int|
            0 <= i < x.len() ==> (name_separator(#[trigger] x[i]) && name_separator(y[i])) || x[i]
                == y[i],
    ensures
        collapse_separators(x) == collapse_separators(y),
    decreases x.len(),
{
    if x.len() > 0 {
        let (px, py) = (x.drop_last(), y.drop_last());
        assert forall|i: int| 0 <= i < px.len() implies (name_separator(#[trigger] px[i])
            && name_separator(py[i])) || px[i] == py[i] by {
            assert(px[i] == x[i] && py[i] == y[i]);
        }
        lemma_collapse_agree(px, py);
        assert(x.last() == x[x.len() - 1] && y.last() == y[y.len() - 1]);
        if x.len() >= 2 {
            assert(x[(x.len() - 2) as int] == x[x.len() - 2]);
            let k = x.len() - 2;
            assert((name_separator(x[k]) && name_separator(y[k])) || x[k] == y[k]);
        }
    }
}

/// ASCII lowercasing keeps text ASCII, leaves no capital letter, and leaves
/// text without capital letters as it is.
pub proof fn lemma_ascii_lowercase(s: Seq<char>)
    requires
        is_ascii_text(s),
    ensures
        is_ascii_text(ascii_lowercase(s)),
        forall|j: int| 0 <= j < s.len() ==> !is_ascii_upper(#[trigger] ascii_lowercase(s)[j]),
        (forall|j: int| 0 <= j < s.len() ==> !is_ascii_upper(#[trigger] s[j])) ==> ascii_lowercase(
            s,
        ) == s,
{
    let l = ascii_lowercase(s);
    assert forall|j: int| 0 <= j < s.len() implies (#[trigger] l[j] as u32) < 128 && !is_ascii_upper(
        l[j],
    ) by {
        let c = s[j];
        if is_ascii_upper(c) {
            assert(l[j] == ((c as u32) + 32) as char);
            assert(((c as u32) + 32) as char as u32 == (c as u32) + 32);
        }
    }
    if forall|j: int| 0 <= j < s.len() ==> !is_ascii_upper(#[trigger] s[j]) {
        assert(l =~= s);
    }
}

// ---------------------------------------------------------------------------
// Requirement specifiers
// ---------------------------------------------------------------------------

pub open spec fn is_requirement_separator(c: char) -> bool {
    c == '=' || c == '>' || c == '<' || c == '!' || c == '~' || c == ';' || c == '['
}

pub open spec fn requirement_separator_class() -> spec_fn(char) -> bool {
    |c: char| is_requirement_separator(c)
}

/// A requirement `name<op>version...` split into the trimmed name and the
/// trimmed rest ("*" when empty); none when the name is empty.
pub open spec fn requirement(s: Seq<char>) -> Option<(Seq<char>, Seq<char>)> {
    let e = pos_of(s, requirement_separator_class());
    let name = trim(s.take(e as int));
    let version = trim(s.skip(e as int));
    if name.len() == 0 {
        None
    } else {
        Some((name, if version.len() == 0 { "*"@ } else { version }))
    }
}

fn requirement_range(v: &Vec<char>, lo: usize, hi: usize) -> (r: Option<(String, String)>)
    requires
        lo <= hi <= v.len(),
    ensures
        match r {
            Some(p) => requirement(v@.subrange(lo as int, hi as int)) == Some((p.0@, p.1@)),
            None => requirement(v@.subrange(lo as int, hi as int)) is None,
        },
{
    let ghost s = v@.subrange(lo as int, hi as int);
    let mut e = lo;
    while e < hi && !(v[e] == '=' || v[e] == '>' || v[e] == '<' || v[e] == '!' || v[e] == '~'
        || v[e] == ';' || v[e] == '[')
        invariant
            lo <= e <= hi <= v.len(),
            forall|j: int| lo <= j < e ==> !is_requirement_separator(#[trigger] v@[j]),
        decreases hi - e,
    {
        e = e + 1;
    }
    proof {
        assert forall|j: int| 0 <= j < e - lo implies !requirement_separator_class()(
            #[trigger] s[j],
        ) by {
            assert(s[j] == v@[lo + j]);
        }
        lemma_pos_of_is(s, requirement_separator_class(), e - lo);
        assert(s.take(e - lo) =~= v@.subrange(lo as int, e as int));
        assert(s.skip(e - lo) =~= v@.subrange(e as int, hi as int));
    }
    let (na, nb) = trim_range(v, lo, e);
    let (va, vb) = trim_range(v, e, hi);
    if na == nb {
        return None;
    }
    let version = if va == vb {
        owned("*")
    } else {
        string_of(v, va, vb)
    };
    Some((string_of(v, na, nb), version))
}

/// One line of `requirements.txt`, unless it is blank, a comment or an option.
pub open spec fn requirements_line(line: Seq<char>) -> Option<(Seq<char>, Seq<char>)> {
    let t = trim(line);
    if t.len() == 0 || t[0] == '#' || t[0] == '-' {
        None
    } else {
        requirement(t)
    }
}

pub open spec fn requirements_fold(ls: Seq<Seq<char>>) -> Seq<(Seq<char>, Seq<char>)>
    decreases ls.len(),
{
    if ls.len() == 0 {
        seq![]
    } else {
        push_opt(requirements_fold(ls.drop_last()), requirements_line(ls.last()))
    }
}

/// Parse `requirements.txt` lines (e.g. `flask==2.3.0`, `requests>=2.28`).
pub fn parse_requirements_txt(content: &str) -> (r: Vec<(String, String)>)
    ensures
        pairs_view(r@) == requirements_fold(lines(content@)),
{
    let v = chars_of(content);
    let ls = line_ranges(&v);
    let mut out: Vec<(String, String)> = Vec::new();
    let mut i: usize = 0;
    while i < ls.len()
        invariant
            0 <= i <= ls.len(),
            v@ == content@,
            ranges_in(v@, ls@),
            ranges_view(v@, ls@) == lines(v@),
            pairs_view(out@) == requirements_fold(ranges_view(v@, ls@).take(i as int)),
        decreases ls.len() - i,
    {
        let (lo, hi) = ls[i];
        proof {
            assert(ranges_view(v@, ls@).take(i + 1).drop_last() =~= ranges_view(v@, ls@).take(
                i as int,
            ));
            assert(ranges_view(v@, ls@)[i as int] == v@.subrange(lo as int, hi as int));
        }
        let (a, b) = trim_range(&v, lo, hi);
        if !(a == b || v[a] == '#' || v[a] == '-') {
            match requirement_range(&v, a, b) {
                Some((x, y)) => push_pair(&mut out, x, y),
                None => {},
            }
        }
        i = i + 1;
    }
    assert(ranges_view(v@, ls@).take(ls.len() as int) =~= lines(v@));
    out
}

/// The requirement that a string spec names.
pub fn parse_requirement(spec: &str) -> (r: Option<(String, String)>)
    ensures
        match r {
            Some(p) => requirement(spec@) == Some((p.0@, p.1@)),
            None => requirement(spec@) is None,
        },
{
    let v = chars_of(spec);
    assert(v@.subrange(0, v@.len() as int) =~= v@);
    requirement_range(&v, 0, v.len())
}

// ---------------------------------------------------------------------------
// pyproject.toml and Pipfile
// ---------------------------------------------------------------------------

/// The requirements of a list of values, strings only.
pub open spec fn requirement_items(items: Seq<TomlValue>) -> Seq<(Seq<char>, Seq<char>)>
    decreases items.len(),
{
    if items.len() == 0 {
        seq![]
    } else {
        let rest = requirement_items(items.drop_last());
        match items.last() {
            TomlValue::Str(s) => push_opt(rest, requirement(s@)),
            _ => rest,
        }
    }
}

/// The PEP 621 `[project] dependencies` of a pyproject document.
pub open spec fn pyproject_requirements(doc: TomlValue) -> Seq<(Seq<char>, Seq<char>)> {
    match toml_get(doc, "project"@) {
        Some(p) => match toml_get(p, "dependencies"@) {
            Some(TomlValue::Array(items)) => requirement_items(items@),
            _ => seq![],
        },
        None => seq![],
    }
}

/// Parse PEP 621 `[project] dependencies` from `pyproject.toml`.  On a TOML
/// error, its message.
pub fn parse_pyproject_toml(content: &str) -> (r: Result<Vec<(String, String)>, String>)
    ensures
        match toml_document(content@) {
            Ok(doc) => r matches Ok(v) && pairs_view(v@) == pyproject_requirements(doc),
            Err(m) => r matches Err(e) && e@ == m,
        },
{
    let doc = match parse_toml(content) {
        Ok(d) => d,
        Err(m) => return Err(m),
    };
    let mut out: Vec<(String, String)> = Vec::new();
    let project = toml_doc::get(&doc, "project");
    match project {
        Some(p) => {
            match toml_doc::get(p, "dependencies") {
                Some(TomlValue::Array(items)) => {
                    let mut i: usize = 0;
                    while i < items.len()
                        invariant
                            0 <= i <= items.len(),
                            pairs_view(out@) == requirement_items(items@.take(i as int)),
                        decreases items.len() - i,
                    {
                        assert(items@.take(i + 1).drop_last() =~= items@.take(i as int));
                        match &items[i] {
                            TomlValue::Str(s) => match parse_requirement(s.as_str()) {
                                Some((x, y)) => push_pair(&mut out, x, y),
                                None => {},
                            },
                            _ => {},
                        }
                        i = i + 1;
                    }
                    assert(items@.take(items.len() as int) =~= items@);
                },
                _ => {},
            }
        },
        None => {},
    }
    Ok(out)
}

/// The `[packages]` of a Pipfile: each key with its string value, or "*".
pub open spec fn pipfile_entries(entries: Seq<(String, TomlValue)>) -> Seq<(Seq<char>, Seq<char>)> {
    entries.map_values(
        |e: (String, TomlValue)|
            (
                e.0@,
                match e.1 {
                    TomlValue::Str(s) => s@,
                    _ => "*"@,
                },
            ),
    )
}

pub open spec fn pipfile_packages(doc: TomlValue) -> Seq<(Seq<char>, Seq<char>)> {
    match toml_get(doc, "packages"@) {
        Some(TomlValue::Table(entries)) => pipfile_entries(entries@),
        _ => seq![],
    }
}

/// Minimal Pipfile parsing: the keys of `[packages]`.  On a TOML error, its
/// message.
pub fn parse_pipfile(content: &str) -> (r: Result<Vec<(String, String)>, String>)
    ensures
        match toml_document(content@) {
            Ok(doc) => r matches Ok(v) && pairs_view(v@) == pipfile_packages(doc),
            Err(m) => r matches Err(e) && e@ == m,
        },
{
    let doc = match parse_toml(content) {
        Ok(d) => d,
        Err(m) => return Err(m),
    };
    let mut out: Vec<(String, String)> = Vec::new();
    match toml_doc::get(&doc, "packages") {
        Some(TomlValue::Table(entries)) => {
            let mut i: usize = 0;
            while i < entries.len()
                invariant
                    0 <= i <= entries.len(),
                    pairs_view(out@) == pipfile_entries(entries@.take(i as int)),
                decreases entries.len() - i,
            {
                let ver = match &entries[i].1 {
                    TomlValue::Str(s) => s.clone(),
                    _ => owned("*"),
                };
                push_pair(&mut out, entries[i].0.clone(), ver);
                assert(pipfile_entries(entries@.take(i + 1)) =~= pipfile_entries(
                    entries@.take(i as int),
                ).push(pipfile_entries(entries@)[i as int]));
                i = i + 1;
            }
            assert(entries@.take(entries.len() as int) =~= entries@);
        },
        _ => {},
    }
    Ok(out)
}

/// The first manifest that exists, in order of preference.
pub open spec fn chosen_manifest(requirements: bool, pyproject: bool, pipfile: bool) -> Option<
    PythonManifest,
> {
    if requirements {
        Some(PythonManifest::RequirementsTxt)
    } else if pyproject {
        Some(PythonManifest::PyprojectToml)
    } else if pipfile {
        Some(PythonManifest::Pipfile)
    } else {
        None
    }
}

/// Pick the manifest to read from which of the three exist.
pub fn select_manifest(requirements: bool, pyproject: bool, pipfile: bool) -> (r: Option<
    PythonManifest,
>)
    ensures
        r == chosen_manifest(requirements, pyproject, pipfile),
{
    if requirements {
        Some(PythonManifest::RequirementsTxt)
    } else if pyproject {
        Some(PythonManifest::PyprojectToml)
    } else if pipfile {
        Some(PythonManifest::Pipfile)
    } else {
        None
    }
}

/// Collect declared (name, version-specifier) pairs from the chosen
/// manifest's text.  Only the TOML manifests can fail, with the message of
/// their parse error.
pub fn parse_declared_deps(manifest: PythonManifest, content: &str) -> (r: Result<
    Vec<(String, String)>,
    String,
>)
    ensures
        manifest == PythonManifest::RequirementsTxt ==> (r matches Ok(v) && pairs_view(v@)
            == requirements_fold(lines(content@))),
        manifest == PythonManifest::PyprojectToml ==> match toml_document(content@) {
            Ok(doc) => r matches Ok(v) && pairs_view(v@) == pyproject_requirements(doc),
            Err(m) => r matches Err(e) && e@ == m,
        },
        manifest == PythonManifest::Pipfile ==> match toml_document(content@) {
            Ok(doc) => r matches Ok(v) && pairs_view(v@) == pipfile_packages(doc),
            Err(m) => r matches Err(e) && e@ == m,
        },
{
    match manifest {
        PythonManifest::RequirementsTxt => Ok(parse_requirements_txt(content)),
        PythonManifest::PyprojectToml => parse_pyproject_toml(content),
        PythonManifest::Pipfile => parse_pipfile(content),
    }
}

// ---------------------------------------------------------------------------
// pip output
// ---------------------------------------------------------------------------

/// The (normalised name, version) pairs of the entries of a `pip list
/// --format=json` array that have both as strings.
pub open spec fn pip_entries(items: Seq<JsonValue>) -> Seq<(Seq<char>, Seq<char>)>
    decreases items.len(),
{
    if items.len() == 0 {
        seq![]
    } else {
        let rest = pip_entries(items.drop_last());
        let e = items.last();
        match (json_str(json_get(e, "name"@)), json_str(json_get(e, "version"@))) {
            (Some(n), Some(v)) => rest.push((normalized(n), v)),
            _ => rest,
        }
    }
}

/// What `pip list --format=json` printed, read as (normalised name, version)
/// pairs; nothing when the output is not UTF-8 or not a JSON array.
pub open spec fn pip_list_pairs(stdout: Seq<u8>) -> Seq<(Seq<char>, Seq<char>)> {
    if !vstd::utf8::valid_utf8(stdout) {
        seq![]
    } else {
        match json_document(vstd::utf8::decode_utf8(stdout)) {
            Ok(JsonValue::Array(items)) => pip_entries(items@),
            _ => seq![],
        }
    }
}

/// The installed distributions that `pip list --format=json` printed.
pub fn installed_pip_packages(stdout: Vec<u8>) -> (r: Vec<(String, String)>)
    ensures
        pairs_view(r@) == pip_list_pairs(stdout@),
{
    let ghost bytes = stdout@;
    let mut out: Vec<(String, String)> = Vec::new();
    let text = match decode_strict(stdout) {
        Some(t) => t,
        None => return out,
    };
    let doc = match parse_json(text.as_str()) {
        Ok(d) => d,
        Err(_) => return out,
    };
    match &doc {
        JsonValue::Array(items) => {
            let mut i: usize = 0;
            while i < items.len()
                invariant
                    0 <= i <= items.len(),
                    pairs_view(out@) == pip_entries(items@.take(i as int)),
                decreases items.len() - i,
            {
                assert(items@.take(i + 1).drop_last() =~= items@.take(i as int));
                let e = &items[i];
                match (json::as_str(json::get(e, "name")), json::as_str(json::get(e, "version"))) {
                    (Some(n), Some(v)) => push_pair(&mut out, normalize_name(n.as_str()), v.clone()),
                    _ => {},
                }
                i = i + 1;
            }
            assert(items@.take(items.len() as int) =~= items@);
        },
        _ => {},
    }
    out
}

/// State after some lines of `pip show` output: the (normalised name,
/// summary) pairs found and the name of the block being read.
pub open spec fn pip_show_step(
    st: (Seq<(Seq<char>, Seq<char>)>, Option<Seq<char>>),
    line: Seq<char>,
) -> (Seq<(Seq<char>, Seq<char>)>, Option<Seq<char>>) {
    if "Name: "@.is_prefix_of(line) {
        (st.0, Some(normalized(trim(line.skip("Name: "@.len() as int)))))
    } else if "Summary: "@.is_prefix_of(line) {
        let s = trim(line.skip("Summary: "@.len() as int));
        match st.1 {
            Some(n) => if s.len() != 0 {
                (st.0.push((n, s)), st.1)
            } else {
                st
            },
            None => st,
        }
    } else {
        st
    }
}

pub open spec fn pip_show_fold(ls: Seq<Seq<char>>) -> (
    Seq<(Seq<char>, Seq<char>)>,
    Option<Seq<char>>,
)
    decreases ls.len(),
{
    if ls.len() == 0 {
        (seq![], None)
    } else {
        pip_show_step(pip_show_fold(ls.drop_last()), ls.last())
    }
}

/// The (normalised name, summary) pairs of `pip show` output, decoded as
/// `String::from_utf8_lossy` does.  A later pair for the same name takes
/// precedence in lookups.
pub fn batch_pip_descriptions(stdout: &[u8]) -> (r: Vec<(String, String)>)
    ensures
        pairs_view(r@) == pip_show_fold(lines(utf8_lossy(stdout@))).0,
{
    let text = decode_lossy(stdout);
    let v = chars_of(text.as_str());
    let ls = line_ranges(&v);
    let mut out: Vec<(String, String)> = Vec::new();
    let mut current: Option<String> = None;
    let mut i: usize = 0;
    proof {
        reveal_strlit("Name: ");
        reveal_strlit("Summary: ");
    }
    while i < ls.len()
        invariant
            0 <= i <= ls.len(),
            v@ == utf8_lossy(stdout@),
            ranges_in(v@, ls@),
            ranges_view(v@, ls@) == lines(v@),
            (pairs_view(out@), opt_view(current)) == pip_show_fold(
                ranges_view(v@, ls@).take(i as int),
            ),
            "Name: "@.len() == 6,
            "Summary: "@.len() == 9,
        decreases ls.len() - i,
    {
        let (lo, hi) = ls[i];
        proof {
            assert(ranges_view(v@, ls@).take(i + 1).drop_last() =~= ranges_view(v@, ls@).take(
                i as int,
            ));
            assert(ranges_view(v@, ls@)[i as int] == v@.subrange(lo as int, hi as int));
        }
        if range_starts_with(&v, lo, hi, "Name: ") {
            let (a, b) = trim_range(&v, lo + 6, hi);
            proof {
                assert(v@.subrange(lo + 6, hi as int) =~= v@.subrange(lo as int, hi as int).skip(
                    6,
                ));
            }
            let n = string_of(&v, a, b);
            current = Some(normalize_name(n.as_str()));
        } else if range_starts_with(&v, lo, hi, "Summary: ") {
            let (a, b) = trim_range(&v, lo + 9, hi);
            proof {
                assert(v@.subrange(lo + 9, hi as int) =~= v@.subrange(lo as int, hi as int).skip(
                    9,
                ));
            }
            match &current {
                Some(n) => {
                    if a != b {
                        push_pair(&mut out, n.clone(), string_of(&v, a, b));
                    }
                },
                None => {},
            }
        }
        i = i + 1;
    }
    assert(ranges_view(v@, ls@).take(ls.len() as int) =~= lines(v@));
    out
}

} // verus!
