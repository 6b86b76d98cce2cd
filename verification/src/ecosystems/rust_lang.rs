//! Rust: the dependency tables of `Cargo.toml`, checked against `Cargo.lock`.
use vstd::prelude::*;

use crate::ecosystems::{
    lookup, lookup_last, new_package, pairs_view, push_pair, resolve, resolved,
};
use crate::text::{owned, replace_char, replaced};
use crate::toml_doc::{self, TomlValue, parse_toml, toml_document, toml_get, toml_str};
use crate::types::{PackageInfo, PackageModel, packages_view};

verus! {

/// The Rust ecosystem: Cargo manifests and crates.
pub struct RustEcosystem;

impl RustEcosystem {
    /// Human-readable ecosystem name.
    pub fn name(&self) -> (r: &'static str)
        ensures
            r@ == "Rust"@,
    {
        "Rust"
    }

    /// The manifest whose presence marks a Rust project.
    pub fn manifest_files(&self) -> (r: Vec<&'static str>)
        ensures
            r@.len() == 1,
            r@[0]@ == "Cargo.toml"@,
    {
        vec!["Cargo.toml"]
    }

    /// File extensions of Rust sources.
    pub fn source_extensions(&self) -> (r: Vec<&'static str>)
        ensures
            r@.len() == 1,
            r@[0]@ == "rs"@,
    {
        vec!["rs"]
    }

    /// Regex patterns whose first group captures a used crate: `use
    /// krate::...` and `extern crate krate`.
    pub fn import_patterns(&self) -> (r: Vec<String>)
        ensures
            r@.len() == 2,
            r@[0]@ == "(?m)^\\s*use\\s+([a-zA-Z_][a-zA-Z0-9_]*)::"@,
            r@[1]@ == "(?m)^\\s*extern\\s+crate\\s+([a-zA-Z_][a-zA-Z0-9_]*)"@,
    {
        let mut r: Vec<String> = Vec::new();
        r.push(owned("(?m)^\\s*use\\s+([a-zA-Z_][a-zA-Z0-9_]*)::"));
        r.push(owned("(?m)^\\s*extern\\s+crate\\s+([a-zA-Z_][a-zA-Z0-9_]*)"));
        r
    }

    /// The packages that a `Cargo.toml` text declares, each looked up among
    /// the locked versions `locked` (name, version).  On a TOML error, its
    /// message.
    pub fn check_packages(&self, cargo_toml: &str, locked: &Vec<(String, String)>) -> (r: Result<
        Vec<PackageInfo>,
        String,
    >)
        ensures
            match toml_document(cargo_toml@) {
                Ok(doc) => r matches Ok(v) && packages_view(v@) == cargo_dependencies(doc).map_values(
                    |d: (Seq<char>, Seq<char>)| rust_package(d, pairs_view(locked@)),
                ),
                Err(m) => r matches Err(e) && e@ == m,
            },
    {
        let doc = match parse_toml(cargo_toml) {
            Ok(d) => d,
            Err(m) => return Err(m),
        };
        let declared = declared_dependencies(&doc);
        let mut out: Vec<PackageInfo> = Vec::new();
        let mut i: usize = 0;
        while i < declared.len()
            invariant
                0 <= i <= declared.len(),
                packages_view(out@) == pairs_view(declared@).take(i as int).map_values(
                    |d: (Seq<char>, Seq<char>)| rust_package(d, pairs_view(locked@)),
                ),
            decreases declared.len() - i,
        {
            let name = &declared[i].0;
            let (status, version) = resolve(lookup_last(locked, name), &declared[i].1);
            let alias = replaced(name.as_str(), '-', '_');
            let p = new_package(name.clone(), owned("N/A"), "Rust", version, status, alias);
            let ghost old_out = out@;
            out.push(p);
            proof {
                let f = |d: (Seq<char>, Seq<char>)| rust_package(d, pairs_view(locked@));
                assert(pairs_view(declared@).take(i + 1) =~= pairs_view(declared@).take(
                    i as int,
                ).push(pairs_view(declared@)[i as int]));
                assert(packages_view(out@) =~= packages_view(old_out).push(p@));
                assert(packages_view(out@) =~= pairs_view(declared@).take(i + 1).map_values(f));
            }
            i = i + 1;
        }
        assert(pairs_view(declared@).take(declared.len() as int) =~= pairs_view(declared@));
        Ok(out)
    }
}

/// The package record of a declared crate `d` (name, requirement).
pub open spec fn rust_package(d: (Seq<char>, Seq<char>), locked: Seq<(Seq<char>, Seq<char>)>) -> PackageModel {
    let (status, version) = resolved(lookup(locked, d.0), d.1);
    PackageModel {
        name: d.0,
        description: "N/A"@,
        language: "Rust"@,
        version,
        status,
        used_in_files: 0,
        scanned_files: 0,
        import_aliases: seq![replace_char(d.0, '-', '_')],
    }
}

// ---------------------------------------------------------------------------
// Cargo.toml
// ---------------------------------------------------------------------------

/// The version that a dependency entry asks for: the string itself, the
/// `version` key of a table, or "*".
pub open spec fn version_of(v: TomlValue) -> Seq<char> {
    match v {
        TomlValue::Str(s) => s@,
        TomlValue::Table(_) => match toml_str(toml_get(v, "version"@)) {
            Some(s) => s,
            None => "*"@,
        },
        _ => "*"@,
    }
}

/// Extract the version string from a TOML dependency value, a plain string
/// (`"1.0"`) or a table (`{ version = "1.0", ... }`).
pub fn extract_version(val: &TomlValue) -> (r: String)
    ensures
        r@ == version_of(*val),
{
    match val {
        TomlValue::Str(s) => s.clone(),
        TomlValue::Table(_) => match toml_doc::get(val, "version") {
            Some(TomlValue::Str(s)) => s.clone(),
            _ => owned("*"),
        },
        _ => owned("*"),
    }
}

/// The (name, version) entries of one dependency table of the manifest.
pub open spec fn section_dependencies(doc: TomlValue, section: Seq<char>) -> Seq<
    (Seq<char>, Seq<char>),
> {
    match toml_get(doc, section) {
        Some(TomlValue::Table(entries)) => entries@.map_values(
            |e: (String, TomlValue)| (e.0@, version_of(e.1)),
        ),
        _ => seq![],
    }
}

/// The declared crates of `[dependencies]`, `[dev-dependencies]` and
/// `[build-dependencies]`, in that order.
pub open spec fn cargo_dependencies(doc: TomlValue) -> Seq<(Seq<char>, Seq<char>)> {
    section_dependencies(doc, "dependencies"@) + section_dependencies(doc, "dev-dependencies"@)
        + section_dependencies(doc, "build-dependencies"@)
}

fn push_section(out: &mut Vec<(String, String)>, doc: &TomlValue, section: &str)
    ensures
        pairs_view(final(out)@) == pairs_view(old(out)@) + section_dependencies(*doc, section@),
{
    match toml_doc::get(doc, section) {
        Some(TomlValue::Table(entries)) => {
            let ghost start = pairs_view(out@);
            let mut i: usize = 0;
            while i < entries.len()
                invariant
                    0 <= i <= entries.len(),
                    pairs_view(out@) == start + entries@.take(i as int).map_values(
                        |e: (String, TomlValue)| (e.0@, version_of(e.1)),
                    ),
                decreases entries.len() - i,
            {
                let v = extract_version(&entries[i].1);
                push_pair(out, entries[i].0.clone(), v);
                assert(entries@.take(i + 1).map_values(
                    |e: (String, TomlValue)| (e.0@, version_of(e.1)),
                ) =~= entries@.take(i as int).map_values(
                    |e: (String, TomlValue)| (e.0@, version_of(e.1)),
                ).push((entries@[i as int].0@, version_of(entries@[i as int].1))));
                i = i + 1;
            }
            assert(entries@.take(entries.len() as int) =~= entries@);
        },
        _ => {
            assert(pairs_view(out@) =~= pairs_view(out@) + Seq::<(Seq<char>, Seq<char>)>::empty());
        },
    }
}

/// The declared crates of a parsed manifest.
pub fn declared_dependencies(doc: &TomlValue) -> (r: Vec<(String, String)>)
    ensures
        pairs_view(r@) == cargo_dependencies(*doc),
{
    let mut out: Vec<(String, String)> = Vec::new();
    push_section(&mut out, doc, "dependencies");
    push_section(&mut out, doc, "dev-dependencies");
    push_section(&mut out, doc, "build-dependencies");
    assert(pairs_view(out@) =~= cargo_dependencies(*doc));
    out
}

// ---------------------------------------------------------------------------
// Cargo.lock
// ---------------------------------------------------------------------------

/// The (name, version) pairs of the `[[package]]` entries that have both.
pub open spec fn lock_packages(items: Seq<TomlValue>) -> Seq<(Seq<char>, Seq<char>)>
    decreases items.len(),
{
    if items.len() == 0 {
        seq![]
    } else {
        let rest = lock_packages(items.drop_last());
        let e = items.last();
        match (toml_str(toml_get(e, "name"@)), toml_str(toml_get(e, "version"@))) {
            (Some(n), Some(v)) => rest.push((n, v)),
            _ => rest,
        }
    }
}

/// The locked (name, version) pairs of a `Cargo.lock` text; none when it is
/// not TOML.
pub open spec fn cargo_lock_pairs(content: Seq<char>) -> Seq<(Seq<char>, Seq<char>)> {
    match toml_document(content) {
        Ok(doc) => match toml_get(doc, "package"@) {
            Some(TomlValue::Array(items)) => lock_packages(items@),
            _ => seq![],
        },
        Err(_) => seq![],
    }
}

/// Parse `Cargo.lock` into (package name, resolved version) pairs.  A later
/// pair for the same name takes precedence in lookups.
pub fn parse_cargo_lock(content: &str) -> (r: Vec<(String, String)>)
    ensures
        pairs_view(r@) == cargo_lock_pairs(content@),
{
    let mut out: Vec<(String, String)> = Vec::new();
    let doc = match parse_toml(content) {
        Ok(d) => d,
        Err(_) => return out,
    };
    match toml_doc::get(&doc, "package") {
        Some(TomlValue::Array(items)) => {
            let mut i: usize = 0;
            while i < items.len()
                invariant
                    0 <= i <= items.len(),
                    pairs_view(out@) == lock_packages(items@.take(i as int)),
                decreases items.len() - i,
            {
                assert(items@.take(i + 1).drop_last() =~= items@.take(i as int));
                let e = &items[i];
                match (toml_doc::get(e, "name"), toml_doc::get(e, "version")) {
                    (Some(TomlValue::Str(n)), Some(TomlValue::Str(v))) => push_pair(
                        &mut out,
                        n.clone(),
                        v.clone(),
                    ),
                    _ => {},
                }
                i = i + 1;
            }
            assert(items@.take(items.len() as int) =~= items@);
        },
        _ => {},
    }
    out
}

} // verus!
