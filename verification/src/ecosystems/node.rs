//! Node.js: the dependency objects of `package.json`, checked against the
//! `package.json` of each package under `node_modules`.
use vstd::prelude::*;

use crate::ecosystems::{new_package, pairs_view, push_pair};
use crate::json::{self, JsonValue, json_document, json_get, json_str, parse_json};
use crate::text::owned;
use crate::types::{PackageInfo, PackageModel, PackageStatus, StatusModel};

verus! {

/// The Node.js ecosystem: npm / yarn / pnpm projects.
pub struct NodeEcosystem;

impl NodeEcosystem {
    /// Human-readable ecosystem name.
    pub fn name(&self) -> (r: &'static str)
        ensures
            r@ == "Node.js"@,
    {
        "Node.js"
    }

    /// The manifest whose presence marks a Node.js project.
    pub fn manifest_files(&self) -> (r: Vec<&'static str>)
        ensures
            r@.len() == 1,
            r@[0]@ == "package.json"@,
    {
        vec!["package.json"]
    }

    /// File extensions of JavaScript and TypeScript sources.
    pub fn source_extensions(&self) -> (r: Vec<&'static str>)
        ensures
            r@.len() == 6,
            r@[0]@ == "js"@,
            r@[1]@ == "jsx"@,
            r@[2]@ == "ts"@,
            r@[3]@ == "tsx"@,
            r@[4]@ == "mjs"@,
            r@[5]@ == "cjs"@,
    {
        vec!["js", "jsx", "ts", "tsx", "mjs", "cjs"]
    }

    /// Regex patterns whose first group captures an imported package, by its
    /// package-level name (`@scope/name` for a scoped package, the part
    /// before the first `/` otherwise): ES module imports, `require(...)`
    /// and dynamic `import(...)`.
    pub fn import_patterns(&self) -> (r: Vec<String>)
        ensures
            r@.len() == 3,
            r@[0]@ == "import\\s+.*?\\s+from\\s+['\"]((?:@[^'\"/]+/)?[^'\"\\./][^'\"/]*)(?:/[^'\"]*)?['\"]"@,
            r@[1]@ == "require\\s*\\(\\s*['\"]((?:@[^'\"/]+/)?[^'\"\\./][^'\"/]*)(?:/[^'\"]*)?['\"]\\s*\\)"@,
            r@[2]@ == "import\\s*\\(\\s*['\"]((?:@[^'\"/]+/)?[^'\"\\./][^'\"/]*)(?:/[^'\"]*)?['\"]\\s*\\)"@,
    {
        let mut r: Vec<String> = Vec::new();
        r.push(owned("import\\s+.*?\\s+from\\s+['\"]((?:@[^'\"/]+/)?[^'\"\\./][^'\"/]*)(?:/[^'\"]*)?['\"]"));
        r.push(owned("require\\s*\\(\\s*['\"]((?:@[^'\"/]+/)?[^'\"\\./][^'\"/]*)(?:/[^'\"]*)?['\"]\\s*\\)"));
        r.push(owned("import\\s*\\(\\s*['\"]((?:@[^'\"/]+/)?[^'\"\\./][^'\"/]*)(?:/[^'\"]*)?['\"]\\s*\\)"));
        r
    }

    /// The packages for the declared (name, requirement) pairs;
    /// `installed[i]` is the text of `node_modules/<name>/package.json` for
    /// the `i`-th of them, when it could be read.
    pub fn check_packages(
        &self,
        declared: &Vec<(String, String)>,
        installed: &Vec<Option<String>>,
    ) -> (r: Vec<PackageInfo>)
        requires
            installed.len() == declared.len(),
        ensures
            r@.len() == declared@.len(),
            forall|i: int|
                0 <= i < declared@.len() ==> #[trigger] r@[i]@ == node_package(
                    pairs_view(declared@)[i],
                    crate::ecosystems::opt_view(installed@[i]),
                ),
    {
        let mut out: Vec<PackageInfo> = Vec::new();
        let mut i: usize = 0;
        while i < declared.len()
            invariant
                0 <= i <= declared.len(),
                installed.len() == declared.len(),
                out@.len() == i,
                forall|j: int|
                    0 <= j < i ==> #[trigger] out@[j]@ == node_package(
                        pairs_view(declared@)[j],
                        crate::ecosystems::opt_view(installed@[j]),
                    ),
            decreases declared.len() - i,
        {
            let name = &declared[i].0;
            let text = match &installed[i] {
                Some(t) => Some(t.as_str()),
                None => None,
            };
            let (status, version, description) = read_installed_pkg(
                text,
                declared[i].1.as_str(),
            );
            let p = new_package(name.clone(), description, "Node.js", version, status, name.clone());
            out.push(p);
            i = i + 1;
        }
        out
    }
}

/// The package record of a declared package `d` (name, requirement) whose
/// installed `package.json` reads `installed`.
pub open spec fn node_package(d: (Seq<char>, Seq<char>), installed: Option<Seq<char>>) -> PackageModel {
    let (status, version, description) = installed_info(installed, d.1);
    PackageModel {
        name: d.0,
        description,
        language: "Node.js"@,
        version,
        status,
        used_in_files: 0,
        scanned_files: 0,
        import_aliases: seq![d.0],
    }
}

// ---------------------------------------------------------------------------
// package.json
// ---------------------------------------------------------------------------

/// The (name, requirement) members of one dependency object; a requirement
/// that is not a string reads as "*".
pub open spec fn section_deps(doc: JsonValue, section: Seq<char>) -> Seq<(Seq<char>, Seq<char>)> {
    match json_get(doc, section) {
        Some(JsonValue::Object(members)) => members@.map_values(|m: (String, JsonValue)| dep_entry(m)),
        _ => seq![],
    }
}

/// A dependency member as (name, requirement); "*" when the requirement is
/// not a string.
pub open spec fn dep_entry(m: (String, JsonValue)) -> (Seq<char>, Seq<char>) {
    (
        m.0@,
        match m.1 {
            JsonValue::Str(s) => s@,
            _ => "*"@,
        },
    )
}

/// The declared packages: `dependencies`, then `devDependencies`.
pub open spec fn node_dependencies(doc: JsonValue) -> Seq<(Seq<char>, Seq<char>)> {
    section_deps(doc, "dependencies"@) + section_deps(doc, "devDependencies"@)
}

fn push_section(out: &mut Vec<(String, String)>, doc: &JsonValue, section: &str)
    ensures
        pairs_view(final(out)@) == pairs_view(old(out)@) + section_deps(*doc, section@),
{
    match json::get(doc, section) {
        Some(JsonValue::Object(members)) => {
            let ghost start = pairs_view(out@);
            let mut i: usize = 0;
            while i < members.len()
                invariant
                    0 <= i <= members.len(),
                    pairs_view(out@) == start + members@.take(i as int).map_values(
                        |m: (String, JsonValue)| dep_entry(m),
                    ),
                decreases members.len() - i,
            {
                let req = match &members[i].1 {
                    JsonValue::Str(s) => s.clone(),
                    _ => owned("*"),
                };
                push_pair(out, members[i].0.clone(), req);
                assert(members@.take(i + 1).map_values(|m: (String, JsonValue)| dep_entry(m))
                    =~= members@.take(i as int).map_values(|m: (String, JsonValue)| dep_entry(m)).push(
                    dep_entry(members@[i as int]),
                ));
                i = i + 1;
            }
            assert(members@.take(members.len() as int) =~= members@);
        },
        _ => {
            assert(pairs_view(out@) =~= pairs_view(out@) + Seq::<(Seq<char>, Seq<char>)>::empty());
        },
    }
}

/// The declared (name, requirement) pairs of a `package.json` text.  On a
/// JSON error, its message.
pub fn declared_dependencies(content: &str) -> (r: Result<Vec<(String, String)>, String>)
    ensures
        match json_document(content@) {
            Ok(doc) => r matches Ok(v) && pairs_view(v@) == node_dependencies(doc),
            Err(m) => r matches Err(e) && e@ == m,
        },
{
    let doc = match parse_json(content) {
        Ok(d) => d,
        Err(m) => return Err(m),
    };
    let mut out: Vec<(String, String)> = Vec::new();
    push_section(&mut out, &doc, "dependencies");
    push_section(&mut out, &doc, "devDependencies");
    assert(pairs_view(out@) =~= node_dependencies(doc));
    Ok(out)
}

/// Status, version column and description of a package whose installed
/// `package.json` reads `installed` (none if it could not be read).
pub open spec fn installed_info(installed: Option<Seq<char>>, required: Seq<char>) -> (
    StatusModel,
    Seq<char>,
    Seq<char>,
) {
    match installed {
        None => (StatusModel::Missing, required, "N/A"@),
        Some(text) => match json_document(text) {
            Err(_) => (StatusModel::Missing, required, "N/A"@),
            Ok(doc) => {
                let version = match json_str(json_get(doc, "version"@)) {
                    Some(v) => v,
                    None => "unknown"@,
                };
                let description = match json_str(json_get(doc, "description"@)) {
                    Some(d) => d,
                    None => "N/A"@,
                };
                (StatusModel::Installed(version), version, description)
            },
        },
    }
}

/// Read installed package data from the text of
/// `node_modules/<name>/package.json`.  Returns (status, version, description).
pub fn read_installed_pkg(installed: Option<&str>, required: &str) -> (r: (
    PackageStatus,
    String,
    String,
))
    ensures
        (r.0@, r.1@, r.2@) == installed_info(
            match installed {
                Some(t) => Some(t@),
                None => None,
            },
            required@,
        ),
{
    let text = match installed {
        Some(t) => t,
        None => return (PackageStatus::Missing, owned(required), owned("N/A")),
    };
    let doc = match parse_json(text) {
        Ok(d) => d,
        Err(_) => return (PackageStatus::Missing, owned(required), owned("N/A")),
    };
    let version = match json::as_str(json::get(&doc, "version")) {
        Some(v) => v.clone(),
        None => owned("unknown"),
    };
    let description = match json::as_str(json::get(&doc, "description")) {
        Some(d) => d.clone(),
        None => owned("N/A"),
    };
    let v2 = version.clone();
    (PackageStatus::Installed { version }, v2, description)
}

} // verus!
