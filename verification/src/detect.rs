//! Project ecosystem detection: the supported ecosystems, their names and
//! manifest files, and which of them a project has (those one of whose
//! manifest files exists, in the order in which they are checked).
use vstd::prelude::*;

use crate::ecosystems::go_lang::GoEcosystem;
use crate::ecosystems::node::NodeEcosystem;
use crate::ecosystems::python::PythonEcosystem;
use crate::ecosystems::ruby::RubyEcosystem;
use crate::ecosystems::rust_lang::RustEcosystem;
use crate::text::{chars_of, range_equals};
use crate::types::strings_view;

verus! {

/// The supported ecosystems in the order in which they are checked, each
/// with its name and the manifest files whose presence marks it.
pub open spec fn ecosystem_table() -> Seq<(Seq<char>, Seq<Seq<char>>)> {
    seq![
        ("Node.js"@, seq!["package.json"@]),
        ("Python"@, seq!["requirements.txt"@, "pyproject.toml"@, "Pipfile"@]),
        ("Rust"@, seq!["Cargo.toml"@]),
        ("Go"@, seq!["go.mod"@]),
        ("Ruby"@, seq!["Gemfile"@]),
    ]
}

pub open spec fn names_view(v: Seq<&'static str>) -> Seq<Seq<char>> {
    v.map_values(|s: &'static str| s@)
}

pub open spec fn table_view(v: Seq<(&'static str, Vec<&'static str>)>) -> Seq<
    (Seq<char>, Seq<Seq<char>>),
> {
    v.map_values(|e: (&'static str, Vec<&'static str>)| (e.0@, names_view(e.1@)))
}

/// The supported ecosystems, each with its name and manifest files, in the
/// order in which they are checked.
pub fn supported_ecosystems() -> (r: Vec<(&'static str, Vec<&'static str>)>)
    ensures
        table_view(r@) == ecosystem_table(),
{
    let mut r: Vec<(&'static str, Vec<&'static str>)> = Vec::new();
    r.push((NodeEcosystem.name(), NodeEcosystem.manifest_files()));
    r.push((PythonEcosystem.name(), PythonEcosystem.manifest_files()));
    r.push((RustEcosystem.name(), RustEcosystem.manifest_files()));
    r.push((GoEcosystem.name(), GoEcosystem.manifest_files()));
    r.push((RubyEcosystem.name(), RubyEcosystem.manifest_files()));
    assert(table_view(r@) =~= ecosystem_table()) by {
        assert forall|i: int| 0 <= i < 5 implies names_view(#[trigger] r@[i].1@)
            =~= ecosystem_table()[i].1 by {}
    }
    r
}

/// Whether one of `manifests` is among the `existing` files.
pub open spec fn manifest_among(manifests: Seq<Seq<char>>, existing: Seq<Seq<char>>) -> bool {
    exists|k: int| 0 <= k < manifests.len() && existing.contains(#[trigger] manifests[k])
}

/// The names of the ecosystems of `table` whose manifest is among the
/// `existing` files, in table order.
pub open spec fn present_names(
    table: Seq<(Seq<char>, Seq<Seq<char>>)>,
    existing: Seq<Seq<char>>,
) -> Seq<Seq<char>>
    decreases table.len(),
{
    if table.len() == 0 {
        seq![]
    } else if manifest_among(table.last().1, existing) {
        present_names(table.drop_last(), existing).push(table.last().0)
    } else {
        present_names(table.drop_last(), existing)
    }
}

fn manifest_found(manifests: &Vec<&'static str>, existing: &Vec<String>) -> (b: bool)
    ensures
        b == manifest_among(names_view(manifests@), strings_view(existing@)),
{
    let ghost ms = names_view(manifests@);
    let ghost ex = strings_view(existing@);
    let mut k: usize = 0;
    while k < manifests.len()
        invariant
            0 <= k <= manifests.len(),
            ms == names_view(manifests@),
            ex == strings_view(existing@),
            forall|q: int| 0 <= q < k ==> !ex.contains(#[trigger] ms[q]),
        decreases manifests.len() - k,
    {
        let m = manifests[k];
        let mut j: usize = 0;
        while j < existing.len()
            invariant
                0 <= j <= existing.len(),
                0 <= k < manifests.len(),
                m == manifests@[k as int],
                ms == names_view(manifests@),
                ex == strings_view(existing@),
                forall|q: int| 0 <= q < j ==> ex[q] != ms[k as int],
            decreases existing.len() - j,
        {
            let v = chars_of(existing[j].as_str());
            if range_equals(&v, 0, v.len(), m) {
                assert(v@.subrange(0, v.len() as int) =~= v@);
                assert(ex[j as int] == ms[k as int]);
                assert(ex.contains(ms[k as int]));
                return true;
            }
            assert(v@.subrange(0, v.len() as int) =~= v@);
            j = j + 1;
        }
        k = k + 1;
    }
    false
}

/// The names of the ecosystems that a project has, given the files that
/// exist in its directory: Node.js, Python, Rust, Go and Ruby, in that
/// order, kept to those one of whose manifest files exists.
pub fn detect_ecosystems(existing: &Vec<String>) -> (r: Vec<&'static str>)
    ensures
        names_view(r@) == present_names(ecosystem_table(), strings_view(existing@)),
{
    let table = supported_ecosystems();
    let ghost tv = table_view(table@);
    let mut r: Vec<&'static str> = Vec::new();
    let mut i: usize = 0;
    while i < table.len()
        invariant
            0 <= i <= table.len(),
            tv == table_view(table@),
            tv == ecosystem_table(),
            names_view(r@) == present_names(tv.take(i as int), strings_view(existing@)),
        decreases table.len() - i,
    {
        assert(tv.take(i + 1).drop_last() =~= tv.take(i as int));
        assert(tv.take(i + 1).last() == tv[i as int]);
        let ghost before = r@;
        if manifest_found(&table[i].1, existing) {
            r.push(table[i].0);
            assert(names_view(r@) =~= names_view(before).push(table@[i as int].0@));
        }
        i = i + 1;
    }
    assert(tv.take(table.len() as int) =~= tv);
    r
}

} // verus!
