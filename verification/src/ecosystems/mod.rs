//! Per-ecosystem manifest parsing and package checking, and what the
//! ecosystems share: version lookups and the building of package records.

pub mod go_lang;
pub mod node;
pub mod python;
pub mod ruby;
pub mod rust_lang;

use vstd::prelude::*;

use crate::types::{PackageInfo, PackageStatus, StatusModel, strings_view};
use crate::text::owned;

verus! {

// ---------------------------------------------------------------------------
// Name/version pairs
// ---------------------------------------------------------------------------

/// A list of (name, version) pairs, taken by the views of its strings.
pub open spec fn pairs_view(v: Seq<(String, String)>) -> Seq<(Seq<char>, Seq<char>)> {
    v.map_values(|p: (String, String)| (p.0@, p.1@))
}

/// The pair list with `p` added when it is there.
pub open spec fn push_opt(s: Seq<(Seq<char>, Seq<char>)>, p: Option<(Seq<char>, Seq<char>)>) -> Seq<
    (Seq<char>, Seq<char>),
> {
    match p {
        Some(x) => s.push(x),
        None => s,
    }
}

/// The version recorded for `key` by the last pair that names it: the value a
/// map would hold after inserting the pairs in order.
pub open spec fn lookup(entries: Seq<(Seq<char>, Seq<char>)>, key: Seq<char>) -> Option<Seq<char>>
    decreases entries.len(),
{
    if entries.len() == 0 {
        None
    } else if entries.last().0 == key {
        Some(entries.last().1)
    } else {
        lookup(entries.drop_last(), key)
    }
}

pub open spec fn opt_view(o: Option<String>) -> Option<Seq<char>> {
    match o {
        Some(s) => Some(s@),
        None => None,
    }
}

/// The last entry named `key` is the one that a lookup finds.
pub proof fn lemma_lookup_finds_last(entries: Seq<(Seq<char>, Seq<char>)>, key: Seq<char>, i: int)
    requires
        0 <= i < entries.len(),
        entries[i].0 == key,
        forall|j: int| i < j < entries.len() ==> (#[trigger] entries[j]).0 != key,
    ensures
        lookup(entries, key) == Some(entries[i].1),
    decreases entries.len(),
{
    if i < entries.len() - 1 {
        let p = entries.drop_last();
        assert(entries.last() == entries[entries.len() - 1]);
        assert forall|j: int| i < j < p.len() implies (#[trigger] p[j]).0 != key by {
            assert(p[j] == entries[j]);
        }
        lemma_lookup_finds_last(p, key, i);
    }
}

/// A lookup of a key that no entry names finds nothing.
pub proof fn lemma_lookup_absent(entries: Seq<(Seq<char>, Seq<char>)>, key: Seq<char>)
    requires
        forall|j: int| 0 <= j < entries.len() ==> (#[trigger] entries[j]).0 != key,
    ensures
        lookup(entries, key) is None,
    decreases entries.len(),
{
    if entries.len() > 0 {
        let p = entries.drop_last();
        assert(entries.last() == entries[entries.len() - 1]);
        assert forall|j: int| 0 <= j < p.len() implies (#[trigger] p[j]).0 != key by {
            assert(p[j] == entries[j]);
        }
        lemma_lookup_absent(p, key);
    }
}

/// The version that the last pair naming `key` records.
pub fn lookup_last(entries: &Vec<(String, String)>, key: &String) -> (r: Option<String>)
    ensures
        opt_view(r) == lookup(pairs_view(entries@), key@),
{
    let mut i = entries.len();
    assert(pairs_view(entries@).take(i as int) =~= pairs_view(entries@));
    while i > 0
        invariant
            i <= entries.len(),
            lookup(pairs_view(entries@), key@) == lookup(pairs_view(entries@).take(i as int), key@),
        decreases i,
    {
        assert(pairs_view(entries@).take(i as int).drop_last() =~= pairs_view(entries@).take(
            i - 1,
        ));
        if entries[i - 1].0 == *key {
            return Some(entries[i - 1].1.clone());
        }
        i = i - 1;
    }
    None
}

/// Appends `(a, b)` to `out`.
pub fn push_pair(out: &mut Vec<(String, String)>, a: String, b: String)
    ensures
        pairs_view(final(out)@) == pairs_view(old(out)@).push((a@, b@)),
{
    out.push((a, b));
    assert(pairs_view(out@) =~= pairs_view(old(out)@).push((a@, b@)));
}

// ---------------------------------------------------------------------------
// Building package records
// ---------------------------------------------------------------------------

/// Status and version column of a package whose installed version is
/// `found` (if any) and whose declared requirement is `required`.
pub open spec fn resolved(found: Option<Seq<char>>, required: Seq<char>) -> (StatusModel, Seq<char>) {
    match found {
        Some(v) => (StatusModel::Installed(v), v),
        None => (StatusModel::Missing, required),
    }
}

/// Status and version column from an optional installed version.
pub fn resolve(found: Option<String>, required: &String) -> (r: (PackageStatus, String))
    ensures
        (r.0@, r.1@) == resolved(opt_view(found), required@),
{
    match found {
        Some(v) => {
            let c = v.clone();
            (PackageStatus::Installed { version: v }, c)
        },
        None => (PackageStatus::Missing, required.clone()),
    }
}

/// A package record that no scan has looked at yet, with one import alias.
pub fn new_package(
    name: String,
    description: String,
    language: &str,
    version: String,
    status: PackageStatus,
    alias: String,
) -> (p: PackageInfo)
    ensures
        p@.name == name@,
        p@.description == description@,
        p@.language == language@,
        p@.version == version@,
        p@.status == status@,
        p@.used_in_files == 0,
        p@.scanned_files == 0,
        p@.import_aliases == seq![alias@],
{
    let mut aliases: Vec<String> = Vec::new();
    aliases.push(alias);
    let p = PackageInfo {
        name,
        description,
        language: owned(language),
        version,
        status,
        used_in_files: 0,
        scanned_files: 0,
        import_aliases: aliases,
    };
    assert(strings_view(p.import_aliases@) =~= seq![p.import_aliases@[0]@]);
    p
}

// ---------------------------------------------------------------------------
// Decoding command output
// ---------------------------------------------------------------------------

/// What `String::from_utf8_lossy` gives for a byte sequence.
pub uninterp spec fn utf8_lossy(bytes: Seq<u8>) -> Seq<char>;

/// Calls `String::from_utf8_lossy`: the bytes decoded, each invalid sequence
/// replaced by U+FFFD.  The contract states the valid case, which the
/// documentation gives, and names the result otherwise.
#[verifier::external_body]
pub(crate) fn decode_lossy(bytes: &[u8]) -> (r: String)
    ensures
        r@ == utf8_lossy(bytes@),
        vstd::utf8::valid_utf8(bytes@) ==> r@ == vstd::utf8::decode_utf8(bytes@),
{
    String::from_utf8_lossy(bytes).into_owned()
}

/// Calls `String::from_utf8`: the decoded text exactly when the bytes are
/// valid UTF-8.
#[verifier::external_body]
pub(crate) fn decode_strict(bytes: Vec<u8>) -> (r: Option<String>)
    ensures
        r is Some <==> vstd::utf8::valid_utf8(bytes@),
        r matches Some(s) ==> s@ == vstd::utf8::decode_utf8(bytes@),
{
    String::from_utf8(bytes).ok()
}

} // verus!
