//! Import-usage analysis: which packages the project's source files import.
//!
//! For every source file, each import pattern's first capture group is read
//! as an imported name; a package is used by the file when one of its import
//! aliases (lowercased) equals that name or is a `/`-bounded prefix of it.
use vstd::prelude::*;

use crate::text::{chars_of, to_lowercase, unicode_lowercase};
use crate::types::{PackageInfo, PackageModel, packages_view, strings_view};

verus! {

#[verifier::external_type_specification]
#[verifier::external_body]
pub struct ExRegex(regex::Regex);

/// Whether `regex::Regex::new` accepts a pattern.
pub uninterp spec fn regex_compiles(pattern: Seq<char>) -> bool;

/// What `Regex::captures_iter` yields for a pattern over a text: for each
/// match in order, the text of capture group 1 if it took part.
pub uninterp spec fn regex_group1(pattern: Seq<char>, text: Seq<char>) -> Seq<Option<Seq<char>>>;

/// A compiled import pattern.  Its regex is always the one that
/// `Regex::new` built from `source`: [`compile_pattern`] is the only place
/// that makes one.
pub(crate) struct ImportPattern {
    source: String,
    regex: regex::Regex,
}

impl ImportPattern {
    /// The pattern text this was compiled from.
    pub(crate) closed spec fn source(&self) -> Seq<char> {
        self.source@
    }
}

/// Calls `regex::Regex::new`.  The contract says that a pattern comes back
/// exactly when the named predicate holds, and which text it came from.
#[verifier::external_body]
pub(crate) fn compile_pattern(pattern: &String) -> (r: Option<ImportPattern>)
    ensures
        r is Some == regex_compiles(pattern@),
        r matches Some(p) ==> p.source() == pattern@,
{
    match regex::Regex::new(pattern) {
        Ok(regex) => Some(ImportPattern { source: pattern.clone(), regex }),
        Err(_) => None,
    }
}

pub open spec fn captures_view(v: Seq<Option<String>>) -> Seq<Option<Seq<char>>> {
    v.map_values(
        |o: Option<String>|
            match o {
                Some(s) => Some(s@),
                None => None,
            },
    )
}

/// Calls `Regex::captures_iter` on `text` and hands back, for each match,
/// the text of group 1 if it took part.  The contract names the result over
/// the pattern's source text, from which `compile_pattern` built the regex.
#[verifier::external_body]
pub(crate) fn group1_captures(p: &ImportPattern, text: &str) -> (r: Vec<Option<String>>)
    ensures
        captures_view(r@) == regex_group1(p.source(), text@),
{
    p.regex.captures_iter(text).map(|c| c.get(1).map(|m| m.as_str().to_string())).collect()
}

// ---------------------------------------------------------------------------
// Specification of usage
// ---------------------------------------------------------------------------

/// The patterns among `pats` that compile, in order.
pub open spec fn compiling(pats: Seq<Seq<char>>) -> Seq<Seq<char>>
    decreases pats.len(),
{
    if pats.len() == 0 {
        seq![]
    } else if regex_compiles(pats.last()) {
        compiling(pats.drop_last()).push(pats.last())
    } else {
        compiling(pats.drop_last())
    }
}

/// (lowercased alias, package index) for every alias of every package, in
/// package order then alias order.
pub open spec fn alias_entries(pkgs: Seq<PackageModel>) -> Seq<(Seq<char>, nat)>
    decreases pkgs.len(),
{
    if pkgs.len() == 0 {
        seq![]
    } else {
        alias_entries(pkgs.drop_last()) + package_entries(pkgs.last(), (pkgs.len() - 1) as nat)
    }
}

pub open spec fn package_entries(p: PackageModel, i: nat) -> Seq<(Seq<char>, nat)> {
    p.import_aliases.map_values(|a: Seq<char>| (unicode_lowercase(a), i))
}

/// The package that an alias stands for: the last one that declares it, as
/// a map filled in package order holds.
pub open spec fn alias_owner(es: Seq<(Seq<char>, nat)>, a: Seq<char>) -> Option<nat>
    decreases es.len(),
{
    if es.len() == 0 {
        None
    } else if es.last().0 == a {
        Some(es.last().1)
    } else {
        alias_owner(es.drop_last(), a)
    }
}

/// `a` is `m`, or `m` continues with `/` after `a`.
pub open spec fn path_prefix(a: Seq<char>, m: Seq<char>) -> bool {
    a.is_prefix_of(m) && (m.len() == a.len() || m[a.len() as int] == '/')
}

/// The imported name `m` (lowercased) is an import of package `i`.
pub open spec fn name_uses(es: Seq<(Seq<char>, nat)>, m: Seq<char>, i: nat) -> bool {
    exists|k: int|
        0 <= k < es.len() && alias_owner(es, (#[trigger] es[k]).0) == Some(i) && path_prefix(
            es[k].0,
            m,
        )
}

/// Some capture among `caps` imports package `i`.
pub open spec fn captures_use(es: Seq<(Seq<char>, nat)>, caps: Seq<Option<Seq<char>>>, i: nat) -> bool
    decreases caps.len(),
{
    if caps.len() == 0 {
        false
    } else {
        captures_use(es, caps.drop_last(), i) || match caps.last() {
            Some(s) => name_uses(es, unicode_lowercase(s), i),
            None => false,
        }
    }
}

/// Some capture among the capture lists `cs` (one list per pattern)
/// imports package `i`.
pub open spec fn captures_list_use(
    es: Seq<(Seq<char>, nat)>,
    cs: Seq<Seq<Option<Seq<char>>>>,
    i: nat,
) -> bool
    decreases cs.len(),
{
    if cs.len() == 0 {
        false
    } else {
        captures_list_use(es, cs.drop_last(), i) || captures_use(es, cs.last(), i)
    }
}

/// The group-1 captures of each pattern among `pats` over `text`.
pub open spec fn pattern_captures(pats: Seq<Seq<char>>, text: Seq<char>) -> Seq<
    Seq<Option<Seq<char>>>,
> {
    pats.map_values(|p: Seq<char>| regex_group1(p, text))
}

/// Some capture of some pattern among `pats` in `text` imports package `i`.
pub open spec fn text_uses(es: Seq<(Seq<char>, nat)>, pats: Seq<Seq<char>>, text: Seq<char>, i: nat) -> bool {
    captures_list_use(es, pattern_captures(pats, text), i)
}

/// Number of readable files among `files` that import package `i`.
pub open spec fn use_count(
    es: Seq<(Seq<char>, nat)>,
    pats: Seq<Seq<char>>,
    files: Seq<Option<Seq<char>>>,
    i: nat,
) -> nat
    decreases files.len(),
{
    if files.len() == 0 {
        0
    } else {
        use_count(es, pats, files.drop_last(), i) + match files.last() {
            Some(t) => if text_uses(es, pats, t, i) {
                1nat
            } else {
                0nat
            },
            None => 0nat,
        }
    }
}

/// The package `p` with its usage counts set.
pub open spec fn with_usage(p: PackageModel, used: nat, scanned: nat) -> PackageModel {
    PackageModel { used_in_files: used, scanned_files: scanned, ..p }
}

pub open spec fn capture_lists_view(v: Seq<Vec<Option<String>>>) -> Seq<Seq<Option<Seq<char>>>> {
    v.map_values(|c: Vec<Option<String>>| captures_view(c@))
}

pub open spec fn files_view(v: Seq<Option<String>>) -> Seq<Option<Seq<char>>> {
    v.map_values(
        |o: Option<String>|
            match o {
                Some(s) => Some(s@),
                None => None,
            },
    )
}

// ---------------------------------------------------------------------------
// Exec building blocks
// ---------------------------------------------------------------------------

/// The patterns that compile, in order.
fn compile_all(import_patterns: &Vec<String>) -> (r: Vec<ImportPattern>)
    ensures
        r@.map_values(|p: ImportPattern| p.source()) == compiling(strings_view(import_patterns@)),
{
    let mut r: Vec<ImportPattern> = Vec::new();
    let mut i: usize = 0;
    while i < import_patterns.len()
        invariant
            0 <= i <= import_patterns.len(),
            r@.map_values(|p: ImportPattern| p.source()) == compiling(
                strings_view(import_patterns@).take(i as int),
            ),
        decreases import_patterns.len() - i,
    {
        let ghost pv = strings_view(import_patterns@);
        assert(pv.take(i + 1).drop_last() =~= pv.take(i as int));
        let ghost old_r = r@;
        match compile_pattern(&import_patterns[i]) {
            Some(p) => {
                r.push(p);
                assert(r@.map_values(|p: ImportPattern| p.source()) =~= old_r.map_values(
                    |p: ImportPattern| p.source(),
                ).push(pv[i as int]));
            },
            None => {},
        }
        i = i + 1;
    }
    assert(strings_view(import_patterns@).take(import_patterns.len() as int) =~= strings_view(
        import_patterns@,
    ));
    r
}

pub open spec fn entries_view(v: Seq<(Vec<char>, usize)>) -> Seq<(Seq<char>, nat)> {
    v.map_values(|e: (Vec<char>, usize)| (e.0@, e.1 as nat))
}

/// The alias entries of `packages`, each alias lowercased.
fn build_entries(packages: &Vec<PackageInfo>) -> (r: Vec<(Vec<char>, usize)>)
    ensures
        entries_view(r@) == alias_entries(packages_view(packages@)),
        forall|k: int| 0 <= k < r@.len() ==> (#[trigger] r@[k]).1 < packages@.len(),
{
    let mut r: Vec<(Vec<char>, usize)> = Vec::new();
    let mut i: usize = 0;
    while i < packages.len()
        invariant
            0 <= i <= packages.len(),
            entries_view(r@) == alias_entries(packages_view(packages@).take(i as int)),
            forall|k: int| 0 <= k < r@.len() ==> (#[trigger] r@[k]).1 < i,
        decreases packages.len() - i,
    {
        let ghost pv = packages_view(packages@);
        let ghost base = entries_view(r@);
        let aliases = &packages[i].import_aliases;
        let mut k: usize = 0;
        while k < aliases.len()
            invariant
                0 <= k <= aliases.len(),
                i < packages.len(),
                aliases == packages@[i as int].import_aliases,
                pv == packages_view(packages@),
                entries_view(r@) == base + package_entries(pv[i as int], i as nat).take(k as int),
                forall|j: int| 0 <= j < r@.len() ==> (#[trigger] r@[j]).1 < i + 1,
            decreases aliases.len() - k,
        {
            let lower = to_lowercase(aliases[k].as_str());
            let c = chars_of(lower.as_str());
            let ghost old_r = r@;
            r.push((c, i));
            assert(entries_view(r@) =~= entries_view(old_r).push((c@, i as nat)));
            assert(package_entries(pv[i as int], i as nat).take(k + 1) =~= package_entries(
                pv[i as int],
                i as nat,
            ).take(k as int).push((c@, i as nat)));
            k = k + 1;
        }
        assert(package_entries(pv[i as int], i as nat).take(k as int) =~= package_entries(
            pv[i as int],
            i as nat,
        ));
        assert(pv.take(i + 1).drop_last() =~= pv.take(i as int));
        i = i + 1;
    }
    assert(packages_view(packages@).take(packages.len() as int) =~= packages_view(packages@));
    r
}

fn chars_equal(a: &Vec<char>, b: &Vec<char>) -> (r: bool)
    ensures
        r == (a@ == b@),
{
    if a.len() != b.len() {
        return false;
    }
    let mut i: usize = 0;
    while i < a.len()
        invariant
            0 <= i <= a.len(),
            a.len() == b.len(),
            forall|j: int| 0 <= j < i ==> a@[j] == b@[j],
        decreases a.len() - i,
    {
        if a[i] != b[i] {
            return false;
        }
        i = i + 1;
    }
    assert(a@ =~= b@);
    true
}

proof fn lemma_owner_exists(es: Seq<(Seq<char>, nat)>, k: int)
    requires
        0 <= k < es.len(),
    ensures
        alias_owner(es, es[k].0) is Some,
    decreases es.len(),
{
    if es.last().0 != es[k].0 {
        assert(es.drop_last()[k] == es[k]);
        lemma_owner_exists(es.drop_last(), k);
    }
}

/// For each entry, the package that its alias stands for.
fn entry_owners(es: &Vec<(Vec<char>, usize)>, n: usize) -> (r: Vec<usize>)
    requires
        forall|k: int| 0 <= k < es@.len() ==> (#[trigger] es@[k]).1 < n,
    ensures
        r@.len() == es@.len(),
        forall|k: int|
            0 <= k < es@.len() ==> alias_owner(entries_view(es@), es@[k].0@) == Some(
                #[trigger] r@[k] as nat,
            ),
        forall|k: int| 0 <= k < es@.len() ==> #[trigger] r@[k] < n,
{
    let mut r: Vec<usize> = Vec::new();
    let mut k: usize = 0;
    while k < es.len()
        invariant
            0 <= k <= es.len(),
            r@.len() == k,
            forall|q: int|
                0 <= q < k ==> alias_owner(entries_view(es@), es@[q].0@) == Some(
                    #[trigger] r@[q] as nat,
                ),
            forall|q: int| 0 <= q < k ==> #[trigger] r@[q] < n,
            forall|q: int| 0 <= q < es@.len() ==> (#[trigger] es@[q]).1 < n,
        decreases es.len() - k,
    {
        let ghost ev = entries_view(es@);
        let ghost key = es@[k as int].0@;
        let mut j = es.len();
        assert(ev.take(j as int) =~= ev);
        proof {
            assert(ev[k as int].0 == key);
        }
        while j > 0 && !chars_equal(&es[j - 1].0, &es[k].0)
            invariant
                k < j <= es.len() || (j <= es.len() && k < es.len()),
                k < es.len(),
                ev == entries_view(es@),
                key == es@[k as int].0@,
                alias_owner(ev, key) == alias_owner(ev.take(j as int), key),
                k < j,
            decreases j,
        {
            assert(ev.take(j as int).drop_last() =~= ev.take(j - 1));
            j = j - 1;
        }
        proof {
            if j > 0 {
                assert(ev.take(j as int).last() == ev[j - 1]);
            }
        }
        r.push(es[j - 1].1);
        k = k + 1;
    }
    r
}

fn path_prefix_exec(a: &Vec<char>, m: &Vec<char>) -> (r: bool)
    ensures
        r == path_prefix(a@, m@),
{
    if a.len() > m.len() {
        return false;
    }
    let mut i: usize = 0;
    while i < a.len()
        invariant
            0 <= i <= a.len() <= m.len(),
            forall|j: int| 0 <= j < i ==> a@[j] == m@[j],
        decreases a.len() - i,
    {
        if a[i] != m[i] {
            return false;
        }
        i = i + 1;
    }
    m.len() == a.len() || m[a.len()] == '/'
}

/// Mark every package that the lowercased imported name `m` imports.
fn mark_name(
    seen: &mut Vec<bool>,
    es: &Vec<(Vec<char>, usize)>,
    owners: &Vec<usize>,
    m: &Vec<char>,
)
    requires
        owners@.len() == es@.len(),
        forall|k: int|
            0 <= k < es@.len() ==> alias_owner(entries_view(es@), es@[k].0@) == Some(
                #[trigger] owners@[k] as nat,
            ),
        forall|k: int| 0 <= k < owners@.len() ==> #[trigger] owners@[k] < old(seen)@.len(),
    ensures
        final(seen)@.len() == old(seen)@.len(),
        forall|i: int|
            0 <= i < old(seen)@.len() ==> #[trigger] final(seen)@[i] == (old(seen)@[i] || name_uses(
                entries_view(es@),
                m@,
                i as nat,
            )),
{
    let ghost ev = entries_view(es@);
    let mut k: usize = 0;
    while k < es.len()
        invariant
            0 <= k <= es.len(),
            owners@.len() == es@.len(),
            ev == entries_view(es@),
            forall|q: int|
                0 <= q < es@.len() ==> alias_owner(ev, es@[q].0@) == Some(
                    #[trigger] owners@[q] as nat,
                ),
            forall|q: int| 0 <= q < owners@.len() ==> #[trigger] owners@[q] < old(seen)@.len(),
            seen@.len() == old(seen)@.len(),
            forall|i: int|
                0 <= i < seen@.len() ==> #[trigger] seen@[i] == (old(seen)@[i] || exists|q: int|
                    0 <= q < k && alias_owner(ev, (#[trigger] ev[q]).0) == Some(i as nat)
                        && path_prefix(ev[q].0, m@)),
        decreases es.len() - k,
    {
        let ghost prev = seen@;
        if path_prefix_exec(&es[k].0, m) {
            let o = owners[k];
            seen.set(o, true);
            proof {
                assert(ev[k as int] == (es@[k as int].0@, es@[k as int].1 as nat));
                assert forall|i: int| 0 <= i < seen@.len() implies #[trigger] seen@[i] == (old(
                    seen,
                )@[i] || exists|q: int|
                    0 <= q < k + 1 && alias_owner(ev, (#[trigger] ev[q]).0) == Some(i as nat)
                        && path_prefix(ev[q].0, m@)) by {
                    if i == o as int {
                        assert(alias_owner(ev, ev[k as int].0) == Some(i as nat));
                    }
                    if exists|q: int|
                        0 <= q < k + 1 && alias_owner(ev, (#[trigger] ev[q]).0) == Some(i as nat)
                            && path_prefix(ev[q].0, m@) {
                        let q = choose|q: int|
                            0 <= q < k + 1 && alias_owner(ev, (#[trigger] ev[q]).0) == Some(
                                i as nat,
                            ) && path_prefix(ev[q].0, m@);
                        if q == k {
                            assert(i == o as int);
                        }
                    }
                }
            }
        } else {
            proof {
                assert(ev[k as int] == (es@[k as int].0@, es@[k as int].1 as nat));
                assert forall|i: int| 0 <= i < seen@.len() implies #[trigger] seen@[i] == (old(
                    seen,
                )@[i] || exists|q: int|
                    0 <= q < k + 1 && alias_owner(ev, (#[trigger] ev[q]).0) == Some(i as nat)
                        && path_prefix(ev[q].0, m@)) by {
                    if exists|q: int|
                        0 <= q < k + 1 && alias_owner(ev, (#[trigger] ev[q]).0) == Some(i as nat)
                            && path_prefix(ev[q].0, m@) {
                        let q = choose|q: int|
                            0 <= q < k + 1 && alias_owner(ev, (#[trigger] ev[q]).0) == Some(
                                i as nat,
                            ) && path_prefix(ev[q].0, m@);
                        assert(q != k);
                    }
                }
            }
        }
        k = k + 1;
    }
}

/// Mark every package that some capture among `caps` imports.
fn mark_captures(
    seen: &mut Vec<bool>,
    es: &Vec<(Vec<char>, usize)>,
    owners: &Vec<usize>,
    caps: &Vec<Option<String>>,
)
    requires
        owners@.len() == es@.len(),
        forall|k: int|
            0 <= k < es@.len() ==> alias_owner(entries_view(es@), es@[k].0@) == Some(
                #[trigger] owners@[k] as nat,
            ),
        forall|k: int| 0 <= k < owners@.len() ==> #[trigger] owners@[k] < old(seen)@.len(),
    ensures
        final(seen)@.len() == old(seen)@.len(),
        forall|i: int|
            0 <= i < old(seen)@.len() ==> #[trigger] final(seen)@[i] == (old(seen)@[i] || captures_use(
                entries_view(es@),
                captures_view(caps@),
                i as nat,
            )),
{
    let ghost cv = captures_view(caps@);
    let mut c: usize = 0;
    while c < caps.len()
        invariant
            0 <= c <= caps.len(),
            cv == captures_view(caps@),
            owners@.len() == es@.len(),
            forall|k: int|
                0 <= k < es@.len() ==> alias_owner(entries_view(es@), es@[k].0@) == Some(
                    #[trigger] owners@[k] as nat,
                ),
            forall|k: int| 0 <= k < owners@.len() ==> #[trigger] owners@[k] < old(seen)@.len(),
            seen@.len() == old(seen)@.len(),
            forall|i: int|
                0 <= i < seen@.len() ==> #[trigger] seen@[i] == (old(seen)@[i] || captures_use(
                    entries_view(es@),
                    cv.take(c as int),
                    i as nat,
                )),
        decreases caps.len() - c,
    {
        assert(cv.take(c + 1).drop_last() =~= cv.take(c as int));
        match &caps[c] {
            Some(s) => {
                let lower = to_lowercase(s.as_str());
                let m = chars_of(lower.as_str());
                mark_name(seen, es, owners, &m);
            },
            None => {},
        }
        c = c + 1;
    }
    assert(cv.take(caps.len() as int) =~= cv);
}

pub(crate) open spec fn sources(pats: Seq<ImportPattern>) -> Seq<Seq<char>> {
    pats.map_values(|p: ImportPattern| p.source())
}

/// For each of `n` packages, whether some capture among the capture lists
/// `caps` imports it.
fn marks_from_captures(
    es: &Vec<(Vec<char>, usize)>,
    owners: &Vec<usize>,
    caps: &Vec<Vec<Option<String>>>,
    n: usize,
) -> (r: Vec<bool>)
    requires
        owners@.len() == es@.len(),
        forall|k: int|
            0 <= k < es@.len() ==> alias_owner(entries_view(es@), es@[k].0@) == Some(
                #[trigger] owners@[k] as nat,
            ),
        forall|k: int| 0 <= k < owners@.len() ==> #[trigger] owners@[k] < n,
    ensures
        r@.len() == n,
        forall|i: int|
            0 <= i < n ==> #[trigger] r@[i] == captures_list_use(
                entries_view(es@),
                capture_lists_view(caps@),
                i as nat,
            ),
{
    let mut seen: Vec<bool> = Vec::new();
    let mut i: usize = 0;
    while i < n
        invariant
            0 <= i <= n,
            seen@.len() == i,
            forall|j: int| 0 <= j < i ==> !(#[trigger] seen@[j]),
        decreases n - i,
    {
        seen.push(false);
        i = i + 1;
    }
    let ghost cl = capture_lists_view(caps@);
    let mut c: usize = 0;
    while c < caps.len()
        invariant
            0 <= c <= caps.len(),
            cl == capture_lists_view(caps@),
            owners@.len() == es@.len(),
            forall|k: int|
                0 <= k < es@.len() ==> alias_owner(entries_view(es@), es@[k].0@) == Some(
                    #[trigger] owners@[k] as nat,
                ),
            forall|k: int| 0 <= k < owners@.len() ==> #[trigger] owners@[k] < n,
            seen@.len() == n,
            forall|j: int|
                0 <= j < n ==> #[trigger] seen@[j] == captures_list_use(
                    entries_view(es@),
                    cl.take(c as int),
                    j as nat,
                ),
        decreases caps.len() - c,
    {
        assert(cl.take(c + 1).drop_last() =~= cl.take(c as int));
        assert(cl.take(c + 1).last() == captures_view(caps@[c as int]@));
        mark_captures(&mut seen, es, owners, &caps[c]);
        c = c + 1;
    }
    assert(cl.take(caps.len() as int) =~= cl);
    seen
}

/// For each of `n` packages, whether `text` imports it.
fn file_marks(
    es: &Vec<(Vec<char>, usize)>,
    owners: &Vec<usize>,
    pats: &Vec<ImportPattern>,
    text: &str,
    n: usize,
) -> (r: Vec<bool>)
    requires
        owners@.len() == es@.len(),
        forall|k: int|
            0 <= k < es@.len() ==> alias_owner(entries_view(es@), es@[k].0@) == Some(
                #[trigger] owners@[k] as nat,
            ),
        forall|k: int| 0 <= k < owners@.len() ==> #[trigger] owners@[k] < n,
    ensures
        r@.len() == n,
        forall|i: int|
            0 <= i < n ==> #[trigger] r@[i] == text_uses(
                entries_view(es@),
                sources(pats@),
                text@,
                i as nat,
            ),
{
    let ghost sv = sources(pats@);
    let mut caps: Vec<Vec<Option<String>>> = Vec::new();
    let mut p: usize = 0;
    while p < pats.len()
        invariant
            0 <= p <= pats.len(),
            sv == sources(pats@),
            capture_lists_view(caps@) == pattern_captures(sv.take(p as int), text@),
        decreases pats.len() - p,
    {
        let c = group1_captures(&pats[p], text);
        let ghost before = caps@;
        caps.push(c);
        assert(capture_lists_view(caps@) =~= pattern_captures(sv.take(p + 1), text@)) by {
            assert(capture_lists_view(caps@) =~= capture_lists_view(before).push(captures_view(c@)));
            assert(sv.take(p + 1)[p as int] == pats@[p as int].source());
        }
        p = p + 1;
    }
    assert(sv.take(pats.len() as int) =~= sv);
    marks_from_captures(es, owners, &caps, n)
}

/// For each package, whether the group-1 captures `captures` (one list per
/// import pattern, as a regex search of one file gives them) import it: some
/// capture, lowercased, is one of the package's aliases (lowercased), or
/// starts with one followed by `/`, where the alias stands for that package
/// (the last package that declares it).
pub fn file_imports(packages: &Vec<PackageInfo>, captures: &Vec<Vec<Option<String>>>) -> (r: Vec<
    bool,
>)
    ensures
        r@.len() == packages@.len(),
        forall|i: int|
            0 <= i < packages@.len() ==> #[trigger] r@[i] == captures_list_use(
                alias_entries(packages_view(packages@)),
                capture_lists_view(captures@),
                i as nat,
            ),
{
    let n = packages.len();
    let es = build_entries(packages);
    let owners = entry_owners(&es, n);
    marks_from_captures(&es, &owners, captures, n)
}

/// Scan the source files `files` (the text of each, or none where it could
/// not be read) and record in each package how many of them import it, out
/// of how many were scanned.  Nothing changes when no pattern compiles, or
/// when there are no packages or no files.
pub fn compute_usage(
    packages: &mut Vec<PackageInfo>,
    import_patterns: &Vec<String>,
    files: &Vec<Option<String>>,
)
    ensures
        ({
            let pats = compiling(strings_view(import_patterns@));
            let es = alias_entries(packages_view(old(packages)@));
            if pats.len() == 0 || old(packages)@.len() == 0 || files@.len() == 0 {
                final(packages)@ == old(packages)@
            } else {
                &&& final(packages)@.len() == old(packages)@.len()
                &&& forall|i: int|
                    0 <= i < old(packages)@.len() ==> #[trigger] final(packages)@[i]@ == with_usage(
                        old(packages)@[i]@,
                        use_count(es, pats, files_view(files@), i as nat),
                        files@.len() as nat,
                    )
            }
        }),
{
    let regexes = compile_all(import_patterns);
    if regexes.len() == 0 || packages.len() == 0 || files.len() == 0 {
        return;
    }
    let n = packages.len();
    let es = build_entries(packages);
    let owners = entry_owners(&es, n);
    let ghost ev = entries_view(es@);
    let ghost sv = sources(regexes@);
    let ghost fv = files_view(files@);
    let mut counts: Vec<usize> = Vec::new();
    let mut i: usize = 0;
    while i < n
        invariant
            0 <= i <= n,
            counts@.len() == i,
            forall|j: int| 0 <= j < i ==> #[trigger] counts@[j] == 0,
        decreases n - i,
    {
        counts.push(0);
        i = i + 1;
    }
    let mut f: usize = 0;
    while f < files.len()
        invariant
            0 <= f <= files.len(),
            n == packages@.len(),
            ev == entries_view(es@),
            sv == sources(regexes@),
            fv == files_view(files@),
            owners@.len() == es@.len(),
            forall|k: int|
                0 <= k < es@.len() ==> alias_owner(entries_view(es@), es@[k].0@) == Some(
                    #[trigger] owners@[k] as nat,
                ),
            forall|k: int| 0 <= k < owners@.len() ==> #[trigger] owners@[k] < n,
            counts@.len() == n,
            forall|j: int|
                0 <= j < n ==> #[trigger] counts@[j] == use_count(ev, sv, fv.take(f as int), j as nat),
            forall|j: int| 0 <= j < n ==> #[trigger] counts@[j] <= f,
        decreases files.len() - f,
    {
        assert(fv.take(f + 1).drop_last() =~= fv.take(f as int));
        match &files[f] {
            Some(text) => {
                let marks = file_marks(&es, &owners, &regexes, text.as_str(), n);
                let mut j: usize = 0;
                while j < n
                    invariant
                        0 <= j <= n,
                        marks@.len() == n,
                        counts@.len() == n,
                        f < files.len(),
                        fv == files_view(files@),
                        files@[f as int] matches Some(t) && t@ == text@,
                        forall|q: int|
                            0 <= q < n ==> #[trigger] marks@[q] == text_uses(ev, sv, text@, q as nat),
                        forall|q: int|
                            0 <= q < j ==> #[trigger] counts@[q] == use_count(
                                ev,
                                sv,
                                fv.take(f + 1),
                                q as nat,
                            ),
                        forall|q: int| 0 <= q < j ==> #[trigger] counts@[q] <= f + 1,
                        forall|q: int|
                            j <= q < n ==> #[trigger] counts@[q] == use_count(
                                ev,
                                sv,
                                fv.take(f as int),
                                q as nat,
                            ),
                        forall|q: int| j <= q < n ==> #[trigger] counts@[q] <= f,
                    decreases n - j,
                {
                    assert(fv.take(f + 1).drop_last() =~= fv.take(f as int));
                    assert(fv.take(f + 1).last() == Some(text@));
                    if marks[j] {
                        let c = counts[j];
                        counts.set(j, c + 1);
                    }
                    j = j + 1;
                }
            },
            None => {
                proof {
                    assert(fv.take(f + 1).last() is None);
                }
            },
        }
        f = f + 1;
    }
    assert(fv.take(files.len() as int) =~= fv);
    let total = files.len();
    let mut k: usize = 0;
    while k < n
        invariant
            0 <= k <= n,
            n == old(packages)@.len(),
            packages@.len() == n,
            counts@.len() == n,
            forall|j: int|
                0 <= j < n ==> #[trigger] counts@[j] == use_count(ev, sv, fv, j as nat),
            forall|j: int|
                0 <= j < k ==> #[trigger] packages@[j]@ == with_usage(
                    old(packages)@[j]@,
                    counts@[j] as nat,
                    total as nat,
                ),
            forall|j: int| k <= j < n ==> #[trigger] packages@[j] == old(packages)@[j],
        decreases n - k,
    {
        let mut p = packages.remove(k);
        p.used_in_files = counts[k];
        p.scanned_files = total;
        packages.insert(k, p);
        k = k + 1;
    }
    proof {
        assert(ev == alias_entries(packages_view(old(packages)@)));
        assert(sv == compiling(strings_view(import_patterns@)));
    }
}

// ---------------------------------------------------------------------------
// Walking the tree
// ---------------------------------------------------------------------------

/// Directories that are never descended into during source walks.
pub open spec fn skipped_dirs() -> Seq<Seq<char>> {
    seq![
        "node_modules"@,
        ".git"@,
        "target"@,
        "vendor"@,
        "__pycache__"@,
        ".venv"@,
        "venv"@,
        "dist"@,
        "build"@,
        ".tox"@,
        ".mypy_cache"@,
        ".eggs"@,
        ".bundle"@,
    ]
}

fn str_equal(a: &str, b: &str) -> (r: bool)
    ensures
        r == (a@ == b@),
{
    let x = chars_of(a);
    let y = chars_of(b);
    chars_equal(&x, &y)
}

/// Whether a directory of this name is skipped by the source walk.
pub fn is_skipped_dir(name: &str) -> (r: bool)
    ensures
        r == skipped_dirs().contains(name@),
{
    let dirs: Vec<&str> = vec![
        "node_modules",
        ".git",
        "target",
        "vendor",
        "__pycache__",
        ".venv",
        "venv",
        "dist",
        "build",
        ".tox",
        ".mypy_cache",
        ".eggs",
        ".bundle",
    ];
    let ghost dv = dirs@.map_values(|d: &str| d@);
    assert(dv =~= skipped_dirs());
    let mut i: usize = 0;
    while i < dirs.len()
        invariant
            0 <= i <= dirs.len(),
            dv == dirs@.map_values(|d: &str| d@),
            dv == skipped_dirs(),
            forall|j: int| 0 <= j < i ==> dv[j] != name@,
        decreases dirs.len() - i,
    {
        if str_equal(dirs[i], name) {
            assert(dv[i as int] == name@);
            return true;
        }
        i = i + 1;
    }
    false
}

/// Whether a file with extension `ext` is one of the ecosystem's sources.
pub fn has_source_extension(ext: &str, extensions: &Vec<&str>) -> (r: bool)
    ensures
        r == extensions@.map_values(|e: &str| e@).contains(ext@),
{
    let ghost ev = extensions@.map_values(|e: &str| e@);
    let mut i: usize = 0;
    while i < extensions.len()
        invariant
            0 <= i <= extensions.len(),
            ev == extensions@.map_values(|e: &str| e@),
            forall|j: int| 0 <= j < i ==> ev[j] != ext@,
        decreases extensions.len() - i,
    {
        if str_equal(extensions[i], ext) {
            assert(ev[i as int] == ext@);
            return true;
        }
        i = i + 1;
    }
    false
}

} // verus!
