//! Go: `go.mod` require directives, checked against `go list -m all`.
use vstd::prelude::*;

use crate::ecosystems::{
    decode_lossy, lookup, lookup_last, new_package, pairs_view, push_opt, push_pair, resolve,
    resolved,
};
use crate::text::{
    chars_of, end_of, first_two_words, line_ranges, lines, ranges_in, ranges_view,
    range_equals, range_starts_with, string_of, trim, trim_range, words, char_class, owned,
    lemma_end_of_is,
};
use crate::types::{PackageInfo, PackageModel, packages_view};

verus! {

/// The Go ecosystem: `go.mod` manifests and Go modules.
pub struct GoEcosystem;

impl GoEcosystem {
    /// Human-readable ecosystem name.
    pub fn name(&self) -> (r: &'static str)
        ensures
            r@ == "Go"@,
    {
        "Go"
    }

    /// The manifest whose presence marks a Go project.
    pub fn manifest_files(&self) -> (r: Vec<&'static str>)
        ensures
            r@.len() == 1,
            r@[0]@ == "go.mod"@,
    {
        vec!["go.mod"]
    }

    /// File extensions of Go sources.
    pub fn source_extensions(&self) -> (r: Vec<&'static str>)
        ensures
            r@.len() == 1,
            r@[0]@ == "go"@,
    {
        vec!["go"]
    }

    /// Regex patterns whose first group captures an imported module path.
    pub fn import_patterns(&self) -> (r: Vec<String>)
        ensures
            r@.len() == 3,
            r@[0]@ == "(?m)^\\s*import\\s+\"([^\"]+)\""@,
            r@[1]@ == "(?m)^\\s+\"([^\"]+)\""@,
            r@[2]@ == "(?m)^\\s+\\S+\\s+\"([^\"]+)\""@,
    {
        let mut r: Vec<String> = Vec::new();
        r.push(owned("(?m)^\\s*import\\s+\"([^\"]+)\""));
        r.push(owned("(?m)^\\s+\"([^\"]+)\""));
        r.push(owned("(?m)^\\s+\\S+\\s+\"([^\"]+)\""));
        r
    }

    /// The packages for the declared requirements, each looked up among the
    /// downloaded modules `installed` (module path, version).
    pub fn check_packages(
        &self,
        declared: &Vec<(String, String)>,
        installed: &Vec<(String, String)>,
    ) -> (r: Vec<PackageInfo>)
        ensures
            packages_view(r@) == pairs_view(declared@).map_values(
                |d: (Seq<char>, Seq<char>)| go_package(d, pairs_view(installed@)),
            ),
    {
        let mut out: Vec<PackageInfo> = Vec::new();
        let mut i: usize = 0;
        while i < declared.len()
            invariant
                0 <= i <= declared.len(),
                packages_view(out@) == pairs_view(declared@).take(i as int).map_values(
                    |d: (Seq<char>, Seq<char>)| go_package(d, pairs_view(installed@)),
                ),
            decreases declared.len() - i,
        {
            let mod_path = &declared[i].0;
            let required = &declared[i].1;
            let (status, version) = resolve(lookup_last(installed, mod_path), required);
            let short = last_segment(mod_path.as_str());
            let p = new_package(
                short,
                mod_path.clone(),
                "Go",
                version,
                status,
                mod_path.clone(),
            );
            let ghost old_out = out@;
            out.push(p);
            proof {
                let f = |d: (Seq<char>, Seq<char>)| go_package(d, pairs_view(installed@));
                assert(pairs_view(declared@).take(i + 1) =~= pairs_view(declared@).take(
                    i as int,
                ).push(pairs_view(declared@)[i as int]));
                assert(packages_view(out@) =~= packages_view(old_out).push(p@));
                assert(p@ == f(pairs_view(declared@)[i as int]));
                assert(packages_view(out@) =~= pairs_view(declared@).take(i + 1).map_values(f));
            }
            i = i + 1;
        }
        assert(pairs_view(declared@).take(declared.len() as int) =~= pairs_view(declared@));
        out
    }
}

/// The package record of a declared module `d` (path, required version).
pub open spec fn go_package(d: (Seq<char>, Seq<char>), installed: Seq<(Seq<char>, Seq<char>)>) -> PackageModel {
    let (status, version) = resolved(lookup(installed, d.0), d.1);
    PackageModel {
        name: last_segment_of(d.0),
        description: d.0,
        language: "Go"@,
        version,
        status,
        used_in_files: 0,
        scanned_files: 0,
        import_aliases: seq![d.0],
    }
}

/// The part of a module path after its last `/` (all of it if there is none).
pub open spec fn last_segment_of(s: Seq<char>) -> Seq<char> {
    s.skip(end_of(s, char_class('/')) as int)
}

/// The last `/`-separated segment of `s`.
pub fn last_segment(s: &str) -> (r: String)
    ensures
        r@ == last_segment_of(s@),
{
    let v = chars_of(s);
    let mut k = v.len();
    while k > 0 && v[k - 1] != '/'
        invariant
            k <= v.len(),
            forall|j: int| k <= j < v.len() ==> v@[j] != '/',
        decreases k,
    {
        k = k - 1;
    }
    proof {
        lemma_end_of_is(v@, char_class('/'), k as int);
    }
    string_of(&v, k, v.len())
}

// ---------------------------------------------------------------------------
// require lines
// ---------------------------------------------------------------------------

/// Index where the first `//` of `s` starts, or `s.len()`.
pub open spec fn comment_start(s: Seq<char>) -> nat
    decreases s.len(),
{
    if s.len() < 2 {
        s.len()
    } else if s[0] == '/' && s[1] == '/' {
        0
    } else {
        1 + comment_start(s.drop_first())
    }
}

proof fn lemma_comment_start_is(s: Seq<char>, k: int)
    requires
        0 <= k <= s.len(),
        forall|j: int| 0 <= j < k && j + 1 < s.len() ==> !(#[trigger] s[j] == '/' && s[j + 1] == '/'),
        k == s.len() || (k + 1 < s.len() && s[k] == '/' && s[k + 1] == '/'),
    ensures
        comment_start(s) == k,
    decreases s.len(),
{
    if s.len() >= 2 && k > 0 {
        assert(!(s[0] == '/' && s[1] == '/'));
        assert forall|j: int|
            0 <= j < k - 1 && j + 1 < s.drop_first().len() implies !(#[trigger] s.drop_first()[j]
            == '/' && s.drop_first()[j + 1] == '/') by {
            assert(s.drop_first()[j] == s[j + 1]);
            assert(s.drop_first()[j + 1] == s[j + 2]);
        }
        lemma_comment_start_is(s.drop_first(), k - 1);
    }
}

/// A `require` line `path version [// comment]`, read as (path, version).
pub open spec fn require_line(s: Seq<char>) -> Option<(Seq<char>, Seq<char>)> {
    let t = trim(s);
    if t.len() == 0 || "//"@.is_prefix_of(t) {
        None
    } else {
        let w = words(trim(t.take(comment_start(t) as int)));
        if w.len() >= 2 {
            Some((w[0], w[1]))
        } else {
            None
        }
    }
}

fn require_line_range(v: &Vec<char>, lo: usize, hi: usize) -> (r: Option<(String, String)>)
    requires
        lo <= hi <= v.len(),
    ensures
        match r {
            Some(p) => require_line(v@.subrange(lo as int, hi as int)) == Some((p.0@, p.1@)),
            None => require_line(v@.subrange(lo as int, hi as int)) is None,
        },
{
    let (a, b) = trim_range(v, lo, hi);
    if a == b || range_starts_with(v, a, b, "//") {
        return None;
    }
    let ghost t = v@.subrange(a as int, b as int);
    let mut k = a;
    while k < b - 1 && !(v[k] == '/' && v[k + 1] == '/')
        invariant
            a <= k <= b <= v.len(),
            a < b,
            forall|j: int| a <= j < k && j + 1 < b ==> !(#[trigger] v@[j] == '/' && v@[j + 1] == '/'),
        decreases b - k,
    {
        k = k + 1;
    }
    if k >= b - 1 {
        k = b;
    }
    proof {
        assert forall|j: int| 0 <= j < k - a && j + 1 < t.len() implies !(#[trigger] t[j] == '/'
            && t[j + 1] == '/') by {
            assert(t[j] == v@[a + j]);
            assert(t[j + 1] == v@[a + j + 1]);
        }
        lemma_comment_start_is(t, k - a);
        assert(t.take(k - a) =~= v@.subrange(a as int, k as int));
    }
    let (c0, c1) = trim_range(v, a, k);
    match first_two_words(v, c0, c1) {
        Some((w0, w1)) => Some((string_of(v, w0.0, w0.1), string_of(v, w1.0, w1.1))),
        None => None,
    }
}

/// Parse a single require line like `github.com/foo/bar v1.2.3 // indirect`.
pub fn parse_require_line(line: &str) -> (r: Option<(String, String)>)
    ensures
        match r {
            Some(p) => require_line(line@) == Some((p.0@, p.1@)),
            None => require_line(line@) is None,
        },
{
    let v = chars_of(line);
    assert(v@.subrange(0, v@.len() as int) =~= v@);
    require_line_range(&v, 0, v.len())
}

// ---------------------------------------------------------------------------
// go.mod
// ---------------------------------------------------------------------------

/// Reading state after some lines of `go.mod`: the requirements found so far
/// and whether a `require ( ... )` block is open.
pub open spec fn go_mod_step(st: (Seq<(Seq<char>, Seq<char>)>, bool), line: Seq<char>) -> (
    Seq<(Seq<char>, Seq<char>)>,
    bool,
) {
    let t = trim(line);
    if "require ("@.is_prefix_of(t) || t == "require ("@ {
        (st.0, true)
    } else if st.1 {
        if t == ")"@ {
            (st.0, false)
        } else {
            (push_opt(st.0, require_line(t)), true)
        }
    } else if "require "@.is_prefix_of(t) {
        (push_opt(st.0, require_line(t.skip("require "@.len() as int))), false)
    } else {
        st
    }
}

pub open spec fn go_mod_fold(ls: Seq<Seq<char>>) -> (Seq<(Seq<char>, Seq<char>)>, bool)
    decreases ls.len(),
{
    if ls.len() == 0 {
        (seq![], false)
    } else {
        go_mod_step(go_mod_fold(ls.drop_last()), ls.last())
    }
}

/// The (module path, version) requirements of a `go.mod` text, in order.
pub open spec fn go_mod_requirements(content: Seq<char>) -> Seq<(Seq<char>, Seq<char>)> {
    go_mod_fold(lines(content)).0
}

fn push_require(out: &mut Vec<(String, String)>, p: Option<(String, String)>)
    ensures
        pairs_view(final(out)@) == push_opt(
            pairs_view(old(out)@),
            match p {
                Some(x) => Some((x.0@, x.1@)),
                None => None,
            },
        ),
{
    match p {
        Some((a, b)) => push_pair(out, a, b),
        None => {},
    }
}

/// Extract `require` directives from a `go.mod` file.
pub fn parse_go_mod(content: &str) -> (r: Vec<(String, String)>)
    ensures
        pairs_view(r@) == go_mod_requirements(content@),
{
    let v = chars_of(content);
    let ls = line_ranges(&v);
    let mut deps: Vec<(String, String)> = Vec::new();
    let mut in_block = false;
    let mut i: usize = 0;
    proof {
        reveal_strlit("require ");
    }
    while i < ls.len()
        invariant
            0 <= i <= ls.len(),
            v@ == content@,
            ranges_in(v@, ls@),
            ranges_view(v@, ls@) == lines(v@),
            (pairs_view(deps@), in_block) == go_mod_fold(ranges_view(v@, ls@).take(i as int)),
            "require "@.len() == 8,
        decreases ls.len() - i,
    {
        let (lo, hi) = ls[i];
        proof {
            assert(ranges_view(v@, ls@).take(i + 1).drop_last() =~= ranges_view(v@, ls@).take(
                i as int,
            ));
            assert(ranges_view(v@, ls@)[i as int] == v@.subrange(lo as int, hi as int));
        }
        let (a, b) = trim_range(&v, lo, hi);
        if range_starts_with(&v, a, b, "require (") || range_equals(&v, a, b, "require (") {
            in_block = true;
        } else if in_block {
            if range_equals(&v, a, b, ")") {
                in_block = false;
            } else {
                let p = require_line_range(&v, a, b);
                push_require(&mut deps, p);
            }
        } else if range_starts_with(&v, a, b, "require ") {
            let p = require_line_range(&v, a + 8, b);
            proof {
                assert(v@.subrange(a + 8, b as int) =~= v@.subrange(a as int, b as int).skip(8));
            }
            push_require(&mut deps, p);
        }
        i = i + 1;
    }
    assert(ranges_view(v@, ls@).take(ls.len() as int) =~= lines(v@));
    deps
}

// ---------------------------------------------------------------------------
// go list -m all
// ---------------------------------------------------------------------------

/// The first two words of a line, when it has that many.
pub open spec fn two_words(line: Seq<char>) -> Option<(Seq<char>, Seq<char>)> {
    let w = words(line);
    if w.len() >= 2 {
        Some((w[0], w[1]))
    } else {
        None
    }
}

pub open spec fn two_words_fold(ls: Seq<Seq<char>>) -> Seq<(Seq<char>, Seq<char>)>
    decreases ls.len(),
{
    if ls.len() == 0 {
        seq![]
    } else {
        push_opt(two_words_fold(ls.drop_last()), two_words(ls.last()))
    }
}

/// The (first word, second word) pairs of the lines of `text` that have two
/// words or more, in order.
pub fn two_word_lines(text: &str) -> (r: Vec<(String, String)>)
    ensures
        pairs_view(r@) == two_words_fold(lines(text@)),
{
    let v = chars_of(text);
    let ls = line_ranges(&v);
    let mut out: Vec<(String, String)> = Vec::new();
    let mut i: usize = 0;
    while i < ls.len()
        invariant
            0 <= i <= ls.len(),
            v@ == text@,
            ranges_in(v@, ls@),
            ranges_view(v@, ls@) == lines(v@),
            pairs_view(out@) == two_words_fold(ranges_view(v@, ls@).take(i as int)),
        decreases ls.len() - i,
    {
        let (lo, hi) = ls[i];
        proof {
            assert(ranges_view(v@, ls@).take(i + 1).drop_last() =~= ranges_view(v@, ls@).take(
                i as int,
            ));
            assert(ranges_view(v@, ls@)[i as int] == v@.subrange(lo as int, hi as int));
        }
        match first_two_words(&v, lo, hi) {
            Some((w0, w1)) => {
                let a = string_of(&v, w0.0, w0.1);
                let b = string_of(&v, w1.0, w1.1);
                push_pair(&mut out, a, b);
            },
            None => {},
        }
        i = i + 1;
    }
    assert(ranges_view(v@, ls@).take(ls.len() as int) =~= lines(v@));
    out
}

/// The (module path, version) pairs that `go list -m all` printed, decoded
/// as `String::from_utf8_lossy` does.  A later pair for the same module
/// takes precedence in lookups.
pub fn installed_go_modules(stdout: &[u8]) -> (r: Vec<(String, String)>)
    ensures
        pairs_view(r@) == two_words_fold(lines(crate::ecosystems::utf8_lossy(stdout@))),
{
    let text = decode_lossy(stdout);
    two_word_lines(text.as_str())
}

} // verus!
