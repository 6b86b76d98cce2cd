//! Ruby: `gem` lines of a `Gemfile`, checked against `Gemfile.lock`.
use vstd::prelude::*;

use crate::ecosystems::{
    lookup, lookup_last, new_package, pairs_view, push_opt, push_pair, resolve, resolved,
};
use crate::text::{
    chars_of, char_class, char_is_ws, find_char, is_ws, line_ranges, lines, non_ws_class, owned,
    pos_of, ranges_in, ranges_view, range_equals, range_starts_with, string_of, trim, trim_range,
    lemma_pos_of_is,
};
use crate::types::{PackageInfo, PackageModel, packages_view};

verus! {

/// The Ruby ecosystem: `Gemfile` manifests and gems.
pub struct RubyEcosystem;

impl RubyEcosystem {
    /// Human-readable ecosystem name.
    pub fn name(&self) -> (r: &'static str)
        ensures
            r@ == "Ruby"@,
    {
        "Ruby"
    }

    /// The manifest whose presence marks a Ruby project.
    pub fn manifest_files(&self) -> (r: Vec<&'static str>)
        ensures
            r@.len() == 1,
            r@[0]@ == "Gemfile"@,
    {
        vec!["Gemfile"]
    }

    /// File extensions of Ruby sources.
    pub fn source_extensions(&self) -> (r: Vec<&'static str>)
        ensures
            r@.len() == 1,
            r@[0]@ == "rb"@,
    {
        vec!["rb"]
    }

    /// Regex patterns whose first group captures a required gem: `require
    /// 'gem'` or `require "gem"`, relative paths excluded.
    pub fn import_patterns(&self) -> (r: Vec<String>)
        ensures
            r@.len() == 1,
            r@[0]@ == "(?m)^\\s*require[\\s(]+['\"]([^'\"./][^'\"]*)['\"]"@,
    {
        let mut r: Vec<String> = Vec::new();
        r.push(owned("(?m)^\\s*require[\\s(]+['\"]([^'\"./][^'\"]*)['\"]"));
        r
    }

    /// The packages for the declared gems, each looked up among the locked
    /// versions `locked` (name, version).
    pub fn check_packages(
        &self,
        declared: &Vec<(String, String)>,
        locked: &Vec<(String, String)>,
    ) -> (r: Vec<PackageInfo>)
        ensures
            packages_view(r@) == pairs_view(declared@).map_values(
                |d: (Seq<char>, Seq<char>)| ruby_package(d, pairs_view(locked@)),
            ),
    {
        let mut out: Vec<PackageInfo> = Vec::new();
        let mut i: usize = 0;
        while i < declared.len()
            invariant
                0 <= i <= declared.len(),
                packages_view(out@) == pairs_view(declared@).take(i as int).map_values(
                    |d: (Seq<char>, Seq<char>)| ruby_package(d, pairs_view(locked@)),
                ),
            decreases declared.len() - i,
        {
            let name = &declared[i].0;
            let (status, version) = resolve(lookup_last(locked, name), &declared[i].1);
            let p = new_package(name.clone(), owned("N/A"), "Ruby", version, status, name.clone());
            let ghost old_out = out@;
            out.push(p);
            proof {
                let f = |d: (Seq<char>, Seq<char>)| ruby_package(d, pairs_view(locked@));
                assert(pairs_view(declared@).take(i + 1) =~= pairs_view(declared@).take(
                    i as int,
                ).push(pairs_view(declared@)[i as int]));
                assert(packages_view(out@) =~= packages_view(old_out).push(p@));
                assert(packages_view(out@) =~= pairs_view(declared@).take(i + 1).map_values(f));
            }
            i = i + 1;
        }
        assert(pairs_view(declared@).take(declared.len() as int) =~= pairs_view(declared@));
        out
    }
}

/// The package record of a declared gem `d` (name, required version).
pub open spec fn ruby_package(d: (Seq<char>, Seq<char>), locked: Seq<(Seq<char>, Seq<char>)>) -> PackageModel {
    let (status, version) = resolved(lookup(locked, d.0), d.1);
    PackageModel {
        name: d.0,
        description: "N/A"@,
        language: "Ruby"@,
        version,
        status,
        used_in_files: 0,
        scanned_files: 0,
        import_aliases: seq![d.0],
    }
}

// ---------------------------------------------------------------------------
// Gemfile
// ---------------------------------------------------------------------------

/// Single and double quotes.
pub open spec fn quote_class() -> spec_fn(char) -> bool {
    |c: char| c == '\'' || c == '"'
}

/// The content of the first quoted string in `s`: from its first single or
/// double quote to the next quote of the same kind, if there is one.
pub open spec fn quoted(s: Seq<char>) -> Option<Seq<char>> {
    let i = pos_of(s, quote_class());
    if i >= s.len() {
        None
    } else {
        let rest = s.skip(i + 1int);
        let e = pos_of(rest, char_class(s[i as int]));
        if e < rest.len() {
            Some(rest.take(e as int))
        } else {
            None
        }
    }
}

/// A text that opens with `'` and closes it at `m + 1` quotes the text
/// between.
pub proof fn lemma_quoted_single(s: Seq<char>, m: int)
    requires
        0 <= m,
        m + 1 < s.len(),
        s[0] == '\'',
        forall|j: int| 1 <= j <= m ==> #[trigger] s[j] != '\'',
        s[m + 1] == '\'',
    ensures
        quoted(s) == Some(s.subrange(1, m + 1)),
{
    lemma_pos_of_is(s, quote_class(), 0);
    let r = s.skip(1);
    assert forall|j: int| 0 <= j < m implies !char_class('\'')(#[trigger] r[j]) by {
        assert(r[j] == s[j + 1]);
    }
    assert(r[m] == s[m + 1]);
    lemma_pos_of_is(r, char_class('\''), m);
    assert(r.take(m) =~= s.subrange(1, m + 1));
}

/// `lo` plus the position of the first quote in `v[lo..hi]` (or `hi`).
fn find_quote(v: &Vec<char>, lo: usize, hi: usize) -> (k: usize)
    requires
        lo <= hi <= v.len(),
    ensures
        lo <= k <= hi,
        k - lo == pos_of(v@.subrange(lo as int, hi as int), quote_class()),
{
    let mut k = lo;
    while k < hi && v[k] != '\'' && v[k] != '"'
        invariant
            lo <= k <= hi <= v.len(),
            forall|j: int| lo <= j < k ==> !quote_class()(#[trigger] v@[j]),
        decreases hi - k,
    {
        k = k + 1;
    }
    proof {
        let s = v@.subrange(lo as int, hi as int);
        assert forall|j: int| 0 <= j < k - lo implies !quote_class()(#[trigger] s[j]) by {
            assert(s[j] == v@[lo + j]);
        }
        if k < hi {
            assert(s[k - lo] == v@[k as int]);
        }
        lemma_pos_of_is(s, quote_class(), k - lo);
    }
    k
}

fn quoted_range(v: &Vec<char>, lo: usize, hi: usize) -> (r: Option<(usize, usize)>)
    requires
        lo <= hi <= v.len(),
    ensures
        match r {
            Some((a, b)) => lo <= a <= b <= hi && quoted(v@.subrange(lo as int, hi as int))
                == Some(v@.subrange(a as int, b as int)),
            None => quoted(v@.subrange(lo as int, hi as int)) is None,
        },
{
    let k = find_quote(v, lo, hi);
    if k == hi {
        return None;
    }
    let q = v[k];
    let e = find_char(v, k + 1, hi, q);
    proof {
        let s = v@.subrange(lo as int, hi as int);
        assert(s[k - lo] == q);
        assert(s.skip(k - lo + 1) =~= v@.subrange(k + 1, hi as int));
    }
    if e == hi {
        None
    } else {
        proof {
            let s = v@.subrange(lo as int, hi as int);
            assert(s.skip(k - lo + 1).take(e - (k + 1)) =~= v@.subrange(k + 1, e as int));
        }
        Some((k + 1, e))
    }
}

/// Return the content of the first single- or double-quoted string in `s`.
pub fn extract_quoted(s: &str) -> (r: Option<String>)
    ensures
        match r {
            Some(x) => quoted(s@) == Some(x@),
            None => quoted(s@) is None,
        },
{
    let v = chars_of(s);
    assert(v@.subrange(0, v@.len() as int) =~= v@);
    match quoted_range(&v, 0, v.len()) {
        Some((a, b)) => Some(string_of(&v, a, b)),
        None => None,
    }
}

/// The gem and version of a `gem 'name', 'version'` line, if it is one.
pub open spec fn gem_line(line: Seq<char>) -> Option<(Seq<char>, Seq<char>)> {
    let t = trim(line);
    if t.len() == 0 || t[0] == '#' || !("gem "@.is_prefix_of(t)) {
        None
    } else {
        let rest = trim(t.skip("gem "@.len() as int));
        match quoted(rest) {
            Some(name) => {
                let c = pos_of(rest, char_class(','));
                let version = if c < rest.len() {
                    match quoted(trim(rest.skip(c as int + 1))) {
                        Some(v) => v,
                        None => "*"@,
                    }
                } else {
                    "*"@
                };
                Some((name, version))
            },
            None => None,
        }
    }
}

pub open spec fn gemfile_fold(ls: Seq<Seq<char>>) -> Seq<(Seq<char>, Seq<char>)>
    decreases ls.len(),
{
    if ls.len() == 0 {
        seq![]
    } else {
        push_opt(gemfile_fold(ls.drop_last()), gem_line(ls.last()))
    }
}

/// The (gem, version) pairs that a Gemfile declares, in order.
pub open spec fn gemfile_gems(content: Seq<char>) -> Seq<(Seq<char>, Seq<char>)> {
    gemfile_fold(lines(content))
}

fn gem_line_range(v: &Vec<char>, lo: usize, hi: usize) -> (r: Option<(String, String)>)
    requires
        lo <= hi <= v.len(),
    ensures
        match r {
            Some(p) => gem_line(v@.subrange(lo as int, hi as int)) == Some((p.0@, p.1@)),
            None => gem_line(v@.subrange(lo as int, hi as int)) is None,
        },
{
    proof {
        reveal_strlit("gem ");
        reveal_strlit("*");
    }
    let (a, b) = trim_range(v, lo, hi);
    if a == b || v[a] == '#' || !range_starts_with(v, a, b, "gem ") {
        return None;
    }
    let (ra, rb) = trim_range(v, a + 4, b);
    proof {
        assert(v@.subrange(a + 4, b as int) =~= v@.subrange(a as int, b as int).skip(4));
    }
    match quoted_range(v, ra, rb) {
        Some((na, nb)) => {
            let name = string_of(v, na, nb);
            let c = find_char(v, ra, rb, ',');
            let version = if c < rb {
                let (va, vb) = trim_range(v, c + 1, rb);
                proof {
                    assert(v@.subrange(c + 1, rb as int) =~= v@.subrange(ra as int, rb as int).skip(
                        c - ra + 1,
                    ));
                }
                match quoted_range(v, va, vb) {
                    Some((qa, qb)) => string_of(v, qa, qb),
                    None => owned("*"),
                }
            } else {
                owned("*")
            };
            Some((name, version))
        },
        None => None,
    }
}

/// Extract `gem 'name', 'version'` lines from a Gemfile.
pub fn parse_gemfile(content: &str) -> (r: Vec<(String, String)>)
    ensures
        pairs_view(r@) == gemfile_gems(content@),
{
    let v = chars_of(content);
    let ls = line_ranges(&v);
    let mut out: Vec<(String, String)> = Vec::new();
    let mut i: usize = 0;
    while i < ls.len()
        invariant
            0 <= i <= ls.len(),
            v@ == content@,
            ranges_in(v@, ls@),
            ranges_view(v@, ls@) == lines(v@),
            pairs_view(out@) == gemfile_fold(ranges_view(v@, ls@).take(i as int)),
        decreases ls.len() - i,
    {
        let (lo, hi) = ls[i];
        proof {
            assert(ranges_view(v@, ls@).take(i + 1).drop_last() =~= ranges_view(v@, ls@).take(
                i as int,
            ));
            assert(ranges_view(v@, ls@)[i as int] == v@.subrange(lo as int, hi as int));
        }
        match gem_line_range(&v, lo, hi) {
            Some((a, b)) => push_pair(&mut out, a, b),
            None => {},
        }
        i = i + 1;
    }
    assert(ranges_view(v@, ls@).take(ls.len() as int) =~= lines(v@));
    out
}

// ---------------------------------------------------------------------------
// Gemfile.lock
// ---------------------------------------------------------------------------

/// Bytes that UTF-8 takes for `c`.
pub open spec fn utf8_width(c: char) -> nat {
    let u = c as u32;
    if u < 0x80 {
        1
    } else if u < 0x800 {
        2
    } else if u < 0x10000 {
        3
    } else {
        4
    }
}

/// Bytes that UTF-8 takes for `s`.
pub open spec fn utf8_len(s: Seq<char>) -> nat
    decreases s.len(),
{
    if s.len() == 0 {
        0
    } else {
        utf8_len(s.drop_last()) + utf8_width(s.last())
    }
}

proof fn lemma_utf8_len_mono(s: Seq<char>, i: int, j: int)
    requires
        0 <= i <= j <= s.len(),
    ensures
        utf8_len(s.take(i)) <= utf8_len(s.take(j)),
    decreases j - i,
{
    if i < j {
        assert(s.take(j).drop_last() =~= s.take(j - 1));
        lemma_utf8_len_mono(s, i, j - 1);
    }
}

/// Width in bytes of the white space that `line` starts with.
pub open spec fn indent_bytes(line: Seq<char>) -> nat {
    utf8_len(line.take(pos_of(line, non_ws_class()) as int))
}

/// A spec line `name (version)`: the name before the first `(`, the text
/// between it and the first `)`.  A line without both brackets, or whose
/// first `)` comes before its first `(`, is no spec line.
pub open spec fn spec_line(t: Seq<char>) -> Option<(Seq<char>, Seq<char>)> {
    let ps = pos_of(t, char_class('('));
    let pe = pos_of(t, char_class(')'));
    if ps >= t.len() || pe >= t.len() || pe < ps {
        None
    } else {
        Some((trim(t.take(ps as int)), t.subrange(ps as int + 1, pe as int)))
    }
}

fn spec_line_range(v: &Vec<char>, lo: usize, hi: usize) -> (r: Option<(String, String)>)
    requires
        lo <= hi <= v.len(),
    ensures
        match r {
            Some(p) => spec_line(v@.subrange(lo as int, hi as int)) == Some((p.0@, p.1@)),
            None => spec_line(v@.subrange(lo as int, hi as int)) is None,
        },
{
    let ps = find_char(v, lo, hi, '(');
    let pe = find_char(v, lo, hi, ')');
    proof {
        let t = v@.subrange(lo as int, hi as int);
        crate::text::lemma_pos_of_bounds(t, char_class('('));
        crate::text::lemma_pos_of_bounds(t, char_class(')'));
    }
    if ps == hi || pe == hi || pe < ps {
        return None;
    }
    let (na, nb) = trim_range(v, lo, ps);
    proof {
        let t = v@.subrange(lo as int, hi as int);
        assert(t.take(ps - lo) =~= v@.subrange(lo as int, ps as int));
        assert(t.subrange(ps - lo + 1, pe - lo) =~= v@.subrange(ps + 1, pe as int));
    }
    Some((string_of(v, na, nb), string_of(v, ps + 1, pe)))
}

/// Parse a spec line like `rails (7.0.4)` into `(name, version)`.
pub fn parse_spec_line(line: &str) -> (r: Option<(String, String)>)
    ensures
        match r {
            Some(p) => spec_line(line@) == Some((p.0@, p.1@)),
            None => spec_line(line@) is None,
        },
{
    let v = chars_of(line);
    assert(v@.subrange(0, v@.len() as int) =~= v@);
    spec_line_range(&v, 0, v.len())
}

/// State after some lines of `Gemfile.lock`: the (gem, version) pairs found
/// and whether a `specs:` section is open.
pub open spec fn lock_step(st: (Seq<(Seq<char>, Seq<char>)>, bool), line: Seq<char>) -> (
    Seq<(Seq<char>, Seq<char>)>,
    bool,
) {
    let t = trim(line);
    if t == "specs:"@ {
        (st.0, true)
    } else if st.1 && !(" "@.is_prefix_of(line)) && t.len() != 0 {
        (st.0, false)
    } else if st.1 && indent_bytes(line) == 4 {
        (push_opt(st.0, spec_line(t)), true)
    } else {
        st
    }
}

pub open spec fn lock_fold(ls: Seq<Seq<char>>) -> (Seq<(Seq<char>, Seq<char>)>, bool)
    decreases ls.len(),
{
    if ls.len() == 0 {
        (seq![], false)
    } else {
        lock_step(lock_fold(ls.drop_last()), ls.last())
    }
}

/// The (gem, version) pairs of the `specs:` sections of a lock file, in order.
pub open spec fn locked_gems(content: Seq<char>) -> Seq<(Seq<char>, Seq<char>)> {
    lock_fold(lines(content)).0
}

/// Whether the white space that `v[lo..hi]` starts with takes exactly 4 bytes.
fn indent_is_four(v: &Vec<char>, lo: usize, hi: usize) -> (b: bool)
    requires
        lo <= hi <= v.len(),
    ensures
        b == (indent_bytes(v@.subrange(lo as int, hi as int)) == 4),
{
    let ghost s = v@.subrange(lo as int, hi as int);
    let mut k = lo;
    let mut acc: usize = 0;
    while k < hi && char_is_ws(v[k]) && acc <= 4
        invariant
            lo <= k <= hi <= v.len(),
            s == v@.subrange(lo as int, hi as int),
            acc <= 8,
            forall|j: int| lo <= j < k ==> is_ws(#[trigger] v@[j]),
            acc == utf8_len(s.take(k - lo)),
        decreases hi - k,
    {
        let c = v[k];
        let u = c as u32;
        let w: usize = if u < 0x80 {
            1
        } else if u < 0x800 {
            2
        } else if u < 0x10000 {
            3
        } else {
            4
        };
        assert(s.take(k + 1 - lo).drop_last() =~= s.take(k - lo));
        acc = acc + w;
        k = k + 1;
    }
    let ghost p = pos_of(s, non_ws_class());
    proof {
        crate::text::lemma_pos_of_bounds(s, non_ws_class());
        if acc <= 4 {
            assert forall|j: int| 0 <= j < k - lo implies !non_ws_class()(#[trigger] s[j]) by {
                assert(s[j] == v@[lo + j]);
            }
            lemma_pos_of_is(s, non_ws_class(), k - lo);
        } else {
            assert forall|j: int| 0 <= j < k - lo implies !non_ws_class()(#[trigger] s[j]) by {
                assert(s[j] == v@[lo + j]);
            }
            if p < k - lo {
                assert(!non_ws_class()(s[p as int]));
            }
            lemma_utf8_len_mono(s, k - lo, p as int);
        }
    }
    acc == 4
}

/// Parse the GEM/specs sections of `Gemfile.lock` for resolved gem versions.
/// Only lines indented by exactly four bytes of white space are read.  A
/// later pair for the same gem takes precedence in lookups.
pub fn parse_gemfile_lock(content: &str) -> (r: Vec<(String, String)>)
    ensures
        pairs_view(r@) == locked_gems(content@),
{
    let v = chars_of(content);
    let ls = line_ranges(&v);
    let mut out: Vec<(String, String)> = Vec::new();
    let mut in_specs = false;
    let mut i: usize = 0;
    while i < ls.len()
        invariant
            0 <= i <= ls.len(),
            v@ == content@,
            ranges_in(v@, ls@),
            ranges_view(v@, ls@) == lines(v@),
            (pairs_view(out@), in_specs) == lock_fold(ranges_view(v@, ls@).take(i as int)),
        decreases ls.len() - i,
    {
        let (lo, hi) = ls[i];
        proof {
            assert(ranges_view(v@, ls@).take(i + 1).drop_last() =~= ranges_view(v@, ls@).take(
                i as int,
            ));
            assert(ranges_view(v@, ls@)[i as int] == v@.subrange(lo as int, hi as int));
        }
        let (a, b) = trim_range(&v, lo, hi);
        if range_equals(&v, a, b, "specs:") {
            in_specs = true;
        } else if in_specs && !range_starts_with(&v, lo, hi, " ") && a != b {
            in_specs = false;
        } else if in_specs && indent_is_four(&v, lo, hi) {
            match spec_line_range(&v, a, b) {
                Some((x, y)) => push_pair(&mut out, x, y),
                None => {},
            }
        }
        i = i + 1;
    }
    assert(ranges_view(v@, ls@).take(ls.len() as int) =~= lines(v@));
    out
}

} // verus!
