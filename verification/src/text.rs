//! Character-level text helpers, specified over `Seq<char>`.
//!
//! Texts are read once into a `Vec<char>`; the parsers then work on ranges
//! `lo..hi` of that vector, and every exec helper states what it computes in
//! terms of the spec functions of this module.
use vstd::prelude::*;

verus! {

pub assume_specification[ String::push ](s: &mut String, ch: char)
    ensures
        final(s)@ == old(s)@.push(ch),
;

// ---------------------------------------------------------------------------
// Character classes
// ---------------------------------------------------------------------------

/// Unicode `White_Space`, as `char::is_whitespace` defines it.
pub open spec fn is_ws(c: char) -> bool {
    let u = c as u32;
    ||| u == 0x20
    ||| (0x09 <= u && u <= 0x0d)
    ||| u == 0x85
    ||| u == 0xa0
    ||| u == 0x1680
    ||| (0x2000 <= u && u <= 0x200a)
    ||| u == 0x2028
    ||| u == 0x2029
    ||| u == 0x202f
    ||| u == 0x205f
    ||| u == 0x3000
}

pub open spec fn ws_class() -> spec_fn(char) -> bool {
    |c: char| is_ws(c)
}

pub open spec fn non_ws_class() -> spec_fn(char) -> bool {
    |c: char| !is_ws(c)
}

pub open spec fn char_class(x: char) -> spec_fn(char) -> bool {
    |c: char| c == x
}

/// Exec test for `is_ws`.
pub fn char_is_ws(c: char) -> (b: bool)
    ensures
        b == is_ws(c),
{
    let u = c as u32;
    u == 0x20 || (0x09 <= u && u <= 0x0d) || u == 0x85 || u == 0xa0 || u == 0x1680 || (0x2000
        <= u && u <= 0x200a) || u == 0x2028 || u == 0x2029 || u == 0x202f || u == 0x205f || u
        == 0x3000
}

// ---------------------------------------------------------------------------
// First position of a class
// ---------------------------------------------------------------------------

/// Index of the first character of `s` in class `p`, or `s.len()` if there is none.
pub open spec fn pos_of(s: Seq<char>, p: spec_fn(char) -> bool) -> nat
    decreases s.len(),
{
    if s.len() == 0 {
        0
    } else if p(s[0]) {
        0
    } else {
        1 + pos_of(s.drop_first(), p)
    }
}

pub proof fn lemma_pos_of_bounds(s: Seq<char>, p: spec_fn(char) -> bool)
    ensures
        pos_of(s, p) <= s.len(),
        forall|j: int| 0 <= j < pos_of(s, p) ==> !p(#[trigger] s[j]),
        pos_of(s, p) < s.len() ==> p(s[pos_of(s, p) as int]),
    decreases s.len(),
{
    if s.len() > 0 && !p(s[0]) {
        lemma_pos_of_bounds(s.drop_first(), p);
        assert forall|j: int| 0 <= j < pos_of(s, p) implies !p(#[trigger] s[j]) by {
            if j > 0 {
                assert(s[j] == s.drop_first()[j - 1]);
            }
        }
    }
}

/// `pos_of` is the index that a left-to-right scan stops at.
pub proof fn lemma_pos_of_is(s: Seq<char>, p: spec_fn(char) -> bool, k: int)
    requires
        0 <= k <= s.len(),
        forall|j: int| 0 <= j < k ==> !p(#[trigger] s[j]),
        k == s.len() || p(s[k]),
    ensures
        pos_of(s, p) == k,
    decreases s.len(),
{
    if s.len() > 0 && k > 0 {
        assert(!p(s[0]));
        assert forall|j: int| 0 <= j < k - 1 implies !p(#[trigger] s.drop_first()[j]) by {
            assert(s.drop_first()[j] == s[j + 1]);
        }
        lemma_pos_of_is(s.drop_first(), p, k - 1);
    }
}

/// One past the last character of `s` in class `p`, or 0 if there is none.
pub open spec fn end_of(s: Seq<char>, p: spec_fn(char) -> bool) -> nat
    decreases s.len(),
{
    if s.len() == 0 {
        0
    } else if p(s.last()) {
        s.len()
    } else {
        end_of(s.drop_last(), p)
    }
}

/// `end_of` is at most the length, and nothing after it is in the class;
/// the character before it is.
pub proof fn lemma_end_of_bounds(s: Seq<char>, p: spec_fn(char) -> bool)
    ensures
        end_of(s, p) <= s.len(),
        forall|j: int| end_of(s, p) <= j < s.len() ==> !p(#[trigger] s[j]),
        end_of(s, p) > 0 ==> p(s[end_of(s, p) - 1]),
    decreases s.len(),
{
    if s.len() > 0 && !p(s.last()) {
        lemma_end_of_bounds(s.drop_last(), p);
        assert forall|j: int| end_of(s, p) <= j < s.len() implies !p(#[trigger] s[j]) by {
            if j < s.len() - 1 {
                assert(s[j] == s.drop_last()[j]);
            }
        }
        if end_of(s, p) > 0 {
            assert(s[end_of(s, p) - 1] == s.drop_last()[end_of(s, p) - 1]);
        }
    }
}

pub proof fn lemma_end_of_is(s: Seq<char>, p: spec_fn(char) -> bool, k: int)
    requires
        0 <= k <= s.len(),
        forall|j: int| k <= j < s.len() ==> !p(#[trigger] s[j]),
        k == 0 || p(s[k - 1]),
    ensures
        end_of(s, p) == k,
    decreases s.len(),
{
    if s.len() > 0 && k < s.len() {
        assert(!p(s.last()));
        assert forall|j: int| k <= j < s.drop_last().len() implies !p(
            #[trigger] s.drop_last()[j],
        ) by {
            assert(s.drop_last()[j] == s[j]);
        }
        lemma_end_of_is(s.drop_last(), p, k);
    }
}

// ---------------------------------------------------------------------------
// Trimming
// ---------------------------------------------------------------------------

/// `str::trim_start`: drop the leading white space.
pub open spec fn trim_start(s: Seq<char>) -> Seq<char> {
    s.skip(pos_of(s, non_ws_class()) as int)
}

/// `str::trim`: drop the leading and trailing white space.
pub open spec fn trim(s: Seq<char>) -> Seq<char> {
    let a = trim_start(s);
    a.take(end_of(a, non_ws_class()) as int)
}

/// `end_of` reaches at least past a character in the class.
pub proof fn lemma_end_of_at_least(s: Seq<char>, p: spec_fn(char) -> bool, k: int)
    requires
        0 < k <= s.len(),
        p(s[k - 1]),
    ensures
        k <= end_of(s, p) <= s.len(),
    decreases s.len(),
{
    if !p(s.last()) {
        assert(k < s.len());
        assert(s.drop_last()[k - 1] == s[k - 1]);
        lemma_end_of_at_least(s.drop_last(), p, k);
    }
}

/// Trimming a text whose first non-space character is at `a` and which has
/// a non-space character at `k - 1` keeps `s[a..k]`: the result is a piece
/// of `s` from `a` on, at least `k - a` long.
pub proof fn lemma_trim_keeps(s: Seq<char>, a: int, k: int)
    requires
        0 <= a < k <= s.len(),
        forall|j: int| 0 <= j < a ==> is_ws(#[trigger] s[j]),
        !is_ws(s[a]),
        !is_ws(s[k - 1]),
    ensures
        k - a <= trim(s).len() <= s.len() - a,
        forall|j: int| 0 <= j < trim(s).len() ==> #[trigger] trim(s)[j] == s[a + j],
{
    assert forall|j: int| 0 <= j < a implies !non_ws_class()(#[trigger] s[j]) by {}
    lemma_pos_of_is(s, non_ws_class(), a);
    let t = s.skip(a);
    assert(t[k - a - 1] == s[k - 1]);
    lemma_end_of_at_least(t, non_ws_class(), k - a);
}

/// The bounds of `trim(v[lo..hi])` inside `v`.
pub fn trim_range(v: &Vec<char>, lo: usize, hi: usize) -> (r: (usize, usize))
    requires
        lo <= hi <= v.len(),
    ensures
        lo <= r.0 <= r.1 <= hi,
        v@.subrange(r.0 as int, r.1 as int) == trim(v@.subrange(lo as int, hi as int)),
        v@.subrange(r.0 as int, hi as int) == trim_start(v@.subrange(lo as int, hi as int)),
{
    let ghost s = v@.subrange(lo as int, hi as int);
    let mut a = lo;
    while a < hi && char_is_ws(v[a])
        invariant
            lo <= a <= hi <= v.len(),
            forall|j: int| lo <= j < a ==> is_ws(#[trigger] v@[j]),
        decreases hi - a,
    {
        a = a + 1;
    }
    proof {
        assert forall|j: int| 0 <= j < a - lo implies !non_ws_class()(#[trigger] s[j]) by {
            assert(s[j] == v@[lo + j]);
        }
        lemma_pos_of_is(s, non_ws_class(), a - lo);
        assert(trim_start(s) =~= v@.subrange(a as int, hi as int));
    }
    let mut b = hi;
    while b > a && char_is_ws(v[b - 1])
        invariant
            lo <= a <= b <= hi <= v.len(),
            forall|j: int| b <= j < hi ==> is_ws(#[trigger] v@[j]),
        decreases b - a,
    {
        b = b - 1;
    }
    proof {
        let t = v@.subrange(a as int, hi as int);
        assert forall|j: int| b - a <= j < t.len() implies !non_ws_class()(#[trigger] t[j]) by {
            assert(t[j] == v@[a + j]);
        }
        lemma_end_of_is(t, non_ws_class(), b - a);
        assert(trim(s) =~= v@.subrange(a as int, b as int));
    }
    (a, b)
}

// ---------------------------------------------------------------------------
// Conversions between `str`, `Vec<char>` and `String`
// ---------------------------------------------------------------------------

/// The characters of `s`, in order.
pub fn chars_of(s: &str) -> (v: Vec<char>)
    ensures
        v@ == s@,
{
    let mut v: Vec<char> = Vec::new();
    for c in it: s.chars()
        invariant
            v@ == it.seq().take(it.index() as int),
    {
        v.push(c);
    }
    v
}

/// A `String` holding the characters `v[from..to]`.
pub fn string_of(v: &Vec<char>, from: usize, to: usize) -> (s: String)
    requires
        from <= to <= v.len(),
    ensures
        s@ == v@.subrange(from as int, to as int),
{
    let mut s = String::new();
    let mut i = from;
    while i < to
        invariant
            from <= i <= to <= v.len(),
            s@ == v@.subrange(from as int, i as int),
        decreases to - i,
    {
        s.push(v[i]);
        i = i + 1;
    }
    s
}

/// Appends `t` to `s`.
pub fn push_str(s: &mut String, t: &str)
    ensures
        final(s)@ == old(s)@ + t@,
{
    let v = chars_of(t);
    let mut i: usize = 0;
    while i < v.len()
        invariant
            0 <= i <= v.len(),
            v@ == t@,
            s@ == old(s)@ + v@.take(i as int),
        decreases v.len() - i,
    {
        s.push(v[i]);
        i = i + 1;
    }
    assert(v@.take(v.len() as int) =~= v@);
}

/// A new `String` equal to `t`.
pub fn owned(t: &str) -> (s: String)
    ensures
        s@ == t@,
{
    let mut s = String::new();
    push_str(&mut s, t);
    s
}

// ---------------------------------------------------------------------------
// Comparing ranges with literals
// ---------------------------------------------------------------------------

/// Whether `v[lo..hi]` starts with `p`.
pub fn range_starts_with(v: &Vec<char>, lo: usize, hi: usize, p: &str) -> (b: bool)
    requires
        lo <= hi <= v.len(),
    ensures
        b == p@.is_prefix_of(v@.subrange(lo as int, hi as int)),
{
    let pv = chars_of(p);
    if pv.len() > hi - lo {
        return false;
    }
    let mut i: usize = 0;
    while i < pv.len()
        invariant
            0 <= i <= pv.len(),
            pv@ == p@,
            lo + pv.len() <= hi <= v.len(),
            forall|j: int| 0 <= j < i ==> pv@[j] == v@[lo + j],
        decreases pv.len() - i,
    {
        if pv[i] != v[lo + i] {
            assert(p@[i as int] != v@.subrange(lo as int, hi as int)[i as int]);
            return false;
        }
        i = i + 1;
    }
    true
}

/// Whether `v[lo..hi]` equals `p`.
pub fn range_equals(v: &Vec<char>, lo: usize, hi: usize, p: &str) -> (b: bool)
    requires
        lo <= hi <= v.len(),
    ensures
        b == (v@.subrange(lo as int, hi as int) == p@),
{
    let pv = chars_of(p);
    if pv.len() != hi - lo {
        return false;
    }
    let r = range_starts_with(v, lo, hi, p);
    proof {
        if r {
            assert(v@.subrange(lo as int, hi as int) =~= p@);
        }
    }
    r
}

// ---------------------------------------------------------------------------
// Lines
// ---------------------------------------------------------------------------

/// Drops one trailing carriage return.
pub open spec fn strip_cr(s: Seq<char>) -> Seq<char> {
    if s.len() > 0 && s.last() == '\r' {
        s.drop_last()
    } else {
        s
    }
}

/// `str::lines`: the text split at each `\n`, a `\r` before it dropped, and
/// no empty line after a final `\n`.
pub open spec fn lines(s: Seq<char>) -> Seq<Seq<char>>
    decreases s.len(),
{
    if s.len() == 0 {
        seq![]
    } else {
        let i = pos_of(s, char_class('\n'));
        if i >= s.len() {
            seq![s]
        } else {
            seq![strip_cr(s.take(i as int))] + lines(s.skip((i + 1) as int))
        }
    }
}

/// The sub-sequences of `v` that the ranges `r` delimit.
pub open spec fn ranges_view(v: Seq<char>, r: Seq<(usize, usize)>) -> Seq<Seq<char>> {
    r.map_values(|p: (usize, usize)| v.subrange(p.0 as int, p.1 as int))
}

pub open spec fn ranges_in(v: Seq<char>, r: Seq<(usize, usize)>) -> bool {
    forall|i: int| 0 <= i < r.len() ==> #[trigger] r[i].0 <= r[i].1 <= v.len()
}

/// The ranges of the lines of `v`.
pub fn line_ranges(v: &Vec<char>) -> (r: Vec<(usize, usize)>)
    ensures
        ranges_in(v@, r@),
        ranges_view(v@, r@) == lines(v@),
{
    let mut r: Vec<(usize, usize)> = Vec::new();
    let mut start: usize = 0;
    let mut i: usize = 0;
    let n = v.len();
    proof {
        assert(v@.skip(0) =~= v@);
        assert(ranges_view(v@, r@) + lines(v@) =~= lines(v@));
    }
    while i < n
        invariant
            n == v.len(),
            start <= i <= n,
            forall|j: int| start <= j < i ==> v@[j] != '\n',
            ranges_in(v@, r@),
            lines(v@) == ranges_view(v@, r@) + lines(v@.skip(start as int)),
        decreases n - i,
    {
        if v[i] == '\n' {
            let ghost rest = v@.skip(start as int);
            proof {
                assert forall|j: int| 0 <= j < i - start implies !char_class('\n')(
                    #[trigger] rest[j],
                ) by {
                    assert(rest[j] == v@[start + j]);
                }
                lemma_pos_of_is(rest, char_class('\n'), i - start);
                assert(rest.take(i - start) =~= v@.subrange(start as int, i as int));
                assert(rest.skip(i - start + 1) =~= v@.skip(i + 1));
            }
            let mut e = i;
            if e > start && v[e - 1] == '\r' {
                e = e - 1;
            }
            proof {
                assert(v@.subrange(start as int, e as int) =~= strip_cr(
                    v@.subrange(start as int, i as int),
                ));
            }
            let ghost old_r = r@;
            r.push((start, e));
            proof {
                assert(ranges_view(v@, r@) =~= ranges_view(v@, old_r) + seq![
                    v@.subrange(start as int, e as int),
                ]);
            }
            start = i + 1;
        }
        i = i + 1;
    }
    if start < n {
        let ghost rest = v@.skip(start as int);
        proof {
            assert forall|j: int| 0 <= j < rest.len() implies !char_class('\n')(
                #[trigger] rest[j],
            ) by {
                assert(rest[j] == v@[start + j]);
            }
            lemma_pos_of_is(rest, char_class('\n'), rest.len() as int);
        }
        let ghost old_r = r@;
        r.push((start, n));
        proof {
            assert(ranges_view(v@, r@) =~= ranges_view(v@, old_r) + seq![rest]);
        }
    } else {
        proof {
            assert(v@.skip(start as int) =~= Seq::<char>::empty());
            assert(ranges_view(v@, r@) + seq![] =~= ranges_view(v@, r@));
        }
    }
    r
}

// ---------------------------------------------------------------------------
// Words
// ---------------------------------------------------------------------------

/// `str::split_whitespace`: the maximal runs of non-white-space characters.
pub open spec fn words(s: Seq<char>) -> Seq<Seq<char>>
    decreases s.len(),
{
    let a = pos_of(s, non_ws_class());
    if a >= s.len() {
        seq![]
    } else {
        let t = s.skip(a as int);
        let b = pos_of(t, ws_class());
        if 1 <= b <= t.len() {
            seq![t.take(b as int)] + words(t.skip(b as int))
        } else {
            seq![]
        }
    }
}

proof fn lemma_word_bound(t: Seq<char>)
    requires
        t.len() > 0,
        !is_ws(t[0]),
    ensures
        1 <= pos_of(t, ws_class()) <= t.len(),
{
    lemma_pos_of_bounds(t, ws_class());
}

/// Index of the first character at or after `i` in `v[..hi]` whose white-space
/// status is `ws`, or `hi`.
fn scan_class(v: &Vec<char>, i: usize, hi: usize, ws: bool) -> (k: usize)
    requires
        i <= hi <= v.len(),
    ensures
        i <= k <= hi,
        forall|j: int| i <= j < k ==> is_ws(#[trigger] v@[j]) != ws,
        k < hi ==> is_ws(v@[k as int]) == ws,
{
    let mut k = i;
    while k < hi && char_is_ws(v[k]) != ws
        invariant
            i <= k <= hi <= v.len(),
            forall|j: int| i <= j < k ==> is_ws(#[trigger] v@[j]) != ws,
        decreases hi - k,
    {
        k = k + 1;
    }
    k
}

/// The ranges of the first two words of `v[lo..hi]`, when it has two or more.
pub fn first_two_words(v: &Vec<char>, lo: usize, hi: usize) -> (r: Option<
    ((usize, usize), (usize, usize)),
>)
    requires
        lo <= hi <= v.len(),
    ensures
        r is Some <==> words(v@.subrange(lo as int, hi as int)).len() >= 2,
        r matches Some((w0, w1)) ==> {
            &&& lo <= w0.0 <= w0.1 <= w1.0 <= w1.1 <= hi
            &&& v@.subrange(w0.0 as int, w0.1 as int) == words(
                v@.subrange(lo as int, hi as int),
            )[0]
            &&& v@.subrange(w1.0 as int, w1.1 as int) == words(
                v@.subrange(lo as int, hi as int),
            )[1]
        },
{
    let ghost s = v@.subrange(lo as int, hi as int);
    let a0 = scan_class(v, lo, hi, false);
    proof {
        assert forall|j: int| 0 <= j < a0 - lo implies !non_ws_class()(#[trigger] s[j]) by {
            assert(s[j] == v@[lo + j]);
        }
        lemma_pos_of_is(s, non_ws_class(), a0 - lo);
    }
    if a0 == hi {
        return None;
    }
    let b0 = scan_class(v, a0, hi, true);
    let ghost t = s.skip(a0 - lo);
    proof {
        assert(t =~= v@.subrange(a0 as int, hi as int));
        assert forall|j: int| 0 <= j < b0 - a0 implies !ws_class()(#[trigger] t[j]) by {
            assert(t[j] == v@[a0 + j]);
        }
        lemma_pos_of_is(t, ws_class(), b0 - a0);
        lemma_word_bound(t);
        assert(t.take(b0 - a0) =~= v@.subrange(a0 as int, b0 as int));
    }
    let ghost s1 = t.skip(b0 - a0);
    let a1 = scan_class(v, b0, hi, false);
    proof {
        assert(s1 =~= v@.subrange(b0 as int, hi as int));
        assert forall|j: int| 0 <= j < a1 - b0 implies !non_ws_class()(#[trigger] s1[j]) by {
            assert(s1[j] == v@[b0 + j]);
        }
        lemma_pos_of_is(s1, non_ws_class(), a1 - b0);
    }
    if a1 == hi {
        assert(words(s1) =~= Seq::<Seq<char>>::empty());
        assert(words(s).len() == 1);
        return None;
    }
    let b1 = scan_class(v, a1, hi, true);
    proof {
        let t1 = s1.skip(a1 - b0);
        assert(t1 =~= v@.subrange(a1 as int, hi as int));
        assert forall|j: int| 0 <= j < b1 - a1 implies !ws_class()(#[trigger] t1[j]) by {
            assert(t1[j] == v@[a1 + j]);
        }
        lemma_pos_of_is(t1, ws_class(), b1 - a1);
        lemma_word_bound(t1);
        assert(t1.take(b1 - a1) =~= v@.subrange(a1 as int, b1 as int));
        assert(words(s1)[0] == t1.take(b1 - a1));
    }
    Some(((a0, b0), (a1, b1)))
}

// ---------------------------------------------------------------------------
// Searching inside a range
// ---------------------------------------------------------------------------

/// `lo` plus the position of the first `c` in `v[lo..hi]` (or `hi`).
pub fn find_char(v: &Vec<char>, lo: usize, hi: usize, c: char) -> (k: usize)
    requires
        lo <= hi <= v.len(),
    ensures
        lo <= k <= hi,
        k - lo == pos_of(v@.subrange(lo as int, hi as int), char_class(c)),
{
    let mut k = lo;
    while k < hi && v[k] != c
        invariant
            lo <= k <= hi <= v.len(),
            forall|j: int| lo <= j < k ==> v@[j] != c,
        decreases hi - k,
    {
        k = k + 1;
    }
    proof {
        let s = v@.subrange(lo as int, hi as int);
        assert forall|j: int| 0 <= j < k - lo implies !char_class(c)(#[trigger] s[j]) by {
            assert(s[j] == v@[lo + j]);
        }
        lemma_pos_of_is(s, char_class(c), k - lo);
    }
    k
}

// ---------------------------------------------------------------------------
// Case and character replacement
// ---------------------------------------------------------------------------

/// What `str::to_lowercase` returns for a text: the Unicode lowercase mapping
/// of each character, some of which map to several characters.
pub uninterp spec fn unicode_lowercase(s: Seq<char>) -> Seq<char>;

/// Whether every character of `s` is ASCII.
pub open spec fn is_ascii_text(s: Seq<char>) -> bool {
    forall|i: int| 0 <= i < s.len() ==> (#[trigger] s[i] as u32) < 128
}

/// Whether `c` is an ASCII capital letter.
pub open spec fn is_ascii_upper(c: char) -> bool {
    65 <= (c as u32) && (c as u32) <= 90
}

/// `c` with an ASCII capital letter turned into its small letter.
pub open spec fn ascii_lower(c: char) -> char {
    if is_ascii_upper(c) {
        ((c as u32) + 32) as char
    } else {
        c
    }
}

/// Each ASCII capital letter of `s` turned into its small letter.
pub open spec fn ascii_lowercase(s: Seq<char>) -> Seq<char> {
    s.map_values(|c: char| ascii_lower(c))
}

/// Calls `str::to_lowercase`.  The contract names its result, and states
/// only the ASCII part of the mapping: on ASCII text every capital letter
/// becomes its small letter and nothing else changes.  What it does to other
/// characters (the Unicode case tables) is not restated here.
#[verifier::external_body]
pub(crate) fn to_lowercase(s: &str) -> (r: String)
    ensures
        r@ == unicode_lowercase(s@),
        is_ascii_text(s@) ==> r@ == ascii_lowercase(s@),
{
    s.to_lowercase()
}

/// Every character of `s` that is `from` replaced by `to`.
pub open spec fn replace_char(s: Seq<char>, from: char, to: char) -> Seq<char> {
    s.map_values(|c: char| if c == from { to } else { c })
}

/// `str::replace` with a one-character pattern and a one-character replacement.
pub fn replaced(s: &str, from: char, to: char) -> (r: String)
    ensures
        r@ == replace_char(s@, from, to),
{
    let v = chars_of(s);
    let mut r = String::new();
    let mut i: usize = 0;
    while i < v.len()
        invariant
            0 <= i <= v.len(),
            v@ == s@,
            r@ == replace_char(v@.take(i as int), from, to),
        decreases v.len() - i,
    {
        let c = if v[i] == from {
            to
        } else {
            v[i]
        };
        r.push(c);
        i = i + 1;
        assert(replace_char(v@.take(i as int), from, to) =~= replace_char(
            v@.take(i - 1),
            from,
            to,
        ).push(c));
    }
    assert(v@.take(v.len() as int) =~= v@);
    r
}

// ---------------------------------------------------------------------------
// Numbers and padding
// ---------------------------------------------------------------------------

pub open spec fn digit_char(d: nat) -> char {
    if d == 0 {
        '0'
    } else if d == 1 {
        '1'
    } else if d == 2 {
        '2'
    } else if d == 3 {
        '3'
    } else if d == 4 {
        '4'
    } else if d == 5 {
        '5'
    } else if d == 6 {
        '6'
    } else if d == 7 {
        '7'
    } else if d == 8 {
        '8'
    } else {
        '9'
    }
}

/// The decimal digits of `n`, as `{}` prints an unsigned integer.
pub open spec fn decimal(n: nat) -> Seq<char>
    decreases n,
{
    if n < 10 {
        seq![digit_char(n)]
    } else {
        decimal(n / 10).push(digit_char(n % 10))
    }
}

fn digit(d: usize) -> (c: char)
    requires
        d < 10,
    ensures
        c == digit_char(d as nat),
{
    if d == 0 {
        '0'
    } else if d == 1 {
        '1'
    } else if d == 2 {
        '2'
    } else if d == 3 {
        '3'
    } else if d == 4 {
        '4'
    } else if d == 5 {
        '5'
    } else if d == 6 {
        '6'
    } else if d == 7 {
        '7'
    } else if d == 8 {
        '8'
    } else {
        '9'
    }
}

/// Appends the decimal digits of `n` to `s`.
pub fn push_decimal(s: &mut String, n: usize)
    ensures
        final(s)@ == old(s)@ + decimal(n as nat),
    decreases n,
{
    if n >= 10 {
        push_decimal(s, n / 10);
    }
    s.push(digit(n % 10));
    assert(old(s)@ + decimal(n as nat) =~= s@);
}

/// `s` padded with spaces on the right to `w` characters, as `{:<w}` does.
pub open spec fn pad_right(s: Seq<char>, w: nat) -> Seq<char> {
    if s.len() >= w {
        s
    } else {
        s + Seq::new((w - s.len()) as nat, |i: int| ' ')
    }
}

/// Appends `t` to `s` and then spaces until `t` fills `w` characters.
pub fn push_padded(s: &mut String, t: &str, w: usize)
    ensures
        final(s)@ == old(s)@ + pad_right(t@, w as nat),
{
    let v = chars_of(t);
    push_str(s, t);
    let mut k = v.len();
    while k < w
        invariant
            v@ == t@,
            v.len() <= k,
            k <= w || k == v.len(),
            s@ == old(s)@ + t@ + Seq::new((k - v.len()) as nat, |i: int| ' '),
        decreases w - k,
    {
        s.push(' ');
        k = k + 1;
        assert(s@ =~= old(s)@ + t@ + Seq::new((k - v.len()) as nat, |i: int| ' '));
    }
    assert(s@ =~= old(s)@ + pad_right(t@, w as nat));
}

} // verus!
