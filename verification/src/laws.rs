//! Properties that hold of the library as a whole.
use vstd::prelude::*;

use crate::display::{
    checking_line, frame_end, frame_rows, label, redrawn_rows, scrolled, shows_checking, DisplayState,
    ScrollKey,
};
use crate::ecosystems::{lemma_lookup_absent, lemma_lookup_finds_last, lookup, resolved};
use crate::ecosystems::go_lang::{go_package, last_segment_of};
use crate::ecosystems::node::node_package;
use crate::ecosystems::python::python_package;
use crate::ecosystems::ruby::{gem_line, lemma_quoted_single, ruby_package};
use crate::ecosystems::rust_lang::rust_package;
use crate::json::{json_document, json_get, json_str};
use crate::ecosystems::node::installed_info;
use crate::ecosystems::python::{
    collapse_separators, lemma_ascii_lowercase, lemma_collapse_agree, lemma_collapse_ascii,
    lemma_collapse_fixed, lemma_collapse_shape, lowercased, name_separator, normalized,
};
use crate::scanner::{alias_entries, package_entries, use_count, with_usage};
use crate::text::{ascii_lower, ascii_lowercase, char_class, end_of, lemma_end_of_bounds, is_ascii_text, is_ws, lemma_pos_of_is, lemma_trim_keeps, pad_right, pos_of, trim};
use crate::types::{
    count_installed, count_missing, count_outdated, lemma_counts_join, lemma_counts_partition,
    lemma_counts_permutation, overall_status,
    truncated, OverallStatus, PackageModel, StatusModel,
};

verus! {

/// The overall status is "all good" exactly when every package is installed
/// (which an empty project satisfies).
pub proof fn law_all_good_iff_all_installed(pkgs: Seq<PackageModel>)
    ensures
        (overall_status(pkgs.len(), count_installed(pkgs), count_outdated(pkgs))
            == OverallStatus::AllGood) <==> count_installed(pkgs) == pkgs.len(),
{
    lemma_counts_partition(pkgs);
}

/// The overall status is "none installed" exactly when there are packages
/// and every one of them is missing.
pub proof fn law_none_installed_iff_all_missing(pkgs: Seq<PackageModel>)
    ensures
        (overall_status(pkgs.len(), count_installed(pkgs), count_outdated(pkgs))
            == OverallStatus::NoneInstalled) <==> (pkgs.len() > 0 && count_missing(pkgs)
            == pkgs.len()),
{
    lemma_counts_partition(pkgs);
}

/// The overall status is "partial" exactly when some package is not
/// installed and some package is not missing.
pub proof fn law_partial_iff_mixed(pkgs: Seq<PackageModel>)
    ensures
        (overall_status(pkgs.len(), count_installed(pkgs), count_outdated(pkgs))
            == OverallStatus::Partial) <==> (count_installed(pkgs) < pkgs.len() && count_missing(
            pkgs,
        ) < pkgs.len()),
{
    lemma_counts_partition(pkgs);
}

/// The counts of two package lists joined are the sums of their counts, so
/// an ecosystem summary of joined lists adds up the summaries of the parts.
pub proof fn law_counts_of_joined_lists(a: Seq<PackageModel>, b: Seq<PackageModel>)
    ensures
        (a + b).len() == a.len() + b.len(),
        count_installed(a + b) == count_installed(a) + count_installed(b),
        count_outdated(a + b) == count_outdated(a) + count_outdated(b),
        count_missing(a + b) == count_missing(a) + count_missing(b),
{
    lemma_counts_join(a, b);
}

/// The order of the packages does not matter: lists that hold the same
/// packages have the same counts, so the same summary and the same overall
/// status.
pub proof fn law_order_does_not_matter(a: Seq<PackageModel>, b: Seq<PackageModel>)
    requires
        a.to_multiset() =~= b.to_multiset(),
    ensures
        a.len() == b.len(),
        count_installed(a) == count_installed(b),
        count_outdated(a) == count_outdated(b),
        count_missing(a) == count_missing(b),
        overall_status(a.len(), count_installed(a), count_outdated(a)) == overall_status(
            b.len(),
            count_installed(b),
            count_outdated(b),
        ),
{
    lemma_counts_permutation(a, b);
}

/// A finished check never reports "processing".
pub proof fn law_result_is_never_processing(total: nat, installed: nat, outdated: nat)
    ensures
        overall_status(total, installed, outdated) != OverallStatus::Processing,
{
}

/// Any installed version satisfies the requirement: a found version gives
/// an installed package at that version, and no check reports "outdated".
pub proof fn law_found_means_installed(found: Option<Seq<char>>, required: Seq<char>)
    ensures
        found matches Some(v) ==> resolved(found, required) == (StatusModel::Installed(v), v),
        found is None ==> resolved(found, required) == (StatusModel::Missing, required),
        !(resolved(found, required).0 is OutOfDate),
        !(installed_info(found, required).0 is OutOfDate),
{
}

/// After recording a version for a name, looking the name up gives that
/// version; other names keep theirs.
pub proof fn law_lookup_after_record(
    entries: Seq<(Seq<char>, Seq<char>)>,
    key: Seq<char>,
    version: Seq<char>,
    other: Seq<char>,
)
    ensures
        lookup(entries.push((key, version)), key) == Some(version),
        other != key ==> lookup(entries.push((key, version)), other) == lookup(entries, other),
{
    assert(entries.push((key, version)).drop_last() =~= entries);
}

/// A package is imported by at most as many files as were scanned, so its
/// usage never exceeds 100 %.
pub proof fn law_usage_at_most_scanned(
    es: Seq<(Seq<char>, nat)>,
    pats: Seq<Seq<char>>,
    files: Seq<Option<Seq<char>>>,
    i: nat,
)
    ensures
        use_count(es, pats, files, i) <= files.len(),
    decreases files.len(),
{
    if files.len() > 0 {
        law_usage_at_most_scanned(es, pats, files.drop_last(), i);
    }
}

/// The status area never takes more than its `max_lines` lines, header
/// included.
pub proof fn law_status_area_fits(state: &DisplayState, max_lines: nat)
    ensures
        frame_rows(state, max_lines) <= max_lines,
{
}

/// Rows the status area has taken after redrawing it for each of `states`
/// in turn, starting from an area of `prev` rows.
pub open spec fn rows_after_redraws(prev: nat, states: Seq<DisplayState>, max_lines: nat) -> nat
    decreases states.len(),
{
    if states.len() == 0 {
        prev
    } else {
        redrawn_rows(
            rows_after_redraws(prev, states.drop_last(), max_lines),
            frame_rows(&states.last(), max_lines),
        )
    }
}

/// However often the status area is redrawn, clearing what a taller frame
/// left included, it stays within its `max_lines` lines.
pub proof fn law_redraws_stay_within_area(prev: nat, states: Seq<DisplayState>, max_lines: nat)
    requires
        prev <= max_lines,
    ensures
        rows_after_redraws(prev, states, max_lines) <= max_lines,
    decreases states.len(),
{
    if states.len() > 0 {
        law_redraws_stay_within_area(prev, states.drop_last(), max_lines);
        law_status_area_fits(&states.last(), max_lines);
    }
}

/// The "checking" line is shown only while processing.
pub proof fn law_checking_only_while_processing(state: &DisplayState, max_lines: nat)
    ensures
        shows_checking(state, max_lines) ==> state.status == OverallStatus::Processing,
        state.current_ecosystem is None ==> !shows_checking(state, max_lines),
{
}

/// A status label is at least the label width and starts with `name:`.
pub proof fn law_label_shape(name: Seq<char>)
    ensures
        label(name).len() >= 10,
        (name + ":"@).is_prefix_of(label(name)),
        checking_line(name).len() >= 2 + 10,
{
    reveal_strlit("  ");
    let t = name + ":"@;
    if t.len() < 10 {
        assert(pad_right(t, 10).subrange(0, t.len() as int) =~= t);
    } else {
        assert(pad_right(t, 10).subrange(0, t.len() as int) =~= t);
    }
}

/// Scrolling keeps the view within `0..=max_offset`.
pub proof fn law_scroll_stays_in_bounds(offset: nat, key: ScrollKey, view_rows: nat, max_offset: nat)
    requires
        offset <= max_offset,
    ensures
        scrolled(offset, key, view_rows, max_offset) matches Some(o) ==> o <= max_offset,
        scrolled(offset, key, view_rows, max_offset) is None <==> key == ScrollKey::Quit,
{
}

/// The offset after a sequence of key presses from `offset`, or none once
/// a key has closed the view.
pub open spec fn offset_after_keys(
    offset: nat,
    keys: Seq<ScrollKey>,
    view_rows: nat,
    max_offset: nat,
) -> Option<nat>
    decreases keys.len(),
{
    if keys.len() == 0 {
        Some(offset)
    } else {
        match offset_after_keys(offset, keys.drop_last(), view_rows, max_offset) {
            Some(o) => scrolled(o, keys.last(), view_rows, max_offset),
            None => None,
        }
    }
}

/// Over any sequence of key presses from an offset in bounds, every offset
/// the view reaches stays within `0..=max_offset`, and the view stays open
/// exactly as long as no key has closed it.
pub proof fn law_scroll_session_stays_in_bounds(
    offset: nat,
    keys: Seq<ScrollKey>,
    view_rows: nat,
    max_offset: nat,
)
    requires
        offset <= max_offset,
    ensures
        offset_after_keys(offset, keys, view_rows, max_offset) matches Some(o) ==> o <= max_offset,
        offset_after_keys(offset, keys, view_rows, max_offset) is None <==> keys.contains(
            ScrollKey::Quit,
        ),
    decreases keys.len(),
{
    if keys.len() > 0 {
        let p = keys.drop_last();
        law_scroll_session_stays_in_bounds(offset, p, view_rows, max_offset);
        if p.contains(ScrollKey::Quit) {
            let j = choose|j: int| 0 <= j < p.len() && p[j] == ScrollKey::Quit;
            assert(keys[j] == ScrollKey::Quit);
        }
        if keys.contains(ScrollKey::Quit) && keys.last() != ScrollKey::Quit {
            let j = choose|j: int| 0 <= j < keys.len() && keys[j] == ScrollKey::Quit;
            assert(j < keys.len() - 1);
            assert(p[j] == ScrollKey::Quit);
        }
        if keys.last() == ScrollKey::Quit {
            assert(keys[keys.len() - 1] == ScrollKey::Quit);
        }
    }
}

/// A line down then a line up comes back, unless the view was already at
/// its end.
pub proof fn law_down_then_up(offset: nat, view_rows: nat, max_offset: nat)
    requires
        offset < max_offset,
    ensures
        scrolled(offset, ScrollKey::Down, view_rows, max_offset) matches Some(o) && scrolled(
            o,
            ScrollKey::Up,
            view_rows,
            max_offset,
        ) == Some(offset),
{
}

/// A frame shows at most `view_rows` lines, and padding fills the rest.
pub proof fn law_frame_fills_view(total: nat, offset: nat, view_rows: nat)
    requires
        offset <= total,
    ensures
        offset <= frame_end(total, offset, view_rows) <= total,
        frame_end(total, offset, view_rows) - offset <= view_rows,
{
}

/// A truncated text fits its width; a text that already fits is unchanged.
pub proof fn law_truncated_fits(s: Seq<char>, max_len: nat)
    requires
        max_len >= 1 || s.len() == 0,
    ensures
        truncated(s, max_len).len() <= max_len,
        s.len() <= max_len ==> truncated(s, max_len) == s,
        s.len() > max_len ==> truncated(s, max_len).take(max_len - 1) == s.take(max_len - 1),
{
    if s.len() > max_len {
        assert(truncated(s, max_len).take(max_len - 1) =~= s.take(max_len - 1));
    }
}

/// Which package an import stands for depends on the packages' import
/// aliases alone, in order.
pub proof fn law_aliases_alone_decide(a: Seq<PackageModel>, b: Seq<PackageModel>)
    requires
        a.len() == b.len(),
        forall|i: int| 0 <= i < a.len() ==> (#[trigger] a[i]).import_aliases == b[i].import_aliases,
    ensures
        alias_entries(a) == alias_entries(b),
    decreases a.len(),
{
    if a.len() > 0 {
        law_aliases_alone_decide(a.drop_last(), b.drop_last());
        assert(package_entries(a.last(), (a.len() - 1) as nat) =~= package_entries(
            b.last(),
            (b.len() - 1) as nat,
        ));
    }
}

/// Scanning again with the same patterns and files gives the same counts:
/// recording usage leaves the aliases, which decide it, unchanged.
pub proof fn law_rescan_is_stable(
    pkgs: Seq<PackageModel>,
    pats: Seq<Seq<char>>,
    files: Seq<Option<Seq<char>>>,
)
    ensures
        ({
            let es = alias_entries(pkgs);
            let once = Seq::new(
                pkgs.len(),
                |i: int| with_usage(pkgs[i], use_count(es, pats, files, i as nat), files.len()),
            );
            &&& alias_entries(once) == es
            &&& forall|i: int|
                0 <= i < pkgs.len() ==> with_usage(
                    once[i],
                    use_count(alias_entries(once), pats, files, i as nat),
                    files.len(),
                ) == #[trigger] once[i]
        }),
{
    let es = alias_entries(pkgs);
    let once = Seq::new(
        pkgs.len(),
        |i: int| with_usage(pkgs[i], use_count(es, pats, files, i as nat), files.len()),
    );
    law_aliases_alone_decide(once, pkgs);
}

/// A normalized distribution name has no `_` or `.`, and no two `-` in a
/// row.
pub proof fn law_normalized_shape(s: Seq<char>)
    ensures
        ({
            let n = normalized(s);
            &&& forall|j: int| 0 <= j < n.len() ==> #[trigger] n[j] != '_' && n[j] != '.'
            &&& forall|j: int| 0 <= j < n.len() - 1 ==> !(#[trigger] n[j] == '-' && n[j + 1] == '-')
        }),
{
    lemma_collapse_shape(lowercased(s));
}

/// Normalizing an ASCII distribution name again changes nothing.
pub proof fn law_normalize_idempotent(s: Seq<char>)
    requires
        is_ascii_text(s),
    ensures
        normalized(normalized(s)) == normalized(s),
{
    let l = ascii_lowercase(s);
    lemma_ascii_lowercase(s);
    lemma_collapse_ascii(l);
    let n = collapse_separators(l);
    lemma_ascii_lowercase(n);
    lemma_collapse_shape(l);
    lemma_collapse_fixed(n);
}

/// ASCII names that differ only in letter case, or in which of `-`, `_`, `.`
/// stands at a place, normalize alike.
pub proof fn law_case_and_separators_do_not_matter(a: Seq<char>, b: Seq<char>)
    requires
        is_ascii_text(a),
        is_ascii_text(b),
        a.len() == b.len(),
        forall|i: int|
            0 <= i < a.len() ==> (name_separator(#[trigger] a[i]) && name_separator(b[i]))
                || ascii_lower(a[i]) == ascii_lower(b[i]),
    ensures
        normalized(a) == normalized(b),
{
    let (x, y) = (ascii_lowercase(a), ascii_lowercase(b));
    assert forall|i: int| 0 <= i < x.len() implies (name_separator(#[trigger] x[i])
        && name_separator(y[i])) || x[i] == y[i] by {
        assert(x[i] == ascii_lower(a[i]) && y[i] == ascii_lower(b[i]));
    }
    lemma_collapse_agree(x, y);
}

/// A declared Python requirement is found under its normalized name: when
/// the last installed entry for that name records `v` (pip reports
/// `typing-extensions` for a declared `typing_extensions`), the package is
/// installed at `v`, and the version column shows `v`.
pub proof fn law_python_found_by_normalized_name(
    d: (Seq<char>, Seq<char>),
    installed: Seq<(Seq<char>, Seq<char>)>,
    descriptions: Seq<(Seq<char>, Seq<char>)>,
    i: int,
)
    requires
        0 <= i < installed.len(),
        installed[i].0 == normalized(d.0),
        forall|j: int| i < j < installed.len() ==> (#[trigger] installed[j]).0 != normalized(d.0),
    ensures
        python_package(d, installed, descriptions).status == StatusModel::Installed(installed[i].1),
        python_package(d, installed, descriptions).version == installed[i].1,
        python_package(d, installed, descriptions).name == d.0,
{
    lemma_lookup_finds_last(installed, normalized(d.0), i);
}

/// A declared Python requirement that no installed entry names, under its
/// normalized name, is missing, and its version column shows the
/// requirement.
pub proof fn law_python_missing_when_not_installed(
    d: (Seq<char>, Seq<char>),
    installed: Seq<(Seq<char>, Seq<char>)>,
    descriptions: Seq<(Seq<char>, Seq<char>)>,
)
    requires
        forall|j: int| 0 <= j < installed.len() ==> (#[trigger] installed[j]).0 != normalized(d.0),
    ensures
        python_package(d, installed, descriptions).status == StatusModel::Missing,
        python_package(d, installed, descriptions).version == d.1,
{
    lemma_lookup_absent(installed, normalized(d.0));
}

/// The description of a Python package is the last `pip show` summary
/// recorded under its normalized name, or "N/A" where there is none.
pub proof fn law_python_description_by_normalized_name(
    d: (Seq<char>, Seq<char>),
    installed: Seq<(Seq<char>, Seq<char>)>,
    descriptions: Seq<(Seq<char>, Seq<char>)>,
    i: int,
)
    requires
        0 <= i < descriptions.len(),
        descriptions[i].0 == normalized(d.0),
        forall|j: int|
            i < j < descriptions.len() ==> (#[trigger] descriptions[j]).0 != normalized(d.0),
    ensures
        python_package(d, installed, descriptions).description == descriptions[i].1,
{
    lemma_lookup_finds_last(descriptions, normalized(d.0), i);
}

/// ASCII requirement names that differ only in letter case or in which of
/// `-`, `_`, `.` stands at a place (`typing_extensions`,
/// `Typing-Extensions`) resolve alike: same status, version and
/// description.
pub proof fn law_python_names_resolve_alike(
    a: Seq<char>,
    b: Seq<char>,
    req: Seq<char>,
    installed: Seq<(Seq<char>, Seq<char>)>,
    descriptions: Seq<(Seq<char>, Seq<char>)>,
)
    requires
        is_ascii_text(a),
        is_ascii_text(b),
        a.len() == b.len(),
        forall|i: int|
            0 <= i < a.len() ==> (name_separator(#[trigger] a[i]) && name_separator(b[i]))
                || ascii_lower(a[i]) == ascii_lower(b[i]),
    ensures
        python_package((a, req), installed, descriptions).status == python_package(
            (b, req),
            installed,
            descriptions,
        ).status,
        python_package((a, req), installed, descriptions).version == python_package(
            (b, req),
            installed,
            descriptions,
        ).version,
        python_package((a, req), installed, descriptions).description == python_package(
            (b, req),
            installed,
            descriptions,
        ).description,
{
    law_case_and_separators_do_not_matter(a, b);
}

/// A declared crate is found in `Cargo.lock` under its own name (dashes and
/// all): when the last locked entry for that name records `v`, the crate is
/// installed at `v`.
pub proof fn law_rust_found_by_crate_name(
    d: (Seq<char>, Seq<char>),
    locked: Seq<(Seq<char>, Seq<char>)>,
    i: int,
)
    requires
        0 <= i < locked.len(),
        locked[i].0 == d.0,
        forall|j: int| i < j < locked.len() ==> (#[trigger] locked[j]).0 != d.0,
    ensures
        rust_package(d, locked).status == StatusModel::Installed(locked[i].1),
        rust_package(d, locked).version == locked[i].1,
        rust_package(d, locked).name == d.0,
{
    lemma_lookup_finds_last(locked, d.0, i);
}

/// A declared crate that `Cargo.lock` does not name is missing, at its
/// requirement.
pub proof fn law_rust_missing_when_not_locked(
    d: (Seq<char>, Seq<char>),
    locked: Seq<(Seq<char>, Seq<char>)>,
)
    requires
        forall|j: int| 0 <= j < locked.len() ==> (#[trigger] locked[j]).0 != d.0,
    ensures
        rust_package(d, locked).status == StatusModel::Missing,
        rust_package(d, locked).version == d.1,
{
    lemma_lookup_absent(locked, d.0);
}

/// A required Go module is found under its exact module path (letter case
/// kept): when the last entry `go list` reports for that path records `v`,
/// the module is installed at `v`.
pub proof fn law_go_found_by_exact_path(
    d: (Seq<char>, Seq<char>),
    installed: Seq<(Seq<char>, Seq<char>)>,
    i: int,
)
    requires
        0 <= i < installed.len(),
        installed[i].0 == d.0,
        forall|j: int| i < j < installed.len() ==> (#[trigger] installed[j]).0 != d.0,
    ensures
        go_package(d, installed).status == StatusModel::Installed(installed[i].1),
        go_package(d, installed).version == installed[i].1,
{
    lemma_lookup_finds_last(installed, d.0, i);
}

/// A required Go module that `go list` does not report is missing, at its
/// required version.
pub proof fn law_go_missing_when_not_listed(
    d: (Seq<char>, Seq<char>),
    installed: Seq<(Seq<char>, Seq<char>)>,
)
    requires
        forall|j: int| 0 <= j < installed.len() ==> (#[trigger] installed[j]).0 != d.0,
    ensures
        go_package(d, installed).status == StatusModel::Missing,
        go_package(d, installed).version == d.1,
{
    lemma_lookup_absent(installed, d.0);
}

/// A declared gem is found in `Gemfile.lock` under its name: when the last
/// locked entry for that name records `v`, the gem is installed at `v`.
pub proof fn law_ruby_found_by_gem_name(
    d: (Seq<char>, Seq<char>),
    locked: Seq<(Seq<char>, Seq<char>)>,
    i: int,
)
    requires
        0 <= i < locked.len(),
        locked[i].0 == d.0,
        forall|j: int| i < j < locked.len() ==> (#[trigger] locked[j]).0 != d.0,
    ensures
        ruby_package(d, locked).status == StatusModel::Installed(locked[i].1),
        ruby_package(d, locked).version == locked[i].1,
{
    lemma_lookup_finds_last(locked, d.0, i);
}

/// A Node package whose installed `package.json` parses is installed: at
/// the "version" string it holds, and described by the "description"
/// string it holds.
pub proof fn law_node_reads_installed_manifest(
    d: (Seq<char>, Seq<char>),
    text: Seq<char>,
    version: Seq<char>,
    description: Seq<char>,
)
    requires
        json_document(text) is Ok,
        json_str(json_get(json_document(text)->Ok_0, "version"@)) == Some(version),
        json_str(json_get(json_document(text)->Ok_0, "description"@)) == Some(description),
    ensures
        node_package(d, Some(text)).status == StatusModel::Installed(version),
        node_package(d, Some(text)).version == version,
        node_package(d, Some(text)).description == description,
{
}

/// A Node package with no installed `package.json` is missing, at its
/// requirement, and has no description.
pub proof fn law_node_missing_without_manifest(d: (Seq<char>, Seq<char>))
    ensures
        node_package(d, None).status == StatusModel::Missing,
        node_package(d, None).version == d.1,
        node_package(d, None).description == "N/A"@,
{
}

/// In a Gemfile line `gem 'name', 'version', options...` the requirement
/// is the second argument, the quoted text right after the first comma that
/// follows the name, whatever options come after it.
pub proof fn law_gem_version_is_second_argument(n: Seq<char>, v: Seq<char>, rest: Seq<char>)
    requires
        forall|j: int| 0 <= j < n.len() ==> #[trigger] n[j] != '\'' && n[j] != ',',
        forall|j: int| 0 <= j < v.len() ==> #[trigger] v[j] != '\'',
    ensures
        gem_line("gem '"@ + n + "', '"@ + v + "'"@ + rest) == Some((n, v)),
{
    reveal_strlit("gem '");
    reveal_strlit("', '");
    reveal_strlit("'");
    reveal_strlit("gem ");
    let line = "gem '"@ + n + "', '"@ + v + "'"@ + rest;
    let nn = n.len() as int;
    let vv = v.len() as int;
    let p = nn + vv + 10;
    assert(line.len() == p + rest.len());
    assert(line[0] == 'g' && line[1] == 'e' && line[2] == 'm' && line[3] == ' ' && line[4]
        == '\'');
    assert forall|j: int| 0 <= j < nn implies #[trigger] line[5 + j] == n[j] by {}
    assert(line[5 + nn] == '\'' && line[6 + nn] == ',' && line[7 + nn] == ' ' && line[8 + nn]
        == '\'');
    assert forall|j: int| 0 <= j < vv implies #[trigger] line[9 + nn + j] == v[j] by {}
    assert(line[9 + nn + vv] == '\'');

    // The whole line survives trimming up to its closing quote.
    lemma_trim_keeps(line, 0, p);
    let t = trim(line);
    assert(t.subrange(0, 4) =~= "gem "@);
    assert("gem "@.is_prefix_of(t));
    let u = t.skip(4);
    assert forall|j: int| 0 <= j < u.len() implies #[trigger] u[j] == line[4 + j] by {}
    assert(u[p - 5] == line[p - 1]);
    lemma_trim_keeps(u, 0, p - 4);
    let r = trim(u);
    assert forall|j: int| 0 <= j < r.len() implies #[trigger] r[j] == line[4 + j] by {
        assert(r[j] == u[j]);
    }

    // The name is the first quoted string.
    assert forall|j: int| 1 <= j <= nn implies #[trigger] r[j] != '\'' by {
        assert(r[j] == line[5 + (j - 1)]);
    }
    assert(r[nn + 1] == line[5 + nn]);
    lemma_quoted_single(r, nn);
    assert(r.subrange(1, nn + 1) =~= n) by {
        assert forall|j: int| 0 <= j < nn implies r.subrange(1, nn + 1)[j] == n[j] by {
            assert(r[1 + j] == line[5 + j]);
        }
    }

    // The first comma is the one right after the name.
    assert forall|j: int| 0 <= j < nn + 2 implies !char_class(',')(#[trigger] r[j]) by {
        if 1 <= j <= nn {
            assert(r[j] == line[5 + (j - 1)]);
        }
    }
    assert(r[nn + 2] == line[6 + nn]);
    lemma_pos_of_is(r, char_class(','), nn + 2);
    assert(pos_of(r, char_class(',')) == nn + 2);

    // After it, the version is the quoted string.
    let w = r.skip(nn + 3);
    assert forall|j: int| 0 <= j < w.len() implies #[trigger] w[j] == line[7 + nn + j] by {
        assert(w[j] == r[nn + 3 + j]);
    }
    assert(w[0] == ' ' && w[1] == '\'');
    assert(w[vv + 2] == line[9 + nn + vv]);
    assert(is_ws(w[0]));
    assert forall|j: int| 0 <= j < 1 implies is_ws(#[trigger] w[j]) by {}
    lemma_trim_keeps(w, 1, vv + 3);
    let x = trim(w);
    assert forall|j: int| 0 <= j < x.len() implies #[trigger] x[j] == w[1 + j] by {}
    assert(x[0] == '\'');
    assert forall|j: int| 1 <= j <= vv implies #[trigger] x[j] != '\'' by {
        assert(x[j] == w[1 + j]);
        assert(w[1 + j] == line[9 + nn + (j - 1)]);
    }
    assert(x[vv + 1] == w[vv + 2]);
    lemma_quoted_single(x, vv);
    assert(x.subrange(1, vv + 1) =~= v) by {
        assert forall|j: int| 0 <= j < vv implies x.subrange(1, vv + 1)[j] == v[j] by {
            assert(x[1 + j] == w[2 + j]);
            assert(w[2 + j] == line[9 + nn + j]);
        }
    }
}

/// The import name of an ASCII Python requirement is its name lowercased
/// with each `-` turned into `_` (`python-dateutil` imports as
/// `python_dateutil`), one character for one.
pub proof fn law_python_import_name(
    d: (Seq<char>, Seq<char>),
    installed: Seq<(Seq<char>, Seq<char>)>,
    descriptions: Seq<(Seq<char>, Seq<char>)>,
)
    requires
        is_ascii_text(d.0),
    ensures
        ({
            let aliases = python_package(d, installed, descriptions).import_aliases;
            &&& aliases.len() == 1
            &&& aliases[0].len() == d.0.len()
            &&& forall|j: int|
                0 <= j < d.0.len() ==> #[trigger] aliases[0][j] == if d.0[j] == '-' {
                    '_'
                } else {
                    ascii_lower(d.0[j])
                }
        }),
{
}

/// The import name of a crate is its name with each `-` turned into `_`
/// (`tokio-util` imports as `tokio_util`), while it is listed and looked up
/// under its own name.
pub proof fn law_rust_import_name(d: (Seq<char>, Seq<char>), locked: Seq<(Seq<char>, Seq<char>)>)
    ensures
        ({
            let p = rust_package(d, locked);
            &&& p.name == d.0
            &&& p.import_aliases.len() == 1
            &&& p.import_aliases[0].len() == d.0.len()
            &&& forall|j: int|
                0 <= j < d.0.len() ==> #[trigger] p.import_aliases[0][j] == if d.0[j] == '-' {
                    '_'
                } else {
                    d.0[j]
                }
        }),
{
}

/// A Go module is listed under the last `/`-separated segment of its path,
/// described by its whole path, and imported by its whole path.
pub proof fn law_go_names(d: (Seq<char>, Seq<char>), installed: Seq<(Seq<char>, Seq<char>)>)
    ensures
        ({
            let p = go_package(d, installed);
            let k = d.0.len() - p.name.len();
            &&& p.name.len() <= d.0.len()
            &&& p.name == d.0.skip(k)
            &&& forall|j: int| 0 <= j < p.name.len() ==> #[trigger] p.name[j] != '/'
            &&& (k == 0 || d.0[k - 1] == '/')
            &&& p.description == d.0
            &&& p.import_aliases == seq![d.0]
        }),
{
    let s = d.0;
    let e = end_of(s, char_class('/'));
    lemma_end_of_bounds(s, char_class('/'));
    assert(last_segment_of(s) == s.skip(e as int));
    assert forall|j: int| 0 <= j < s.skip(e as int).len() implies #[trigger] s.skip(
        e as int,
    )[j] != '/' by {
        assert(s.skip(e as int)[j] == s[e + j]);
    }
}

/// A Node package is listed and imported under its declared name.
pub proof fn law_node_names(d: (Seq<char>, Seq<char>), installed: Option<Seq<char>>)
    ensures
        node_package(d, installed).name == d.0,
        node_package(d, installed).import_aliases == seq![d.0],
{
}

/// A Gemfile line that is a comment declares nothing.
pub proof fn law_gem_comment_declares_nothing(line: Seq<char>)
    requires
        trim(line).len() > 0,
        trim(line)[0] == '#',
    ensures
        gem_line(line) is None,
{
}

} // verus!
