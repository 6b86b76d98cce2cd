//! Shared data types: package status, per-package information, table rows
//! and per-ecosystem summaries.
use vstd::prelude::*;

use crate::text::{owned, push_str, chars_of, string_of};

verus! {

// ---------------------------------------------------------------------------
// Package-level status
// ---------------------------------------------------------------------------

/// Installation status of an individual package.
#[derive(Debug, Clone)]
pub enum PackageStatus {
    /// Package is installed at an acceptable version.
    Installed { version: String },
    /// Package is installed but at a different version than required.
    /// Not yet constructed: reserved for semver-range checking.
    OutOfDate { installed: String, required: String },
    /// Package is not installed at all.
    Missing,
}

/// The mathematical model of a [`PackageStatus`].
pub enum StatusModel {
    Installed(Seq<char>),
    OutOfDate(Seq<char>, Seq<char>),
    Missing,
}

impl View for PackageStatus {
    type V = StatusModel;

    open spec fn view(&self) -> StatusModel {
        match self {
            PackageStatus::Installed { version } => StatusModel::Installed(version@),
            PackageStatus::OutOfDate { installed, required } => StatusModel::OutOfDate(
                installed@,
                required@,
            ),
            PackageStatus::Missing => StatusModel::Missing,
        }
    }
}

// ---------------------------------------------------------------------------
// Aggregate project health
// ---------------------------------------------------------------------------

/// Overall health indicator for all detected dependencies.
#[derive(Debug, Clone, Copy, PartialEq, Eq, Structural)]
pub enum OverallStatus {
    /// Still scanning ecosystems (blinking green dot).
    Processing,
    /// Every package is installed and up to date (solid green dot).
    AllGood,
    /// Some packages are missing or outdated (orange dot).
    Partial,
    /// No required packages are installed (red dot).
    NoneInstalled,
}

// ---------------------------------------------------------------------------
// Per-package information
// ---------------------------------------------------------------------------

/// Full information about a single package dependency.
///
/// How widely the package is used is kept as two counts: the number of
/// scanned source files that import it, out of the number of source files
/// scanned (0 when no scan took place, which reads as 0 %).
#[derive(Debug, Clone)]
pub struct PackageInfo {
    /// Package name as declared in the manifest (e.g. "serde", "express").
    pub name: String,
    /// Brief description of what the package does.
    pub description: String,
    /// Language / ecosystem label (e.g. "Node.js", "Python").
    pub language: String,
    /// Installed or required version string.
    pub version: String,
    /// Current installation status.
    pub status: PackageStatus,
    /// Number of scanned source files that import this package.
    pub used_in_files: usize,
    /// Number of source files scanned for imports.
    pub scanned_files: usize,
    /// Names under which this package appears in import statements.
    pub import_aliases: Vec<String>,
}

/// The mathematical model of a [`PackageInfo`].
pub struct PackageModel {
    pub name: Seq<char>,
    pub description: Seq<char>,
    pub language: Seq<char>,
    pub version: Seq<char>,
    pub status: StatusModel,
    pub used_in_files: nat,
    pub scanned_files: nat,
    pub import_aliases: Seq<Seq<char>>,
}

pub open spec fn strings_view(v: Seq<String>) -> Seq<Seq<char>> {
    v.map_values(|s: String| s@)
}

impl View for PackageInfo {
    type V = PackageModel;

    open spec fn view(&self) -> PackageModel {
        PackageModel {
            name: self.name@,
            description: self.description@,
            language: self.language@,
            version: self.version@,
            status: self.status@,
            used_in_files: self.used_in_files as nat,
            scanned_files: self.scanned_files as nat,
            import_aliases: strings_view(self.import_aliases@),
        }
    }
}

pub open spec fn packages_view(v: Seq<PackageInfo>) -> Seq<PackageModel> {
    v.map_values(|p: PackageInfo| p@)
}

// ---------------------------------------------------------------------------
// Table-rendering row
// ---------------------------------------------------------------------------

/// One row of the summary table.
#[derive(Debug, Clone)]
pub struct PackageRow {
    pub name: String,
    pub description: String,
    pub language: String,
    pub version: String,
    pub status_label: String,
    pub usage: String,
}

/// Widest description shown in the table, in characters.
pub const DESCRIPTION_WIDTH: usize = 40;

/// `s` cut to `max_len` characters, the last of them an ellipsis, when longer.
pub open spec fn truncated(s: Seq<char>, max_len: nat) -> Seq<char> {
    if s.len() <= max_len {
        s
    } else {
        s.take(max_len - 1).push('\u{2026}')
    }
}

/// The version column and the status label of a row.
pub open spec fn row_version_and_label(p: PackageModel) -> (Seq<char>, Seq<char>) {
    match p.status {
        StatusModel::Installed(v) => (v, "\u{2713} installed"@),
        StatusModel::OutOfDate(installed, required) => (
            installed + " (need "@ + required + ")"@,
            "\u{26a0} outdated"@,
        ),
        StatusModel::Missing => (p.version, "\u{2717} missing"@),
    }
}

impl PackageInfo {
    /// Convert into a table-ready row.  `usage` is the usage column, already
    /// rendered as a percentage.
    pub fn to_row(&self, usage: String) -> (row: PackageRow)
        ensures
            row.name@ == self.name@,
            row.description@ == truncated(self.description@, DESCRIPTION_WIDTH as nat),
            row.language@ == self.language@,
            row.version@ == row_version_and_label(self@).0,
            row.status_label@ == row_version_and_label(self@).1,
            row.usage@ == usage@,
    {
        let (version_display, status_label) = match &self.status {
            PackageStatus::Installed { version } => (version.clone(), owned("\u{2713} installed")),
            PackageStatus::OutOfDate { installed, required } => {
                let mut v = installed.clone();
                push_str(&mut v, " (need ");
                push_str(&mut v, required.as_str());
                push_str(&mut v, ")");
                (v, owned("\u{26a0} outdated"))
            },
            PackageStatus::Missing => (self.version.clone(), owned("\u{2717} missing")),
        };
        PackageRow {
            name: self.name.clone(),
            description: truncate_str(self.description.as_str(), DESCRIPTION_WIDTH),
            language: self.language.clone(),
            version: version_display,
            status_label,
            usage,
        }
    }
}

/// Truncate a string to `max_len` characters, the last an ellipsis, if longer.
pub fn truncate_str(s: &str, max_len: usize) -> (r: String)
    requires
        max_len >= 1 || s@.len() == 0,
    ensures
        r@ == truncated(s@, max_len as nat),
{
    let v = chars_of(s);
    if v.len() <= max_len {
        owned(s)
    } else {
        let mut r = string_of(&v, 0, max_len - 1);
        r.push('\u{2026}');
        r
    }
}

// ---------------------------------------------------------------------------
// Counting statuses
// ---------------------------------------------------------------------------

/// Number of packages in `s` that are installed.
pub open spec fn count_installed(s: Seq<PackageModel>) -> nat
    decreases s.len(),
{
    if s.len() == 0 {
        0
    } else {
        count_installed(s.drop_last()) + if s.last().status is Installed {
            1nat
        } else {
            0nat
        }
    }
}

/// Number of packages in `s` that are installed at another version.
pub open spec fn count_outdated(s: Seq<PackageModel>) -> nat
    decreases s.len(),
{
    if s.len() == 0 {
        0
    } else {
        count_outdated(s.drop_last()) + if s.last().status is OutOfDate {
            1nat
        } else {
            0nat
        }
    }
}

/// Number of packages in `s` that are missing.
pub open spec fn count_missing(s: Seq<PackageModel>) -> nat
    decreases s.len(),
{
    if s.len() == 0 {
        0
    } else {
        count_missing(s.drop_last()) + if s.last().status is Missing {
            1nat
        } else {
            0nat
        }
    }
}

/// The three counts add up to the number of packages.
pub proof fn lemma_counts_partition(s: Seq<PackageModel>)
    ensures
        count_installed(s) + count_outdated(s) + count_missing(s) == s.len(),
    decreases s.len(),
{
    if s.len() > 0 {
        lemma_counts_partition(s.drop_last());
    }
}

/// The counts of a joined list are the sums of the counts of its parts.
pub proof fn lemma_counts_join(a: Seq<PackageModel>, b: Seq<PackageModel>)
    ensures
        count_installed(a + b) == count_installed(a) + count_installed(b),
        count_outdated(a + b) == count_outdated(a) + count_outdated(b),
        count_missing(a + b) == count_missing(a) + count_missing(b),
    decreases b.len(),
{
    if b.len() == 0 {
        assert(a + b =~= a);
    } else {
        lemma_counts_join(a, b.drop_last());
        assert((a + b).drop_last() =~= a + b.drop_last());
        assert((a + b).last() == b.last());
    }
}

/// Taking the package at `j` out of `s` lowers its count by one.
proof fn lemma_counts_remove(s: Seq<PackageModel>, j: int)
    requires
        0 <= j < s.len(),
    ensures
        count_installed(s) == count_installed(s.remove(j)) + if s[j].status is Installed {
            1nat
        } else {
            0nat
        },
        count_outdated(s) == count_outdated(s.remove(j)) + if s[j].status is OutOfDate {
            1nat
        } else {
            0nat
        },
        count_missing(s) == count_missing(s.remove(j)) + if s[j].status is Missing {
            1nat
        } else {
            0nat
        },
{
    let l = s.take(j);
    let r = s.skip(j + 1);
    let one = seq![s[j]];
    assert(s =~= (l + one) + r);
    assert(s.remove(j) =~= l + r);
    lemma_counts_join(l + one, r);
    lemma_counts_join(l, one);
    lemma_counts_join(l, r);
    assert(one.drop_last() =~= Seq::<PackageModel>::empty());
    assert(one.last() == s[j]);
    assert(count_installed(one.drop_last()) == 0);
    assert(count_outdated(one.drop_last()) == 0);
    assert(count_missing(one.drop_last()) == 0);
    assert(count_installed(one) == if s[j].status is Installed {
        1nat
    } else {
        0nat
    });
    assert(count_outdated(one) == if s[j].status is OutOfDate {
        1nat
    } else {
        0nat
    });
    assert(count_missing(one) == if s[j].status is Missing {
        1nat
    } else {
        0nat
    });
}

/// Lists that hold the same packages, in any order, have the same counts.
pub proof fn lemma_counts_permutation(a: Seq<PackageModel>, b: Seq<PackageModel>)
    requires
        a.to_multiset() =~= b.to_multiset(),
    ensures
        a.len() == b.len(),
        count_installed(a) == count_installed(b),
        count_outdated(a) == count_outdated(b),
        count_missing(a) == count_missing(b),
    decreases a.len(),
{
    broadcast use vstd::seq_lib::group_to_multiset_ensures;
    broadcast use vstd::multiset::group_multiset_axioms;

    if a.len() == 0 {
        assert(a.to_multiset().len() == 0);
        assert(b.to_multiset().len() == b.len());
        assert(b =~= a);
    } else {
        let x = a.last();
        let p = a.drop_last();
        assert(p.push(x) =~= a);
        assert(a.to_multiset() =~= p.to_multiset().insert(x));
        assert(b.to_multiset().count(x) > 0);
        assert(b.contains(x));
        let j = choose|j: int| 0 <= j < b.len() && b[j] == x;
        let q = b.remove(j);
        assert(q.to_multiset() =~= b.to_multiset().remove(x));
        assert(q.to_multiset() =~= p.to_multiset());
        lemma_counts_permutation(p, q);
        lemma_counts_remove(b, j);
    }
}

/// The counts of `s`, computed in one pass.
pub fn count_statuses(packages: &[PackageInfo]) -> (r: (usize, usize, usize))
    ensures
        r.0 == count_installed(packages_view(packages@)),
        r.1 == count_outdated(packages_view(packages@)),
        r.2 == count_missing(packages_view(packages@)),
{
    let mut installed: usize = 0;
    let mut outdated: usize = 0;
    let mut missing: usize = 0;
    let mut i: usize = 0;
    while i < packages.len()
        invariant
            0 <= i <= packages.len(),
            installed == count_installed(packages_view(packages@).take(i as int)),
            outdated == count_outdated(packages_view(packages@).take(i as int)),
            missing == count_missing(packages_view(packages@).take(i as int)),
        decreases packages.len() - i,
    {
        let ghost pv = packages_view(packages@);
        proof {
            assert(pv.take(i + 1).drop_last() =~= pv.take(i as int));
            lemma_counts_partition(pv.take(i as int));
        }
        match &packages[i].status {
            PackageStatus::Installed { .. } => installed = installed + 1,
            PackageStatus::OutOfDate { .. } => outdated = outdated + 1,
            PackageStatus::Missing => missing = missing + 1,
        }
        i = i + 1;
    }
    assert(packages_view(packages@).take(i as int) =~= packages_view(packages@));
    (installed, outdated, missing)
}

// ---------------------------------------------------------------------------
// Ecosystem-level summary
// ---------------------------------------------------------------------------

/// Aggregated result of one ecosystem's package check.
#[derive(Debug, Clone)]
pub struct EcosystemSummary {
    /// Ecosystem name (e.g. "Node.js").
    pub name: String,
    /// Total number of declared packages.
    pub total: usize,
    /// Number currently installed (correct version).
    pub installed: usize,
    /// Number installed but at a different version.
    pub outdated: usize,
    /// Number not installed at all.
    pub missing: usize,
}

impl EcosystemSummary {
    /// Build a summary by inspecting a slice of package results.
    pub fn from_packages(name: &str, packages: &[PackageInfo]) -> (r: Self)
        ensures
            r.name@ == name@,
            r.total == packages@.len(),
            r.installed == count_installed(packages_view(packages@)),
            r.outdated == count_outdated(packages_view(packages@)),
            r.missing == count_missing(packages_view(packages@)),
            r.installed + r.outdated + r.missing == r.total,
    {
        let (installed, outdated, missing) = count_statuses(packages);
        proof {
            lemma_counts_partition(packages_view(packages@));
        }
        EcosystemSummary { name: owned(name), total: packages.len(), installed, outdated, missing }
    }
}

// ---------------------------------------------------------------------------
// Overall status
// ---------------------------------------------------------------------------

/// The overall health of a project with `total` packages, of which
/// `installed` are installed and `outdated` are installed at another version.
pub open spec fn overall_status(total: nat, installed: nat, outdated: nat) -> OverallStatus {
    if total == 0 {
        OverallStatus::AllGood
    } else if installed + outdated == total {
        if outdated > 0 {
            OverallStatus::Partial
        } else {
            OverallStatus::AllGood
        }
    } else if installed == 0 && outdated == 0 {
        OverallStatus::NoneInstalled
    } else {
        OverallStatus::Partial
    }
}

/// Derive the overall project health from the aggregated package list.
pub fn compute_overall_status(packages: &[PackageInfo]) -> (r: OverallStatus)
    ensures
        r == overall_status(
            packages@.len(),
            count_installed(packages_view(packages@)),
            count_outdated(packages_view(packages@)),
        ),
{
    if packages.len() == 0 {
        return OverallStatus::AllGood;
    }
    let (installed, outdated, missing) = count_statuses(packages);
    proof {
        lemma_counts_partition(packages_view(packages@));
    }
    let total = packages.len();
    if installed + outdated == total {
        if outdated > 0 {
            OverallStatus::Partial
        } else {
            OverallStatus::AllGood
        }
    } else if installed == 0 && outdated == 0 {
        OverallStatus::NoneInstalled
    } else {
        OverallStatus::Partial
    }
}

} // verus!
