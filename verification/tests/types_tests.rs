use pkgcheck::types::{
    compute_overall_status, truncate_str, EcosystemSummary, OverallStatus, PackageInfo,
    PackageStatus,
};

fn pkg(name: &str, status: PackageStatus) -> PackageInfo {
    PackageInfo {
        name: name.to_string(),
        description: "A package".to_string(),
        language: "Rust".to_string(),
        version: "^1.0".to_string(),
        status,
        used_in_files: 0,
        scanned_files: 0,
        import_aliases: vec![name.to_string()],
    }
}

fn installed(name: &str) -> PackageInfo {
    pkg(name, PackageStatus::Installed { version: "1.0.3".to_string() })
}

fn outdated(name: &str) -> PackageInfo {
    pkg(
        name,
        PackageStatus::OutOfDate { installed: "0.9".to_string(), required: "1.0".to_string() },
    )
}

fn missing(name: &str) -> PackageInfo {
    pkg(name, PackageStatus::Missing)
}

#[test]
fn truncate_short_and_long() {
    assert_eq!(truncate_str("short", 40), "short");
    let exact = "a".repeat(40);
    assert_eq!(truncate_str(&exact, 40), exact);
    let long = "b".repeat(41);
    let t = truncate_str(&long, 40);
    assert_eq!(t.chars().count(), 40);
    assert_eq!(t, format!("{}\u{2026}", "b".repeat(39)));
    assert_eq!(truncate_str("h\u{e9}llo w\u{f6}rld", 5), "h\u{e9}ll\u{2026}");
    assert_eq!(truncate_str("", 0), "");
    assert_eq!(truncate_str("", 3), "");
}

#[test]
fn rows_for_each_status() {
    let r = installed("serde").to_row("80.0%".to_string());
    assert_eq!(r.name, "serde");
    assert_eq!(r.version, "1.0.3");
    assert_eq!(r.status_label, "\u{2713} installed");
    assert_eq!(r.usage, "80.0%");
    assert_eq!(r.language, "Rust");
    assert_eq!(r.description, "A package");

    let o = outdated("x").to_row("0.0%".to_string());
    assert_eq!(o.version, "0.9 (need 1.0)");
    assert_eq!(o.status_label, "\u{26a0} outdated");

    let m = missing("y").to_row("0.0%".to_string());
    assert_eq!(m.version, "^1.0");
    assert_eq!(m.status_label, "\u{2717} missing");
}

#[test]
fn summary_counts_each_status() {
    let pkgs = vec![installed("a"), missing("b"), outdated("c"), installed("d")];
    let s = EcosystemSummary::from_packages("Rust", &pkgs);
    assert_eq!(s.name, "Rust");
    assert_eq!(s.total, 4);
    assert_eq!(s.installed, 2);
    assert_eq!(s.outdated, 1);
    assert_eq!(s.missing, 1);
    let e = EcosystemSummary::from_packages("Go", &[]);
    assert_eq!((e.total, e.installed, e.outdated, e.missing), (0, 0, 0, 0));
}

#[test]
fn overall_status_cases() {
    assert_eq!(compute_overall_status(&[]), OverallStatus::AllGood);
    assert_eq!(compute_overall_status(&[installed("a"), installed("b")]), OverallStatus::AllGood);
    assert_eq!(compute_overall_status(&[installed("a"), outdated("b")]), OverallStatus::Partial);
    assert_eq!(compute_overall_status(&[installed("a"), missing("b")]), OverallStatus::Partial);
    assert_eq!(compute_overall_status(&[outdated("a"), missing("b")]), OverallStatus::Partial);
    assert_eq!(compute_overall_status(&[missing("a"), missing("b")]), OverallStatus::NoneInstalled);
    assert_eq!(compute_overall_status(&[outdated("a")]), OverallStatus::Partial);
}
