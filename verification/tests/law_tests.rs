use pkgcheck::display::{redraw_rows, scroll_frame, scroll_step, status_frame, DisplayState, ScrollKey};
use pkgcheck::ecosystems::lookup_last;
use pkgcheck::ecosystems::python::{normalize_name, PythonEcosystem};
use pkgcheck::scanner::compute_usage;
use pkgcheck::types::{compute_overall_status, truncate_str, EcosystemSummary, OverallStatus, PackageInfo, PackageStatus};

fn pkg(name: &str, status: PackageStatus) -> PackageInfo {
    PackageInfo {
        name: name.to_string(),
        description: "N/A".to_string(),
        language: "Python".to_string(),
        version: "*".to_string(),
        status,
        used_in_files: 0,
        scanned_files: 0,
        import_aliases: vec![name.to_string()],
    }
}

#[test]
fn status_matches_installation_counts() {
    let all = vec![
        pkg("a", PackageStatus::Installed { version: "1".to_string() }),
        pkg("b", PackageStatus::Installed { version: "2".to_string() }),
    ];
    assert_eq!(compute_overall_status(&all), OverallStatus::AllGood);
    let none = vec![pkg("a", PackageStatus::Missing)];
    assert_eq!(compute_overall_status(&none), OverallStatus::NoneInstalled);
    let mixed = vec![pkg("a", PackageStatus::Missing), all[0].clone()];
    assert_eq!(compute_overall_status(&mixed), OverallStatus::Partial);
    let s = EcosystemSummary::from_packages("Python", &mixed);
    assert_eq!(s.installed + s.outdated + s.missing, s.total);
}

#[test]
fn usage_never_exceeds_scanned_files() {
    let mut packages = vec![pkg("os", PackageStatus::Missing), pkg("sys", PackageStatus::Missing)];
    let files = vec![
        Some("import os\nimport os\nimport sys\n".to_string()),
        Some("import os\n".to_string()),
    ];
    compute_usage(&mut packages, &PythonEcosystem.import_patterns(), &files);
    for p in &packages {
        assert!(p.used_in_files <= p.scanned_files);
    }
    assert_eq!((packages[0].used_in_files, packages[0].scanned_files), (2, 2));
    compute_usage(&mut packages, &PythonEcosystem.import_patterns(), &files);
    assert_eq!((packages[0].used_in_files, packages[0].scanned_files), (2, 2));
}

#[test]
fn status_area_stays_within_its_lines() {
    let mut state = DisplayState::new();
    for i in 0..10 {
        state.finish_ecosystem(EcosystemSummary {
            name: format!("E{}", i),
            total: 1,
            installed: 1,
            outdated: 0,
            missing: 0,
        });
    }
    state.start_ecosystem("Go");
    let mut prev = 0;
    for max_lines in 0..15 {
        let f = status_frame(&state, max_lines, true);
        let header = if f.header_shown { 1 } else { 0 };
        assert!(header + f.lines.len() <= max_lines);
        let (written, _) = redraw_rows(prev.min(max_lines), &f);
        assert!(written <= max_lines);
        prev = written;
    }
    let f = status_frame(&state, 6, false);
    let mut prev = 0;
    for _ in 0..5 {
        prev = redraw_rows(prev, &f).0;
        assert!(prev <= 6);
    }
}

#[test]
fn scrolling_stays_in_bounds_and_down_up_returns() {
    let keys = [
        ScrollKey::Down,
        ScrollKey::Up,
        ScrollKey::PageDown,
        ScrollKey::PageUp,
        ScrollKey::Home,
        ScrollKey::End,
        ScrollKey::Other,
    ];
    for offset in 0..=7 {
        for key in keys {
            let o = scroll_step(offset, key, 3, 7).unwrap();
            assert!(o <= 7);
        }
    }
    for offset in 0..7 {
        let down = scroll_step(offset, ScrollKey::Down, 3, 7).unwrap();
        assert_eq!(scroll_step(down, ScrollKey::Up, 3, 7), Some(offset));
    }
    for offset in 0..=7 {
        let f = scroll_frame(10, offset, 3, 7);
        assert_eq!((f.end - offset) + f.blank_rows, 3);
    }
}

#[test]
fn truncation_fits_width() {
    for n in 0..60 {
        let s = "x".repeat(n);
        let t = truncate_str(&s, 40);
        assert!(t.chars().count() <= 40);
        if n <= 40 {
            assert_eq!(t, s);
        }
    }
}

#[test]
fn lookup_reads_back_the_last_record() {
    let mut entries = vec![("flask".to_string(), "2.0".to_string())];
    entries.push(("flask".to_string(), "2.3".to_string()));
    entries.push(("six".to_string(), "1.16".to_string()));
    assert_eq!(lookup_last(&entries, &"flask".to_string()), Some("2.3".to_string()));
    assert_eq!(lookup_last(&entries, &"six".to_string()), Some("1.16".to_string()));
}

#[test]
fn normalizing_twice_changes_nothing() {
    for name in ["Flask_SQLAlchemy", "Foo__Bar.baz", "a-._b", "_x_", "requests", "Zope.Interface"] {
        let once = normalize_name(name);
        assert_eq!(normalize_name(&once), once);
        assert!(!once.contains('_') && !once.contains('.') && !once.contains("--"));
    }
    assert_eq!(normalize_name("Flask_SQLAlchemy"), normalize_name("flask-sqlalchemy"));
    assert_eq!(normalize_name("ZOPE.interface"), normalize_name("zope_Interface"));
    assert_eq!(normalize_name("Flask_SQLAlchemy"), "flask-sqlalchemy");
}

fn counts(s: &EcosystemSummary) -> (usize, usize, usize, usize) {
    (s.total, s.installed, s.outdated, s.missing)
}

#[test]
fn summaries_of_joined_and_reordered_lists() {
    let a = vec![
        pkg("a", PackageStatus::Installed { version: "1".to_string() }),
        pkg("b", PackageStatus::Missing),
    ];
    let b = vec![
        pkg("c", PackageStatus::OutOfDate { installed: "1".to_string(), required: "2".to_string() }),
        pkg("d", PackageStatus::Installed { version: "3".to_string() }),
        pkg("e", PackageStatus::Missing),
    ];
    let mut joined = a.clone();
    joined.extend(b.iter().cloned());
    let (sa, sb) = (EcosystemSummary::from_packages("x", &a), EcosystemSummary::from_packages("x", &b));
    let sj = EcosystemSummary::from_packages("x", &joined);
    assert_eq!(counts(&sj), (5, 2, 1, 2));
    assert_eq!(sj.total, sa.total + sb.total);
    assert_eq!(sj.installed, sa.installed + sb.installed);
    assert_eq!(sj.outdated, sa.outdated + sb.outdated);
    assert_eq!(sj.missing, sa.missing + sb.missing);

    let mut reordered = joined.clone();
    reordered.reverse();
    reordered.swap(0, 3);
    assert_eq!(counts(&EcosystemSummary::from_packages("x", &reordered)), counts(&sj));
    assert_eq!(compute_overall_status(&reordered), compute_overall_status(&joined));
    assert_eq!(compute_overall_status(&joined), OverallStatus::Partial);
}

#[test]
fn a_whole_scroll_session_stays_in_bounds() {
    let keys = [
        ScrollKey::End,
        ScrollKey::Down,
        ScrollKey::PageDown,
        ScrollKey::PageUp,
        ScrollKey::PageUp,
        ScrollKey::Up,
        ScrollKey::Home,
        ScrollKey::Down,
        ScrollKey::Other,
        ScrollKey::Quit,
        ScrollKey::Down,
    ];
    let (view_rows, max_offset) = (3, 7);
    let mut offset = 0;
    let mut seen = Vec::new();
    for key in keys {
        match scroll_step(offset, key, view_rows, max_offset) {
            None => break,
            Some(next) => offset = next,
        }
        assert!(offset <= max_offset);
        seen.push(offset);
    }
    assert_eq!(seen, vec![7, 7, 7, 4, 1, 0, 0, 1, 1]);
    let big = usize::MAX;
    assert_eq!(scroll_step(big - 1, ScrollKey::PageDown, big, big), Some(big));
    assert_eq!(scroll_step(big - 1, ScrollKey::Down, big, big), Some(big));
    assert_eq!(scroll_step(10, ScrollKey::PageDown, 3, 7), Some(7));
}
