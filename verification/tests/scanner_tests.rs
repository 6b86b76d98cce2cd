use pkgcheck::ecosystems::go_lang::GoEcosystem;
use pkgcheck::ecosystems::node::NodeEcosystem;
use pkgcheck::ecosystems::python::PythonEcosystem;
use pkgcheck::scanner::{compute_usage, file_imports, has_source_extension, is_skipped_dir};
use pkgcheck::types::{PackageInfo, PackageStatus};

fn pkg(name: &str, aliases: &[&str]) -> PackageInfo {
    PackageInfo {
        name: name.to_string(),
        description: "N/A".to_string(),
        language: "Python".to_string(),
        version: "*".to_string(),
        status: PackageStatus::Missing,
        used_in_files: 0,
        scanned_files: 0,
        import_aliases: aliases.iter().map(|a| a.to_string()).collect(),
    }
}

fn usage(p: &[PackageInfo]) -> Vec<(usize, usize)> {
    p.iter().map(|x| (x.used_in_files, x.scanned_files)).collect()
}

#[test]
fn python_imports_are_counted_per_file() {
    let mut packages = vec![pkg("requests", &["requests"]), pkg("Flask", &["flask"]), pkg("numpy", &["numpy"])];
    let files = vec![
        Some("import requests\nfrom flask import Flask\nimport requests.adapters\n".to_string()),
        Some("import numpy as np\n".to_string()),
        None,
        Some("print('no imports')\n".to_string()),
    ];
    compute_usage(&mut packages, &PythonEcosystem.import_patterns(), &files);
    assert_eq!(usage(&packages), vec![(1, 4), (1, 4), (1, 4)]);
}

#[test]
fn go_imports_match_module_prefixes() {
    let mut packages = vec![pkg("bar", &["github.com/foo/bar"]), pkg("other", &["github.com/foo/other"])];
    let files = vec![
        Some("package main\n\nimport (\n\t\"fmt\"\n\t\"github.com/foo/bar/sub\"\n)\n".to_string()),
        Some("package x\nimport \"github.com/foo/barbaz\"\n".to_string()),
        Some("package y\nimport \"github.com/Foo/Other\"\n".to_string()),
    ];
    compute_usage(&mut packages, &GoEcosystem.import_patterns(), &files);
    assert_eq!(usage(&packages), vec![(1, 3), (1, 3)]);
}

#[test]
fn shared_alias_counts_for_the_last_package() {
    let mut packages = vec![pkg("a", &["yaml"]), pkg("b", &["YAML"])];
    let files = vec![Some("import yaml\n".to_string())];
    compute_usage(&mut packages, &PythonEcosystem.import_patterns(), &files);
    assert_eq!(usage(&packages), vec![(0, 1), (1, 1)]);
}

#[test]
fn nothing_changes_without_patterns_or_files() {
    let mut packages = vec![pkg("x", &["x"])];
    compute_usage(&mut packages, &vec!["(unclosed".to_string()], &vec![Some("import x".to_string())]);
    assert_eq!(usage(&packages), vec![(0, 0)]);
    compute_usage(&mut packages, &PythonEcosystem.import_patterns(), &Vec::new());
    assert_eq!(usage(&packages), vec![(0, 0)]);
    let mut none: Vec<PackageInfo> = Vec::new();
    compute_usage(&mut none, &PythonEcosystem.import_patterns(), &vec![Some("import x".to_string())]);
    assert!(none.is_empty());
}

#[test]
fn walk_decisions() {
    assert!(is_skipped_dir("node_modules"));
    assert!(is_skipped_dir(".git"));
    assert!(is_skipped_dir(".bundle"));
    assert!(!is_skipped_dir("src"));
    let exts = vec!["js", "jsx", "ts"];
    assert!(has_source_extension("ts", &exts));
    assert!(!has_source_extension("rs", &exts));
}

#[test]
fn node_imports_count_scoped_packages_by_full_name() {
    let mut packages = vec![
        pkg("react", &["react"]),
        pkg("@babel/core", &["@babel/core"]),
        pkg("lodash", &["lodash"]),
        pkg("@babel/parser", &["@babel/parser"]),
    ];
    let files = vec![
        Some("import React from 'react';\nimport { transform } from '@babel/core';\n".to_string()),
        Some("const fp = require('lodash/fp');\nconst x = require('./local');\n".to_string()),
        Some("const m = await import(\"@babel/core/lib/x\");\n".to_string()),
    ];
    compute_usage(&mut packages, &NodeEcosystem.import_patterns(), &files);
    assert_eq!(usage(&packages), vec![(1, 3), (2, 3), (1, 3), (0, 3)]);
}

#[test]
fn captures_decide_which_packages_a_file_imports() {
    let packages = vec![
        pkg("requests", &["requests"]),
        pkg("Flask", &["flask"]),
        pkg("numpy", &["numpy"]),
        pkg("yaml-a", &["yaml"]),
        pkg("yaml-b", &["YAML"]),
    ];
    let captures = vec![
        vec![Some("Flask".to_string()), None],
        vec![Some("numpy/linalg".to_string()), Some("requestsx".to_string())],
        vec![],
        vec![Some("yaml".to_string())],
    ];
    assert_eq!(file_imports(&packages, &captures), vec![false, true, true, false, true]);
    assert_eq!(file_imports(&packages, &Vec::new()), vec![false; 5]);
    assert!(file_imports(&Vec::new(), &captures).is_empty());
}
