use pkgcheck::ecosystems::go_lang::{
    installed_go_modules, last_segment, parse_go_mod, parse_require_line, GoEcosystem,
};
use pkgcheck::ecosystems::node::{declared_dependencies, read_installed_pkg, NodeEcosystem};
use pkgcheck::ecosystems::python::{
    batch_pip_descriptions, installed_pip_packages, normalize_name, parse_declared_deps,
    parse_pipfile, parse_pyproject_toml, parse_requirements_txt,
    select_manifest, PythonEcosystem, PythonManifest,
};
use pkgcheck::ecosystems::ruby::{
    extract_quoted, parse_gemfile, parse_gemfile_lock, parse_spec_line, RubyEcosystem,
};
use pkgcheck::ecosystems::rust_lang::{
    extract_version, parse_cargo_lock, RustEcosystem,
};
use pkgcheck::ecosystems::lookup_last;
use pkgcheck::toml_doc::TomlValue;
use pkgcheck::types::PackageStatus;

fn pairs(v: &[(&str, &str)]) -> Vec<(String, String)> {
    v.iter().map(|(a, b)| (a.to_string(), b.to_string())).collect()
}

// ---------------------------------------------------------------- Go

#[test]
fn go_require_lines() {
    assert_eq!(
        parse_require_line("github.com/foo/bar v1.2.3 // indirect"),
        Some(("github.com/foo/bar".to_string(), "v1.2.3".to_string()))
    );
    assert_eq!(parse_require_line("  golang.org/x/text v0.3.0  "), Some(("golang.org/x/text".to_string(), "v0.3.0".to_string())));
    assert_eq!(parse_require_line("// just a comment"), None);
    assert_eq!(parse_require_line("   "), None);
    assert_eq!(parse_require_line("lonely"), None);
    assert_eq!(parse_require_line("a//b v1"), None);
}

#[test]
fn go_mod_blocks_and_single_lines() {
    let go_mod = "module example.com/app\n\ngo 1.21\n\nrequire github.com/single/dep v0.1.0\n\nrequire (\n\tgithub.com/a/b v1.0.0\n\tgithub.com/c/d v2.3.4 // indirect\n\t// commented\n)\n\nreplace x => y\n";
    assert_eq!(
        parse_go_mod(go_mod),
        pairs(&[
            ("github.com/single/dep", "v0.1.0"),
            ("github.com/a/b", "v1.0.0"),
            ("github.com/c/d", "v2.3.4"),
        ])
    );
    assert!(parse_go_mod("module x\n").is_empty());
}

#[test]
fn go_list_output_is_decoded_lossily() {
    let out = b"example.com/app\ngithub.com/a/b v1.0.1\nbad\xff v9\n";
    assert_eq!(
        installed_go_modules(out),
        pairs(&[("github.com/a/b", "v1.0.1"), ("bad\u{fffd}", "v9")])
    );
}

#[test]
fn go_short_names_and_packages() {
    assert_eq!(last_segment("github.com/foo/bar"), "bar");
    assert_eq!(last_segment("plain"), "plain");
    assert_eq!(last_segment("trailing/"), "");
    let declared = pairs(&[("github.com/a/b", "v1.0.0"), ("github.com/c/d", "v2.0.0")]);
    let installed = pairs(&[("github.com/a/b", "v1.0.1")]);
    let p = GoEcosystem.check_packages(&declared, &installed);
    assert_eq!(p.len(), 2);
    assert_eq!(p[0].name, "b");
    assert_eq!(p[0].description, "github.com/a/b");
    assert_eq!(p[0].version, "v1.0.1");
    assert!(matches!(&p[0].status, PackageStatus::Installed { version } if version == "v1.0.1"));
    assert_eq!(p[0].import_aliases, vec!["github.com/a/b".to_string()]);
    assert_eq!(p[1].version, "v2.0.0");
    assert!(matches!(p[1].status, PackageStatus::Missing));
    assert_eq!(p[1].language, "Go");
}

// ---------------------------------------------------------------- Ruby

#[test]
fn ruby_quoted_strings() {
    assert_eq!(extract_quoted("'rails', '7.0'"), Some("rails".to_string()));
    assert_eq!(extract_quoted("\"pg\""), Some("pg".to_string()));
    assert_eq!(extract_quoted("'unclosed"), None);
    assert_eq!(extract_quoted("bare"), None);
    assert_eq!(extract_quoted(""), None);
    assert_eq!(extract_quoted("x 'bar' y"), Some("bar".to_string()));
    assert_eq!(extract_quoted("a \"it's\" b"), Some("it's".to_string()));
    assert_eq!(extract_quoted("no 'end"), None);
}

#[test]
fn ruby_gemfile_lines() {
    let gemfile = "source 'https://rubygems.org'\n# gem 'commented'\ngem 'rails', '~> 7.0'\ngem \"pg\"\n  gem 'puma', require: false\ngem 'rspec',   \"3.12\"\n";
    assert_eq!(
        parse_gemfile(gemfile),
        pairs(&[("rails", "~> 7.0"), ("pg", "*"), ("puma", "*"), ("rspec", "3.12")])
    );
}

#[test]
fn ruby_lock_specs() {
    let lock = "GEM\n  remote: https://rubygems.org/\n  specs:\n    rails (7.0.4)\n      actioncable (= 7.0.4)\n    pg (1.4.5)\n    bad )name(\n\nPLATFORMS\n  ruby\n    notaspec (1.0)\n";
    assert_eq!(parse_gemfile_lock(lock), pairs(&[("rails", "7.0.4"), ("pg", "1.4.5")]));
    assert_eq!(parse_spec_line("rails (7.0.4)"), Some(("rails".to_string(), "7.0.4".to_string())));
    assert_eq!(parse_spec_line("no brackets"), None);
    assert_eq!(parse_spec_line("odd ) order ("), None);
}

#[test]
fn ruby_packages() {
    let declared = pairs(&[("rails", "~> 7.0"), ("pg", "*")]);
    let locked = pairs(&[("rails", "7.0.3"), ("rails", "7.0.4")]);
    let p = RubyEcosystem.check_packages(&declared, &locked);
    assert_eq!(p[0].version, "7.0.4");
    assert_eq!(p[0].description, "N/A");
    assert!(matches!(p[1].status, PackageStatus::Missing));
    assert_eq!(p[1].version, "*");
}

// ---------------------------------------------------------------- Python

#[test]
fn python_names() {
    assert_eq!(normalize_name("Flask_SQLAlchemy.ext"), "flask-sqlalchemy-ext");
    assert_eq!(normalize_name("requests"), "requests");
    assert_eq!(normalize_name("Foo__Bar.baz"), "foo-bar-baz");
    assert_eq!(normalize_name("a-._b"), "a-b");
    assert_eq!(normalize_name("_lead.trail_"), "-lead-trail-");
    assert_eq!(normalize_name(""), "");
}

#[test]
fn python_requirements_txt() {
    let txt = "# comment\nflask==2.3.0\n\nrequests >= 2.28\n-r other.txt\nnumpy\nuvicorn[standard]>=0.20\n  ==1.0\n";
    assert_eq!(
        parse_requirements_txt(txt),
        pairs(&[
            ("flask", "==2.3.0"),
            ("requests", ">= 2.28"),
            ("numpy", "*"),
            ("uvicorn", "[standard]>=0.20"),
        ])
    );
    assert_eq!(parse_requirements_txt("requests~=2.28\n"), pairs(&[("requests", "~=2.28")]));
}

#[test]
fn python_pyproject_and_pipfile() {
    let pyproject = "[project]\nname = \"app\"\ndependencies = [\"httpx>=0.24\", \"rich\", 3, \"attrs~=23.1\"]\n";
    assert_eq!(parse_pyproject_toml(pyproject).unwrap(), pairs(&[("httpx", ">=0.24"), ("rich", "*"), ("attrs", "~=23.1")]));
    assert_eq!(parse_pyproject_toml("[tool]\nx = 1\n").unwrap(), Vec::new());
    assert!(parse_pyproject_toml("[project\n").is_err());
    let pipfile = "[packages]\nrequests = \"*\"\nflask = \">=2.0\"\ndjango = { version = \"4.2\" }\n";
    assert_eq!(
        parse_pipfile(pipfile).unwrap(),
        pairs(&[("django", "*"), ("flask", ">=2.0"), ("requests", "*")])
    );
    assert!(parse_pipfile("not = = toml").is_err());
}

#[test]
fn python_manifest_choice() {
    assert_eq!(select_manifest(true, true, true), Some(PythonManifest::RequirementsTxt));
    assert_eq!(select_manifest(false, true, true), Some(PythonManifest::PyprojectToml));
    assert_eq!(select_manifest(false, false, true), Some(PythonManifest::Pipfile));
    assert_eq!(select_manifest(false, false, false), None);
    assert_eq!(
        parse_declared_deps(PythonManifest::RequirementsTxt, "six\n").unwrap(),
        pairs(&[("six", "*")])
    );
    assert!(parse_declared_deps(PythonManifest::Pipfile, "[[").is_err());
}

#[test]
fn python_pip_output() {
    let list = br#"[{"name": "Flask", "version": "2.3.0"}, {"name": "typing_extensions", "version": "4.8.0"}, {"name": "noversion"}]"#;
    assert_eq!(
        installed_pip_packages(list.to_vec()),
        pairs(&[("flask", "2.3.0"), ("typing-extensions", "4.8.0")])
    );
    assert!(installed_pip_packages(b"{\"name\": \"x\"}".to_vec()).is_empty());
    assert!(installed_pip_packages(vec![0xff, 0xfe]).is_empty());
    assert!(installed_pip_packages(b"not json".to_vec()).is_empty());

    let show = b"Name: Flask\nVersion: 2.3.0\nSummary: A simple framework\n---\nName: empty_one\nSummary: \n";
    assert_eq!(batch_pip_descriptions(show), pairs(&[("flask", "A simple framework")]));
    assert!(batch_pip_descriptions(b"Summary: orphan\n").is_empty());
}

#[test]
fn python_packages() {
    let declared = pairs(&[("Flask", "==2.3.0"), ("python-dateutil", "*")]);
    let installed = pairs(&[("flask", "2.3.0")]);
    let descriptions = pairs(&[("flask", "A simple framework")]);
    let p = PythonEcosystem.check_packages(&declared, &installed, &descriptions);
    assert_eq!(p[0].name, "Flask");
    assert_eq!(p[0].version, "2.3.0");
    assert_eq!(p[0].description, "A simple framework");
    assert_eq!(p[0].import_aliases, vec!["flask".to_string()]);
    assert!(matches!(p[1].status, PackageStatus::Missing));
    assert_eq!(p[1].description, "N/A");
    assert_eq!(p[1].import_aliases, vec!["python_dateutil".to_string()]);
}

// ---------------------------------------------------------------- Rust

#[test]
fn rust_versions_and_manifest() {
    assert_eq!(extract_version(&TomlValue::Str("1.0".to_string())), "1.0");
    assert_eq!(extract_version(&TomlValue::Other), "*");
    let cargo = "[package]\nname = \"x\"\n\n[dependencies]\nserde = { version = \"1.0\", features = [\"derive\"] }\nserde-json = \"1\"\nlocal = { path = \"../local\" }\n\n[dev-dependencies]\nproptest = \"1.4\"\n\n[build-dependencies]\ncc = \"1\"\n";
    let locked = pairs(&[("serde", "1.0.197"), ("cc", "1.0.90")]);
    let p = RustEcosystem.check_packages(cargo, &locked).unwrap();
    let names: Vec<&str> = p.iter().map(|x| x.name.as_str()).collect();
    assert_eq!(names, vec!["local", "serde", "serde-json", "proptest", "cc"]);
    assert_eq!(p[0].version, "*");
    assert_eq!(p[1].version, "1.0.197");
    assert_eq!(p[2].version, "1");
    assert_eq!(p[2].import_aliases, vec!["serde_json".to_string()]);
    assert_eq!(p[4].version, "1.0.90");
    assert!(RustEcosystem.check_packages("[dependencies\n", &locked).is_err());
}

#[test]
fn rust_lock_file() {
    let lock = "version = 3\n\n[[package]]\nname = \"serde\"\nversion = \"1.0.197\"\n\n[[package]]\nname = \"odd\"\n";
    assert_eq!(parse_cargo_lock(lock), pairs(&[("serde", "1.0.197")]));
    assert!(parse_cargo_lock("[[[").is_empty());
}

// ---------------------------------------------------------------- Node

#[test]
fn node_manifest() {
    let pkg = r#"{"name": "app", "dependencies": {"react": "^18.2.0", "express": "4.18.2"}, "devDependencies": {"jest": {"odd": true}}}"#;
    assert_eq!(
        declared_dependencies(pkg).unwrap(),
        pairs(&[("express", "4.18.2"), ("react", "^18.2.0"), ("jest", "*")])
    );
    assert!(declared_dependencies("{ not json").is_err());
    assert!(declared_dependencies("[]").unwrap().is_empty());
}

#[test]
fn node_installed_packages() {
    let (s, v, d) = read_installed_pkg(Some(r#"{"version": "4.18.2", "description": "Fast web framework"}"#), "^4.0");
    assert!(matches!(s, PackageStatus::Installed { version } if version == "4.18.2"));
    assert_eq!(v, "4.18.2");
    assert_eq!(d, "Fast web framework");
    let (s, v, d) = read_installed_pkg(Some("{}"), "^4.0");
    assert!(matches!(s, PackageStatus::Installed { version } if version == "unknown"));
    assert_eq!((v.as_str(), d.as_str()), ("unknown", "N/A"));
    let (s, v, d) = read_installed_pkg(None, "^4.0");
    assert!(matches!(s, PackageStatus::Missing));
    assert_eq!((v.as_str(), d.as_str()), ("^4.0", "N/A"));
    let (s, _, _) = read_installed_pkg(Some("garbage"), "1");
    assert!(matches!(s, PackageStatus::Missing));

    let declared = pairs(&[("express", "^4.0"), ("left-pad", "1.0")]);
    let installed = vec![Some(r#"{"version": "4.18.2"}"#.to_string()), None];
    let p = NodeEcosystem.check_packages(&declared, &installed);
    assert_eq!(p[0].version, "4.18.2");
    assert_eq!(p[0].language, "Node.js");
    assert_eq!(p[1].version, "1.0");
    assert_eq!(p[1].import_aliases, vec!["left-pad".to_string()]);
}

// ---------------------------------------------------------------- shared

#[test]
fn lookup_takes_the_last_entry() {
    let entries = pairs(&[("a", "1"), ("b", "2"), ("a", "3")]);
    assert_eq!(lookup_last(&entries, &"a".to_string()), Some("3".to_string()));
    assert_eq!(lookup_last(&entries, &"c".to_string()), None);
}
