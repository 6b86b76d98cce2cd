use pkgcheck::detect::{detect_ecosystems, supported_ecosystems};

fn files(names: &[&str]) -> Vec<String> {
    names.iter().map(|n| n.to_string()).collect()
}

#[test]
fn supported_ecosystems_and_their_manifests() {
    let table = supported_ecosystems();
    let names: Vec<&str> = table.iter().map(|(n, _)| *n).collect();
    assert_eq!(names, vec!["Node.js", "Python", "Rust", "Go", "Ruby"]);
    assert_eq!(table[1].1, vec!["requirements.txt", "pyproject.toml", "Pipfile"]);
    assert_eq!(table[4].1, vec!["Gemfile"]);
}

#[test]
fn present_ecosystems_are_named_in_check_order() {
    assert_eq!(detect_ecosystems(&files(&["Cargo.toml", "package.json"])), vec!["Node.js", "Rust"]);
    assert_eq!(
        detect_ecosystems(&files(&["Gemfile", "go.mod", "Pipfile", "README.md"])),
        vec!["Python", "Go", "Ruby"]
    );
    assert_eq!(detect_ecosystems(&files(&["pyproject.toml"])), vec!["Python"]);
    assert!(detect_ecosystems(&files(&["README.md", "cargo.toml"])).is_empty());
    assert!(detect_ecosystems(&Vec::new()).is_empty());
}
