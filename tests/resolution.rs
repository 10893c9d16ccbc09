use stardust::resolver::{normalize_range, RegistryDoc, ResolveError, VersionMeta};

fn meta(tarball: &str, deps: &[(&str, &str)]) -> VersionMeta {
    VersionMeta {
        tarball: tarball.to_string(),
        dependencies: deps.iter().map(|(n, s)| (n.to_string(), s.to_string())).collect(),
    }
}

fn doc(versions: &[&str]) -> RegistryDoc {
    RegistryDoc {
        versions: versions
            .iter()
            .map(|v| (v.to_string(), meta(&format!("https://r.example/pkg-{v}.tgz"), &[])))
            .collect(),
    }
}

#[test]
fn range_picks_greatest_satisfying() {
    let d = doc(&["0.9.0", "1.0.0", "1.5.2", "2.0.0"]);
    let r = d.resolve("pkg", ">=1.0.0 <2.0.0").unwrap();
    assert_eq!(r.version, "1.5.2");
    assert_eq!(r.tarball, "https://r.example/pkg-1.5.2.tgz");
    assert_eq!(r.name, "pkg");
}

#[test]
fn comma_range_picks_greatest_satisfying() {
    let d = doc(&["0.9.0", "1.0.0", "1.5.2", "2.0.0"]);
    assert_eq!(d.select_version("pkg", ">=1.0.0, <2.0.0"), Ok(2));
}

#[test]
fn exact_spec_selects_listed_version() {
    let d = doc(&["1.0.0", "1.2.0", "1.9.9"]);
    assert_eq!(d.select_version("pkg", "1.0.0"), Ok(0));
}

#[test]
fn caret_range_selects_highest_compatible() {
    let d = doc(&["1.0.0", "1.9.9", "1.2.0", "2.1.0"]);
    let r = d.resolve("pkg", "^1.0.0").unwrap();
    assert_eq!(r.version, "1.9.9");
}

#[test]
fn exact_spec_not_parsed_as_range() {
    // A listed string that is no valid version or range is still selected.
    let d = doc(&["latest-tag", "1.0.0"]);
    assert_eq!(d.select_version("pkg", "latest-tag"), Ok(0));
}

#[test]
fn unparseable_versions_are_skipped() {
    let d = doc(&["not-a-version", "1.0.0", "1.1.0"]);
    assert_eq!(d.select_version("pkg", "*"), Ok(2));
}

#[test]
fn invalid_range_is_reported() {
    let d = doc(&["1.0.0"]);
    assert_eq!(
        d.resolve("pkg", "not a range!").unwrap_err(),
        ResolveError::InvalidRange { range: "not a range!".to_string() }
    );
}

#[test]
fn no_match_names_the_range() {
    let d = doc(&["1.0.0", "1.5.0"]);
    assert_eq!(
        d.resolve("pkg", ">=3.0.0").unwrap_err(),
        ResolveError::NoMatch { name: "pkg".to_string(), range: ">=3.0.0".to_string() }
    );
}

#[test]
fn empty_registry_has_no_match() {
    let d = doc(&[]);
    assert!(matches!(d.select_version("pkg", "^1"), Err(ResolveError::NoMatch { .. })));
}

#[test]
fn resolve_carries_dependencies() {
    let d = RegistryDoc {
        versions: vec![
            ("1.0.0".to_string(), meta("a", &[("x", "^1")])),
            ("1.1.0".to_string(), meta("b", &[("y", "~2.0"), ("z", "3.0.0")])),
        ],
    };
    let r = d.resolve("pkg", "^1").unwrap();
    assert_eq!(r.tarball, "b");
    assert_eq!(
        r.dependencies,
        vec![("y".to_string(), "~2.0".to_string()), ("z".to_string(), "3.0.0".to_string())]
    );
}

#[test]
fn duplicate_versions_are_detected() {
    assert!(doc(&["1.0.0", "1.1.0"]).has_unique_versions());
    assert!(!doc(&["1.0.0", "1.1.0", "1.0.0"]).has_unique_versions());
    assert!(doc(&[]).has_unique_versions());
}

#[test]
fn normalize_joins_comparators_with_commas() {
    assert_eq!(normalize_range(">=1.0.0 <2.0.0"), ">=1.0.0, <2.0.0");
    assert_eq!(normalize_range(">= 1.0.0"), ">= 1.0.0");
    assert_eq!(normalize_range("^1.2.3"), "^1.2.3");
    assert_eq!(normalize_range(">=1.0.0, <2"), ">=1.0.0, <2");
    assert_eq!(normalize_range(""), "");
}
