use stardust::installer::{concurrency_limit, install_key, Installer, Step};
use stardust::resolver::{RegistryDoc, VersionMeta};

fn pairs(v: &[(&str, &str)]) -> Vec<(String, String)> {
    v.iter().map(|(a, b)| (a.to_string(), b.to_string())).collect()
}

#[test]
fn key_joins_name_and_version() {
    assert_eq!(install_key("left-pad", "1.3.0"), "left-pad@1.3.0");
    assert_eq!(install_key("@scope/pkg", "2.0.0"), "@scope/pkg@2.0.0");
}

#[test]
fn limit_has_floor_of_four() {
    assert_eq!(concurrency_limit(Some(1)), 4);
    assert_eq!(concurrency_limit(Some(4)), 4);
    assert_eq!(concurrency_limit(Some(16)), 16);
    assert_eq!(concurrency_limit(None), 8);
}

#[test]
fn diamond_dependency_fetched_once() {
    let mut inst = Installer::new(4, pairs(&[("a", "^1"), ("b", "^1")]));
    let (a, _) = inst.next_task().unwrap();
    let (b, _) = inst.next_task().unwrap();
    assert_eq!((a.as_str(), b.as_str()), ("a", "b"));
    assert_eq!(inst.claim("a", "1.0.0", false), Step::Fetch);
    inst.finish(pairs(&[("c", "^2")]));
    assert_eq!(inst.claim("b", "1.0.0", false), Step::Fetch);
    inst.finish(pairs(&[("c", "2.1.0")]));
    let (c1, _) = inst.next_task().unwrap();
    let (c2, _) = inst.next_task().unwrap();
    assert_eq!((c1.as_str(), c2.as_str()), ("c", "c"));
    assert_eq!(inst.claim("c", "2.1.0", false), Step::Fetch);
    assert_eq!(inst.claim("c", "2.1.0", false), Step::Duplicate);
    inst.finish(vec![]);
    inst.finish(vec![]);
    assert!(inst.is_done());
}

#[test]
fn existing_destination_skips_fetch() {
    let mut inst = Installer::new(4, pairs(&[("a", "1.0.0")]));
    inst.next_task().unwrap();
    assert_eq!(inst.claim("a", "1.0.0", true), Step::AlreadyInstalled);
    inst.finish(pairs(&[("d", "^1")]));
    assert!(!inst.is_done());
    assert_eq!(inst.next_task(), Some(("d".to_string(), "^1".to_string())));
}

#[test]
fn in_flight_never_exceeds_limit() {
    let roots: Vec<(String, String)> = (0..10).map(|i| (format!("p{i}"), "^1".to_string())).collect();
    let mut inst = Installer::new(4, roots);
    for _ in 0..4 {
        assert!(inst.next_task().is_some());
    }
    assert_eq!(inst.next_task(), None);
    inst.abandon("p0".to_string(), "^1".to_string());
    assert!(inst.next_task().is_some());
    assert_eq!(inst.next_task(), None);
    assert!(inst.has_in_flight());
}

#[test]
fn failed_task_is_dropped_and_run_ends() {
    let mut inst = Installer::new(4, pairs(&[("a", "^1")]));
    let (name, spec) = inst.next_task().unwrap();
    inst.abandon(name, spec);
    assert!(inst.is_done());
    assert_eq!(inst.next_task(), None);
    assert_eq!(inst.failed(), &pairs(&[("a", "^1")]));
}

#[test]
fn empty_roots_are_done_at_once() {
    let inst = Installer::new(4, vec![]);
    assert!(inst.is_done());
}

fn registry(name: &str) -> RegistryDoc {
    let entry = |v: &str, deps: &[(&str, &str)]| {
        (v.to_string(), VersionMeta { tarball: format!("{name}-{v}.tgz"), dependencies: pairs(deps) })
    };
    let versions = match name {
        "a" => vec![entry("1.0.0", &[("c", "^1.0.0")])],
        "b" => vec![entry("1.0.0", &[("c", "~1.2")])],
        _ => vec![entry("1.2.0", &[]), entry("1.2.3", &[]), entry("2.0.0", &[])],
    };
    RegistryDoc { versions }
}

#[test]
fn diamond_run_fetches_each_version_once() {
    let mut inst = Installer::new(4, pairs(&[("a", "1.0.0"), ("b", "1.0.0")]));
    let mut fetched: Vec<String> = Vec::new();
    while !inst.is_done() {
        let (name, spec) = inst.next_task().unwrap();
        let rv = registry(&name).resolve(&name, &spec).unwrap();
        match inst.claim(&rv.name, &rv.version, false) {
            Step::Fetch => {
                fetched.push(install_key(&rv.name, &rv.version));
                inst.finish(rv.dependencies);
            }
            Step::AlreadyInstalled => inst.finish(rv.dependencies),
            Step::Duplicate => inst.finish(vec![]),
        }
    }
    assert_eq!(fetched, vec!["a@1.0.0", "b@1.0.0", "c@1.2.3"]);
    assert!(inst.failed().is_empty());
}
