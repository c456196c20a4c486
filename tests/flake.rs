use std::collections::HashMap;

use nixpkgs_hashes::fetchers::is_false;
use nixpkgs_hashes::flake::{FlakeLock, FlakeRef, InputNode, InputNodeRef, LockedInput};

fn names(v: &[&str]) -> Vec<String> {
    v.iter().map(|s| s.to_string()).collect()
}

fn node(inputs: &[(&str, InputNodeRef)]) -> InputNode {
    InputNode {
        flake: true,
        inputs: Some(inputs.iter().map(|(k, r)| (k.to_string(), r.clone())).collect()),
        locked: None,
        original: None,
    }
}

fn sample_lock() -> FlakeLock {
    let pinned = InputNode {
        flake: true,
        inputs: None,
        locked: Some(LockedInput {
            last_modified: 1700000000,
            nar_hash: "sha256-AAAA".to_string(),
            flake_ref: FlakeRef::Github {
                owner: "NixOS".to_string(),
                repo: "nixpkgs".to_string(),
                git_ref: None,
                rev: Some("abc".to_string()),
                dir: None,
            },
        }),
        original: Some(FlakeRef::Indirect { id: "nixpkgs".to_string(), rev: None }),
    };
    let mut nodes = HashMap::new();
    nodes.insert(
        "root".to_string(),
        node(&[
            ("nixpkgs", InputNodeRef::Name("nixpkgs_1".to_string())),
            ("utils", InputNodeRef::Name("utils".to_string())),
            ("follower", InputNodeRef::Follows(names(&["utils", "nixpkgs"]))),
            ("nowhere", InputNodeRef::Follows(vec![])),
            ("loop", InputNodeRef::Follows(names(&["loop"]))),
        ]),
    );
    nodes.insert("utils".to_string(), node(&[("nixpkgs", InputNodeRef::Follows(names(&["nixpkgs"])))]));
    nodes.insert("nixpkgs_1".to_string(), pinned);
    FlakeLock { nodes, root: "root".to_string(), version: 7 }
}

#[test]
fn root_input_by_name() {
    let lock = sample_lock();
    let n = lock.get_root_input("nixpkgs").unwrap();
    assert_eq!(n.locked.as_ref().unwrap().last_modified, 1700000000);
    assert!(lock.get_root_input("absent").is_none());
}

#[test]
fn follows_paths_resolve_through_nodes() {
    let lock = sample_lock();
    let n = lock.get_root_input("follower").unwrap();
    assert_eq!(n, lock.nodes.get("nixpkgs_1").unwrap());
    let direct = lock.get_input_by_ref(&InputNodeRef::Follows(names(&["utils", "nixpkgs"]))).unwrap();
    assert_eq!(direct, n);
}

#[test]
fn empty_and_cyclic_follows_resolve_to_nothing() {
    let lock = sample_lock();
    assert!(lock.get_root_input("nowhere").is_none());
    assert!(lock.get_root_input("loop").is_none());
    assert!(lock.get_input_by_ref(&InputNodeRef::Name("missing".to_string())).is_none());
}

#[test]
fn unset_flags() {
    assert!(is_false(&false));
    assert!(!is_false(&true));
}

#[test]
fn long_acyclic_follows_chain_resolves() {
    let depth = 1100;
    let mut inputs = HashMap::new();
    inputs.insert("a0".to_string(), InputNodeRef::Name("x".to_string()));
    for i in 1..=depth {
        inputs.insert(format!("a{i}"), InputNodeRef::Follows(vec![format!("a{}", i - 1)]));
    }
    let mut nodes = HashMap::new();
    nodes.insert("root".to_string(), InputNode { flake: true, inputs: Some(inputs), locked: None, original: None });
    nodes.insert("x".to_string(), InputNode { flake: false, ..InputNode::default() });
    let lock = FlakeLock { nodes, root: "root".to_string(), version: 7 };
    let found = lock.get_root_input(&format!("a{depth}")).unwrap();
    assert_eq!(found, lock.nodes.get("x").unwrap());
}
