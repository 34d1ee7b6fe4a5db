use cart::lockfile::{CartLock, LockedPackage, LockedSource};
use cart::resolver::{ResolvedGraph, ResolvedPackage};

fn make_package(name: &str, version: &str, checksum: &str) -> ResolvedPackage {
    ResolvedPackage {
        name: name.to_string(),
        version: version.to_string(),
        source: LockedSource::Path {
            dir: format!("~/.carts/{name}"),
        },
        checksum: checksum.to_string(),
    }
}

#[test]
fn lockfile_is_fresh_when_matching() {
    let mut graph = ResolvedGraph::default();
    graph.packages.push(make_package("std", "0.1.0", "abc"));

    let mut lock = CartLock::new();
    lock.update_from_graph(&graph);

    assert!(lock.is_fresh(&graph));
}

#[test]
fn lockfile_is_stale_when_version_differs() {
    let mut graph = ResolvedGraph::default();
    graph.packages.push(make_package("std", "0.1.0", "abc"));

    let mut lock = CartLock::new();
    lock.package.push(LockedPackage {
        name: "std".to_string(),
        version: "0.2.0".to_string(),
        source: LockedSource::Path {
            dir: "~/.carts/std".to_string(),
        },
        checksum: "abc".to_string(),
    });

    assert!(!lock.is_fresh(&graph));
}

#[test]
fn lockfile_is_stale_when_package_missing() {
    let mut graph = ResolvedGraph::default();
    graph.packages.push(make_package("std", "0.1.0", "abc"));

    let lock = CartLock::new();

    assert!(!lock.is_fresh(&graph));
}

#[test]
fn lockfile_is_stale_when_checksum_differs() {
    let mut graph = ResolvedGraph::default();
    graph.packages.push(make_package("std", "0.1.0", "abc"));

    let mut lock = CartLock::new();
    lock.package.push(LockedPackage {
        name: "std".to_string(),
        version: "0.1.0".to_string(),
        source: LockedSource::Path {
            dir: "~/.carts/std".to_string(),
        },
        checksum: "different".to_string(),
    });

    assert!(!lock.is_fresh(&graph));
}

#[test]
fn lockfile_update_from_graph() {
    let mut graph = ResolvedGraph::default();
    graph.packages.push(make_package("std", "0.1.0", "abc"));
    graph
        .packages
        .push(make_package("nes-bank", "1.0.0", "def"));

    let mut lock = CartLock::new();
    lock.update_from_graph(&graph);

    assert_eq!(lock.package.len(), 2);
    assert_eq!(lock.package[0].name, "std");
    assert_eq!(lock.package[1].name, "nes-bank");
}

#[test]
fn lockfile_is_stale_when_source_differs() {
    let mut graph = ResolvedGraph::default();
    graph.packages.push(make_package("std", "0.1.0", "abc"));

    let mut lock = CartLock::new();
    lock.package.push(LockedPackage {
        name: "std".to_string(),
        version: "0.1.0".to_string(),
        source: LockedSource::Git {
            url: "https://example.org/std".to_string(),
            sha: "".to_string(),
        },
        checksum: "abc".to_string(),
    });

    assert!(!lock.is_fresh(&graph));
}

#[test]
fn lockfile_update_replaces_old_entries() {
    let mut graph = ResolvedGraph::default();
    graph.packages.push(make_package("std", "0.2.0", "new"));

    let mut lock = CartLock::default();
    lock.package.push(LockedPackage {
        name: "old".to_string(),
        version: "9.9.9".to_string(),
        source: LockedSource::Path { dir: "old".to_string() },
        checksum: "x".to_string(),
    });
    assert!(!lock.is_fresh(&graph));
    lock.update_from_graph(&graph);
    assert_eq!(lock.version, 1);
    assert_eq!(lock.package.len(), 1);
    assert_eq!(lock.package[0].version, "0.2.0");
    assert_eq!(lock.package[0].checksum, "new");
    assert!(lock.is_fresh(&graph));
}

#[test]
fn empty_lock_is_fresh_for_empty_graph() {
    let graph = ResolvedGraph::default();
    let lock = CartLock::new();
    assert!(lock.is_fresh(&graph));
}
