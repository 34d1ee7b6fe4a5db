//! `Cart.lock` lockfile types.
//!
//! The lockfile records the exact version and source of each dependency in
//! the resolved graph. The `cart build` command writes it when it is absent
//! and reads it when it is present.

use vstd::prelude::*;
use crate::resolver::{ResolvedGraph, ResolvedPackage};
use crate::text::same_text;

verus! {

/// The root `Cart.lock` lockfile.
#[derive(Debug)]
pub struct CartLock {
    pub version: u32,
    pub package: Vec<LockedPackage>,
}

/// A single locked package entry.
#[derive(Debug)]
pub struct LockedPackage {
    pub name: String,
    pub version: String,
    pub source: LockedSource,
    pub checksum: String,
}

/// The source of a locked package.
#[derive(Debug)]
pub enum LockedSource {
    Git { url: String, sha: String },
    Path { dir: String },
}

/// The current lockfile format version.
pub const LOCK_FORMAT_VERSION: u32 = 1;

/// Two sources name the same place.
pub open spec fn same_source(a: LockedSource, b: LockedSource) -> bool {
    match (a, b) {
        (LockedSource::Git { url: u1, sha: s1 }, LockedSource::Git { url: u2, sha: s2 }) => u1@
            == u2@ && s1@ == s2@,
        (LockedSource::Path { dir: d1 }, LockedSource::Path { dir: d2 }) => d1@ == d2@,
        _ => false,
    }
}

/// Whether two sources name the same place.
pub fn sources_equal(a: &LockedSource, b: &LockedSource) -> (r: bool)
    ensures
        r == same_source(*a, *b),
{
    match (a, b) {
        (LockedSource::Git { url: u1, sha: s1 }, LockedSource::Git { url: u2, sha: s2 }) => {
            same_text(u1.as_str(), u2.as_str()) && same_text(s1.as_str(), s2.as_str())
        },
        (LockedSource::Path { dir: d1 }, LockedSource::Path { dir: d2 }) => same_text(
            d1.as_str(),
            d2.as_str(),
        ),
        _ => false,
    }
}

/// A copy of a source.
pub fn clone_source(s: &LockedSource) -> (r: LockedSource)
    ensures
        same_source(r, *s),
        r is Git <==> s is Git,
{
    match s {
        LockedSource::Git { url, sha } => LockedSource::Git { url: url.clone(), sha: sha.clone() },
        LockedSource::Path { dir } => LockedSource::Path { dir: dir.clone() },
    }
}

/// The index of the last entry named `name`: the one a name-keyed map
/// built from the entries in order keeps.
pub open spec fn last_named(pkgs: Seq<LockedPackage>, name: Seq<char>) -> Option<int> {
    if exists|i: int| 0 <= i < pkgs.len() && pkgs[i].name@ == name {
        Some(
            choose|i: int|
                0 <= i < pkgs.len() && pkgs[i].name@ == name && forall|j: int|
                    i < j < pkgs.len() ==> pkgs[j].name@ != name,
        )
    } else {
        None
    }
}

/// A lock entry records a resolved package: same version, source and
/// checksum.
pub open spec fn entry_records(lp: LockedPackage, pkg: ResolvedPackage) -> bool {
    &&& lp.version@ == pkg.version@
    &&& same_source(lp.source, pkg.source)
    &&& lp.checksum@ == pkg.checksum@
}

/// A lock entry is the resolved package, field by field.
pub open spec fn entry_is(lp: LockedPackage, pkg: ResolvedPackage) -> bool {
    lp.name@ == pkg.name@ && entry_records(lp, pkg)
}

impl CartLock {
    /// The lockfile is fresh for a graph when every package in the graph
    /// has an entry with its name, and the entry that the lockfile holds
    /// for that name records the same version, source and checksum.
    pub open spec fn fresh_for(self, graph: ResolvedGraph) -> bool {
        forall|i: int|
            0 <= i < graph.packages@.len() ==> match last_named(
                self.package@,
                (#[trigger] graph.packages@[i]).name@,
            ) {
                Some(j) => entry_records(self.package@[j], graph.packages@[i]),
                None => false,
            }
    }

    /// Create a new empty lockfile with the current format version.
    pub fn new() -> (r: Self)
        ensures
            r.version == LOCK_FORMAT_VERSION,
            r.package@.len() == 0,
    {
        CartLock { version: LOCK_FORMAT_VERSION, package: Vec::new() }
    }

    /// The default lockfile: an empty one with the current format version.
    pub fn default() -> (r: Self)
        ensures
            r.version == LOCK_FORMAT_VERSION,
            r.package@.len() == 0,
    {
        Self::new()
    }

    /// The entry that the lockfile holds for `name`: the last one with that
    /// name.
    fn find_last(&self, name: &str) -> (r: Option<usize>)
        ensures
            match r {
                Some(j) => j < self.package@.len() && last_named(self.package@, name@) == Some(
                    j as int,
                ),
                None => last_named(self.package@, name@) is None,
            },
    {
        let mut i: usize = self.package.len();
        while i > 0
            invariant
                i <= self.package@.len(),
                forall|j: int| i <= j < self.package@.len() ==> self.package@[j].name@ != name@,
            decreases i,
        {
            i = i - 1;
            if same_text(self.package[i].name.as_str(), name) {
                proof {
                    let k = choose|k: int|
                        0 <= k < self.package@.len() && self.package@[k].name@ == name@
                            && forall|j: int|
                            k < j < self.package@.len() ==> self.package@[j].name@ != name@;
                    assert(forall|j: int|
                        i < j < self.package@.len() ==> self.package@[j].name@ != name@);
                    if k < i {
                        assert(self.package@[i as int].name@ == name@);
                    }
                }
                return Some(i);
            }
        }
        None
    }

    /// Check if the lockfile is fresh relative to a resolved graph. The
    /// lockfile is fresh when every package in the graph has a matching
    /// entry in the lockfile with the same version, source, and checksum.
    pub fn is_fresh(&self, graph: &ResolvedGraph) -> (r: bool)
        ensures
            r == self.fresh_for(*graph),
    {
        let mut i: usize = 0;
        while i < graph.packages.len()
            invariant
                i <= graph.packages@.len(),
                forall|k: int|
                    0 <= k < i ==> match last_named(
                        self.package@,
                        (#[trigger] graph.packages@[k]).name@,
                    ) {
                        Some(j) => entry_records(self.package@[j], graph.packages@[k]),
                        None => false,
                    },
            decreases graph.packages@.len() - i,
        {
            let pkg = &graph.packages[i];
            match self.find_last(pkg.name.as_str()) {
                Some(j) => {
                    let lp = &self.package[j];
                    if !same_text(lp.version.as_str(), pkg.version.as_str()) || !sources_equal(
                        &lp.source,
                        &pkg.source,
                    ) || !same_text(lp.checksum.as_str(), pkg.checksum.as_str()) {
                        assert(graph.packages@[i as int] == *pkg);
                        return false;
                    }
                },
                None => {
                    assert(graph.packages@[i as int] == *pkg);
                    return false;
                },
            }
            i = i + 1;
        }
        true
    }

    /// Update the lockfile from a resolved graph: one entry per package, in
    /// graph order.
    pub fn update_from_graph(&mut self, graph: &ResolvedGraph)
        ensures
            final(self).version == old(self).version,
            final(self).package@.len() == graph.packages@.len(),
            forall|i: int|
                0 <= i < graph.packages@.len() ==> entry_is(
                    #[trigger] final(self).package@[i],
                    graph.packages@[i],
                ),
    {
        let mut package: Vec<LockedPackage> = Vec::new();
        let mut i: usize = 0;
        while i < graph.packages.len()
            invariant
                i <= graph.packages@.len(),
                package@.len() == i,
                forall|k: int| 0 <= k < i ==> entry_is(#[trigger] package@[k], graph.packages@[k]),
            decreases graph.packages@.len() - i,
        {
            let pkg = &graph.packages[i];
            package.push(
                LockedPackage {
                    name: pkg.name.clone(),
                    version: pkg.version.clone(),
                    source: clone_source(&pkg.source),
                    checksum: pkg.checksum.clone(),
                },
            );
            i = i + 1;
        }
        self.package = package;
    }
}

/// Names that occur at most once in a graph.
pub open spec fn names_distinct(graph: ResolvedGraph) -> bool {
    forall|i: int, j: int|
        0 <= i < j < graph.packages@.len() ==> (#[trigger] graph.packages@[i]).name@
            != (#[trigger] graph.packages@[j]).name@
}

/// A lockfile updated from a graph whose package names are distinct is
/// fresh for that graph: writing the lock and checking it at once never
/// reports it out of date.
pub proof fn lemma_updated_lock_is_fresh(lock: CartLock, graph: ResolvedGraph)
    requires
        names_distinct(graph),
        lock.package@.len() == graph.packages@.len(),
        forall|i: int| 0 <= i < graph.packages@.len() ==> entry_is(#[trigger] lock.package@[i], graph.packages@[i]),
    ensures
        lock.fresh_for(graph),
{
    assert forall|i: int| 0 <= i < graph.packages@.len() implies match last_named(
        lock.package@,
        (#[trigger] graph.packages@[i]).name@,
    ) {
        Some(j) => entry_records(lock.package@[j], graph.packages@[i]),
        None => false,
    } by {
        let name = graph.packages@[i].name@;
        assert(entry_is(lock.package@[i], graph.packages@[i]));
        assert(lock.package@[i].name@ == name);
        let j = last_named(lock.package@, name)->0;
        if j != i {
            assert(entry_is(lock.package@[j], graph.packages@[j]));
            if j < i {
                assert(graph.packages@[j].name@ != graph.packages@[i].name@);
            } else {
                assert(graph.packages@[i].name@ != graph.packages@[j].name@);
            }
        }
    }
}

} // verus!
