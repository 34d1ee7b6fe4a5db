//! Dependency resolver.
//!
//! The resolver walks the dependency graph depth first. It reads each lib
//! `Cart.toml`, matches version requirements, detects cycles, and builds a
//! resolved graph with checksums.
//!
//! Reading a lib from disk (and cloning it first when it is missing) is the
//! caller's part: `resolve` and `Resolver::handle` answer each step with a
//! [`ResolveAction`]; the caller performs a `Load` and hands back what it
//! found as a [`ResolveEvent`], until the resolver answers `Done` or `Fail`.

use vstd::prelude::*;
use crate::diagnostics::codes;
use crate::error::{error_text, CartError};
use crate::lockfile::{entry_is, lemma_updated_lock_is_fresh, CartLock, LockedSource};
use crate::manifest::{clone_opt, opt_chars, CartManifest, Dependency};
use crate::namemap::{lookup, names_ascending, NameMap};
use crate::text::{join_path, join_path_spec, owned, push_str, same_text};

verus! {

/// A resolved package in the dependency graph.
#[derive(Debug)]
pub struct ResolvedPackage {
    pub name: String,
    pub version: String,
    pub source: LockedSource,
    pub checksum: String,
}

/// The resolved dependency graph.
#[derive(Debug)]
pub struct ResolvedGraph {
    pub packages: Vec<ResolvedPackage>,
}

impl ResolvedGraph {
    /// Whether a package named `name` is in the graph.
    pub open spec fn has_package(self, name: Seq<char>) -> bool {
        exists|k: int| 0 <= k < self.packages@.len() && (#[trigger] self.packages@[k]).name@ == name
    }

    /// The graph holds a package of the dependency's name whose version
    /// meets the dependency's requirement.
    pub open spec fn satisfies(self, d: DepRef) -> bool {
        exists|k: int|
            0 <= k < self.packages@.len() && (#[trigger] self.packages@[k]).name@ == d.name@ && match opt_chars(
                d.req,
            ) {
                Some(q) => requirement_met(q, self.packages@[k].version@),
                None => true,
            }
    }

    /// An empty graph.
    pub fn new() -> (r: Self)
        ensures
            r.packages@.len() == 0,
    {
        ResolvedGraph { packages: Vec::new() }
    }

    /// The default graph: an empty one.
    pub fn default() -> (r: Self)
        ensures
            r.packages@.len() == 0,
    {
        Self::new()
    }
}

// ---------------------------------------------------------------------------
// Version requirements (semver)

/// Whether semver's `VersionReq::parse` accepts the text.
pub uninterp spec fn semver_req_parses(req: Seq<char>) -> bool;

/// Whether semver's `Version::parse` accepts the text.
pub uninterp spec fn semver_version_parses(version: Seq<char>) -> bool;

/// Whether semver's `VersionReq::matches` holds for the parsed requirement
/// and version.
pub uninterp spec fn semver_matches(req: Seq<char>, version: Seq<char>) -> bool;

/// What checking a version against a requirement gave.
#[derive(Debug)]
pub enum VersionCheck {
    /// The requirement does not parse; semver's message.
    InvalidRequirement(String),
    /// The version does not parse; semver's message.
    InvalidVersion(String),
    /// Both parse; whether the version satisfies the requirement.
    Checked(bool),
}

/// Checks `version` against the requirement `req` with the semver crate:
/// `VersionReq::parse(req)`, then `Version::parse(version)`, then
/// `VersionReq::matches`. The contract claims only that each step's result
/// is a function of its text (named by `semver_req_parses`,
/// `semver_version_parses` and `semver_matches`); the wording of semver's
/// error messages is left unsaid.
#[verifier::external_body]
fn check_version(req: &str, version: &str) -> (r: VersionCheck)
    ensures
        match r {
            VersionCheck::InvalidRequirement(_) => !semver_req_parses(req@),
            VersionCheck::InvalidVersion(_) => semver_req_parses(req@) && !semver_version_parses(
                version@,
            ),
            VersionCheck::Checked(b) => semver_req_parses(req@) && semver_version_parses(version@)
                && b == semver_matches(req@, version@),
        },
{
    let parsed_req = match semver::VersionReq::parse(req) {
        Ok(r) => r,
        Err(e) => return VersionCheck::InvalidRequirement(e.to_string()),
    };
    let parsed_version = match semver::Version::parse(version) {
        Ok(v) => v,
        Err(e) => return VersionCheck::InvalidVersion(e.to_string()),
    };
    VersionCheck::Checked(parsed_req.matches(&parsed_version))
}

/// The text of the error for a requirement that does not parse.
pub open spec fn bad_requirement_text(req: Seq<char>, detail: Seq<char>) -> Seq<char> {
    "invalid version requirement '"@ + req + "': "@ + detail
}

/// The text of the error for a lib version that does not parse.
pub open spec fn bad_version_text(name: Seq<char>, version: Seq<char>, detail: Seq<char>) -> Seq<
    char,
> {
    "lib '"@ + name + "' has invalid version '"@ + version + "': "@ + detail
}

/// The text of the error for a lib version outside the requirement.
pub open spec fn unsatisfied_text(name: Seq<char>, version: Seq<char>, req: Seq<char>) -> Seq<
    char,
> {
    "lib '"@ + name + "' version '"@ + version + "' does not satisfy requirement '"@ + req + "'"@
}

/// Decides, from what checking lib `name`'s `version` against `req` gave,
/// whether resolution goes on: only a version that satisfies the
/// requirement passes; everything else is error E504.
pub fn requirement_outcome(name: &str, req: &str, version: &str, check: VersionCheck) -> (r:
    Result<(), CartError>)
    ensures
        match check {
            VersionCheck::InvalidRequirement(e) => r matches Err(err) && err.code
                == codes::DEP_RESOLUTION && err.message@ == error_text(
                codes::DEP_RESOLUTION,
                bad_requirement_text(req@, e@),
            ),
            VersionCheck::InvalidVersion(e) => r matches Err(err) && err.code
                == codes::DEP_RESOLUTION && err.message@ == error_text(
                codes::DEP_RESOLUTION,
                bad_version_text(name@, version@, e@),
            ),
            VersionCheck::Checked(true) => r is Ok,
            VersionCheck::Checked(false) => r matches Err(err) && err.code
                == codes::DEP_RESOLUTION && err.message@ == error_text(
                codes::DEP_RESOLUTION,
                unsatisfied_text(name@, version@, req@),
            ),
        },
{
    match check {
        VersionCheck::InvalidRequirement(e) => {
            let mut t = owned("invalid version requirement '");
            push_str(&mut t, req);
            push_str(&mut t, "': ");
            push_str(&mut t, e.as_str());
            Err(CartError::new(codes::DEP_RESOLUTION, t.as_str()))
        },
        VersionCheck::InvalidVersion(e) => {
            let mut t = owned("lib '");
            push_str(&mut t, name);
            push_str(&mut t, "' has invalid version '");
            push_str(&mut t, version);
            push_str(&mut t, "': ");
            push_str(&mut t, e.as_str());
            Err(CartError::new(codes::DEP_RESOLUTION, t.as_str()))
        },
        VersionCheck::Checked(true) => Ok(()),
        VersionCheck::Checked(false) => {
            let mut t = owned("lib '");
            push_str(&mut t, name);
            push_str(&mut t, "' version '");
            push_str(&mut t, version);
            push_str(&mut t, "' does not satisfy requirement '");
            push_str(&mut t, req);
            push_str(&mut t, "'");
            Err(CartError::new(codes::DEP_RESOLUTION, t.as_str()))
        },
    }
}

/// The E504 that checking lib `name`'s `version` against `req` fails
/// with: it names the requirement when that does not parse, else the
/// version when that does not parse (each followed by semver's message),
/// else both when the version does not satisfy the requirement.
pub open spec fn requirement_error(name: Seq<char>, req: Seq<char>, version: Seq<char>, e: CartError) -> bool {
    &&& e.code == codes::DEP_RESOLUTION
    &&& if !semver_req_parses(req) {
        exists|d: Seq<char>| e.message@ == error_text(codes::DEP_RESOLUTION, #[trigger] bad_requirement_text(req, d))
    } else if !semver_version_parses(version) {
        exists|d: Seq<char>|
            e.message@ == error_text(codes::DEP_RESOLUTION, #[trigger] bad_version_text(name, version, d))
    } else {
        e.message@ == error_text(codes::DEP_RESOLUTION, unsatisfied_text(name, version, req))
    }
}

/// Whether `version` satisfies `req`, both parsing.
pub open spec fn requirement_met(req: Seq<char>, version: Seq<char>) -> bool {
    semver_req_parses(req) && semver_version_parses(version) && semver_matches(req, version)
}

/// Checks lib `name`'s `version` against `req` (see `requirement_error`).
pub fn check_requirement(name: &str, req: &str, version: &str) -> (r: Result<(), CartError>)
    ensures
        r is Ok <==> requirement_met(req@, version@),
        r matches Err(e) ==> requirement_error(name@, req@, version@, e),
{
    let check = check_version(req, version);
    let ghost detail = match &check {
        VersionCheck::InvalidRequirement(e) => e@,
        VersionCheck::InvalidVersion(e) => e@,
        VersionCheck::Checked(_) => Seq::<char>::empty(),
    };
    let r = requirement_outcome(name, req, version, check);
    proof {
        if !semver_req_parses(req@) {
            assert(bad_requirement_text(req@, detail) == bad_requirement_text(req@, detail));
        } else if !semver_version_parses(version@) {
            assert(bad_version_text(name@, version@, detail) == bad_version_text(name@, version@, detail));
        }
    }
    r
}

// ---------------------------------------------------------------------------
// Where a dependency lives

/// A dependency as the resolver walks it: its name and the fields that
/// decide where it lives and which versions it accepts.
#[derive(Debug)]
pub struct DepRef {
    pub name: String,
    pub req: Option<String>,
    pub git: Option<String>,
    pub path: Option<String>,
}

/// A `DepRef` describes dependency `d` named `name`.
pub open spec fn describes(r: DepRef, name: Seq<char>, d: Dependency) -> bool {
    &&& r.name@ == name
    &&& opt_chars(r.req) == d.version_req_spec()
    &&& opt_chars(r.git) == d.git_spec()
    &&& opt_chars(r.path) == d.path_spec()
}

/// The `DepRef` of a dependency.
pub fn dep_ref(name: &str, d: &Dependency) -> (r: DepRef)
    ensures
        describes(r, name@, *d),
{
    match d {
        Dependency::Simple(v) => DepRef { name: owned(name), req: Some(v.clone()), git: None, path: None },
        Dependency::Detailed(x) => DepRef {
            name: owned(name),
            req: clone_opt(&x.version),
            git: clone_opt(&x.git),
            path: clone_opt(&x.path),
        },
    }
}

/// Where a dependency's lib lives.
#[derive(Debug)]
pub enum DepSource {
    /// A path dependency: the lib is at `dir`, with no git operations.
    Path { dir: String },
    /// A git dependency: the lib is at `dir` in the carts directory, cloned
    /// from `url` when it is missing.
    Git { dir: String, url: String },
}

/// The text of the error for a dependency with neither `git` nor `path`.
pub open spec fn no_source_text(name: Seq<char>) -> Seq<char> {
    "dependency '"@ + name + "' must specify `git` or `path`"@
}

/// Where a dependency lives: a `path` is used as is; a `git` dependency
/// lives in `<carts_dir>/<name>`; any other dependency (a version-only
/// one) is refused with E504.
pub open spec fn source_ok(name: Seq<char>, path: Option<Seq<char>>, git: Option<Seq<char>>, carts_dir: Seq<char>, r: DepSource) -> bool {
    match path {
        Some(p) => r matches DepSource::Path { dir } && dir@ == p,
        None => match git {
            Some(u) => r matches DepSource::Git { dir, url } && dir@ == join_path_spec(
                carts_dir,
                name,
            ) && url@ == u,
            None => false,
        },
    }
}

fn locate(dep: &DepRef, carts_dir: &str) -> (r: Result<DepSource, CartError>)
    ensures
        match r {
            Ok(s) => source_ok(dep.name@, opt_chars(dep.path), opt_chars(dep.git), carts_dir@, s),
            Err(e) => dep.path is None && dep.git is None && e.code == codes::DEP_RESOLUTION
                && e.message@ == error_text(codes::DEP_RESOLUTION, no_source_text(dep.name@)),
        },
{
    if let Some(p) = &dep.path {
        return Ok(DepSource::Path { dir: p.clone() });
    }
    if let Some(u) = &dep.git {
        return Ok(DepSource::Git { dir: join_path(carts_dir, dep.name.as_str()), url: u.clone() });
    }
    let mut t = owned("dependency '");
    push_str(&mut t, dep.name.as_str());
    push_str(&mut t, "' must specify `git` or `path`");
    Err(CartError::new(codes::DEP_RESOLUTION, t.as_str()))
}

/// Resolve where dependency `dep` named `name` lives (see `source_ok`).
pub fn resolve_source_path(name: &str, dep: &Dependency, carts_dir: &str) -> (r: Result<
    DepSource,
    CartError,
>)
    ensures
        match r {
            Ok(s) => source_ok(name@, dep.path_spec(), dep.git_spec(), carts_dir@, s),
            Err(e) => dep.path_spec() is None && dep.git_spec() is None && e.code
                == codes::DEP_RESOLUTION && e.message@ == error_text(
                codes::DEP_RESOLUTION,
                no_source_text(name@),
            ),
        },
{
    let d = dep_ref(name, dep);
    locate(&d, carts_dir)
}

} // verus!

verus! {

// ---------------------------------------------------------------------------
// The walk

/// A copy of a `DepRef`.
pub fn clone_dep_ref(d: &DepRef) -> (r: DepRef)
    ensures
        r.name@ == d.name@,
        opt_chars(r.req) == opt_chars(d.req),
        opt_chars(r.git) == opt_chars(d.git),
        opt_chars(r.path) == opt_chars(d.path),
{
    DepRef {
        name: d.name.clone(),
        req: clone_opt(&d.req),
        git: clone_opt(&d.git),
        path: clone_opt(&d.path),
    }
}

/// Two `DepRef`s hold the same dependency.
pub open spec fn same_dep(a: DepRef, b: DepRef) -> bool {
    &&& a.name@ == b.name@
    &&& opt_chars(a.req) == opt_chars(b.req)
    &&& opt_chars(a.git) == opt_chars(b.git)
    &&& opt_chars(a.path) == opt_chars(b.path)
}

/// One lib whose dependencies are being walked: the project itself
/// (`owner` is `None`) or a resolved lib. `deps[..next]` have been taken.
#[derive(Debug)]
pub struct Frame {
    pub owner: Option<String>,
    pub deps: Vec<DepRef>,
    pub next: usize,
}

/// The dependency the resolver waits on: the caller loads its lib.
#[derive(Debug)]
pub struct Pending {
    pub dep: DepRef,
    pub source: DepSource,
}

/// What the caller is to do next.
#[derive(Debug)]
pub enum ResolveAction {
    /// Make sure lib `name` is at `dir` (cloning it from `clone_url` when
    /// the directory is missing and a URL is given), then read
    /// `dir/Cart.toml`, compute the checksum of `dir` and, for a git lib,
    /// read the commit its clone has checked out; answer with a
    /// `ResolveEvent`.
    Load { name: String, dir: String, clone_url: Option<String> },
    /// The walk is complete: take the graph with `Resolver::finish`.
    Done,
    /// Resolution failed.
    Fail(CartError),
}

/// What the caller found when it performed a `Load`.
#[derive(Debug)]
pub enum ResolveEvent {
    /// The lib's manifest, the checksum of its source tree, and, for a
    /// git lib, the commit its clone has checked out (a path lib records
    /// no commit, so the text is not used).
    Loaded { manifest: CartManifest, checksum: String, commit: String },
    /// The directory has no `Cart.toml`.
    NotInstalled,
    /// Cloning, reading or parsing failed.
    Failed(CartError),
}

/// The state of a resolution.
pub struct Resolver {
    pub carts_dir: String,
    /// The libs being walked, the project at the bottom.
    pub frames: Vec<Frame>,
    /// The names of the resolved packages, in order.
    pub seen: Vec<String>,
    pub graph: ResolvedGraph,
    pub pending: Option<Pending>,
    /// The requirement each resolved package was checked against.
    pub reqs: Ghost<Seq<Option<Seq<char>>>>,
    /// The dependencies of each resolved package, as its manifest lists
    /// them.
    pub lib_deps: Ghost<Seq<Seq<DepRef>>>,
}

/// The work left in a stack of frames: dependencies not yet taken, plus
/// one per frame.
pub open spec fn work(s: Seq<Frame>) -> nat
    decreases s.len(),
{
    if s.len() == 0 {
        0
    } else {
        work(s.drop_last()) + (s.last().deps@.len() - s.last().next) as nat + 1
    }
}

/// The text of the error for a dependency cycle.
pub open spec fn cycle_text(name: Seq<char>) -> Seq<char> {
    "dependency cycle detected at lib '"@ + name + "'"@
}

/// The text of the error for a lib directory without `Cart.toml`.
pub open spec fn not_installed_text(name: Seq<char>, carts_dir: Seq<char>) -> Seq<char> {
    "lib '"@ + name + "' not installed in "@ + carts_dir
}

/// The locked source a resolved package records for where it was found:
/// the path of a path lib, the URL and checked-out commit of a git lib.
pub open spec fn locked_source_for(p: Pending, s: LockedSource, commit: Seq<char>) -> bool {
    match p.source {
        DepSource::Path { dir } => s matches LockedSource::Path { dir: d } && d@ == dir@,
        DepSource::Git { dir: _, url } => s matches LockedSource::Git { url: u, sha } && u@ == url@
            && sha@ == commit,
    }
}

/// The dependency the top frame took last.
pub open spec fn last_taken(r: Resolver) -> DepRef {
    let top = r.frames@.last();
    top.deps@[top.next - 1]
}

/// How a resolution fails: at the dependency the top frame took last,
/// with a cycle error when a lib of that name is being walked; else, when
/// a lib of that name is already resolved, with E504 because its version
/// does not meet the dependency's requirement; else with E504 because the
/// dependency names neither `git` nor `path`.
pub open spec fn failure_ok(r: Resolver, e: CartError) -> bool {
    let top = r.frames@.last();
    let d = top.deps@[top.next - 1];
    &&& r.frames@.len() >= 1
    &&& top.next >= 1
    &&& e.code == codes::DEP_RESOLUTION
    &&& if r.on_stack(d.name@) {
        e.message@ == error_text(codes::DEP_RESOLUTION, cycle_text(d.name@))
    } else if r.has_seen(d.name@) {
        &&& opt_chars(d.req) is Some
        &&& !requirement_met(opt_chars(d.req)->0, r.resolved_version(d.name@))
        &&& requirement_error(d.name@, opt_chars(d.req)->0, r.resolved_version(d.name@), e)
    } else {
        &&& opt_chars(d.path) is None
        &&& opt_chars(d.git) is None
        &&& e.message@ == error_text(codes::DEP_RESOLUTION, no_source_text(d.name@))
    }
}

/// Frame `k` of `frames`, or one below it above the project, is owned by
/// `name`.
pub open spec fn owns_frame_upto(frames: Seq<Frame>, k: int, name: Seq<char>) -> bool {
    exists|i: int| 1 <= i <= k && (#[trigger] frames[i]).owner->0@ == name
}

/// A dependency that the walk, at frame `k` of `frames`, passed over: it
/// names a lib already resolved that is not being walked at that frame or
/// below, and whose version meets the dependency's requirement.
pub open spec fn passed_over(r: Resolver, frames: Seq<Frame>, k: int, d: DepRef) -> bool {
    &&& r.dep_met(d)
    &&& !owns_frame_upto(frames, k, d.name@)
}

/// How the walk went from the frames `o` to the frames of `r`: some frames
/// were left once every dependency they still had was passed over; the
/// frame now on top moved on, passing over each dependency it took but,
/// when `taken_last` holds, the last one, which the walk stopped at.
pub open spec fn walked(o: Seq<Frame>, r: Resolver, taken_last: bool) -> bool {
    let f = r.frames@;
    let k = f.len() - 1;
    &&& 1 <= f.len() <= o.len()
    &&& forall|i: int| 0 <= i < k ==> f[i] == o[i]
    &&& f[k].owner == o[k].owner
    &&& f[k].deps == o[k].deps
    &&& o[k].next <= f[k].next <= f[k].deps@.len()
    &&& taken_last ==> o[k].next < f[k].next
    &&& forall|i: int, j: int|
        k < i < o.len() && o[i].next <= j < o[i].deps@.len() ==> passed_over(r, o, i, #[trigger] o[i].deps@[j])
    &&& forall|j: int|
        o[k].next <= j < f[k].next - (if taken_last { 1int } else { 0int }) ==> passed_over(r, o, k, #[trigger] o[k].deps@[j])
}

impl Resolver {
    /// Whether `name` is the name of a resolved package.
    pub open spec fn has_seen(self, name: Seq<char>) -> bool {
        exists|k: int| 0 <= k < self.seen@.len() && (#[trigger] self.seen@[k])@ == name
    }

    /// Whether `name` owns one of the frames being walked.
    pub open spec fn on_stack(self, name: Seq<char>) -> bool {
        exists|i: int|
            1 <= i < self.frames@.len() && (#[trigger] self.frames@[i]).owner->0@ == name
    }

    /// The index of the resolved package named `name`.
    pub open spec fn seen_index(self, name: Seq<char>) -> int {
        choose|k: int| 0 <= k < self.seen@.len() && self.seen@[k]@ == name
    }

    /// The version of the resolved package named `name`.
    pub open spec fn resolved_version(self, name: Seq<char>) -> Seq<char> {
        self.graph.packages@[self.seen_index(name)].version@
    }

    /// Frame `i` has its taken dependencies resolved, but for the top
    /// frame's last one when `exempt` holds.
    pub open spec fn frame_covered(self, i: int, exempt: bool) -> bool {
        forall|j: int|
            0 <= j < self.frames@[i].next ==> (self.dep_met(#[trigger] self.frames@[i].deps@[j]) || (
            exempt && i == self.frames@.len() - 1 && j == self.frames@[i].next - 1))
    }

    /// A dependency is met: it names a resolved lib whose version meets
    /// the dependency's requirement.
    pub open spec fn dep_met(self, d: DepRef) -> bool {
        &&& self.has_seen(d.name@)
        &&& match opt_chars(d.req) {
            Some(q) => requirement_met(q, self.resolved_version(d.name@)),
            None => true,
        }
    }

    /// Every frame is covered.
    #[verifier::opaque]
    pub open spec fn covered(self, exempt: bool) -> bool {
        forall|i: int| 0 <= i < self.frames@.len() ==> #[trigger] self.frame_covered(i, exempt)
    }

    /// The shape of the stack of frames.
    #[verifier::opaque]
    pub open spec fn stack_ok(self) -> bool {
        let frames = self.frames@;
        &&& frames.len() >= 1
        &&& frames[0].owner is None
        &&& forall|i: int| 0 <= i < frames.len() ==> (#[trigger] frames[i]).next <= frames[i].deps@.len()
        &&& forall|i: int| 1 <= i < frames.len() ==> (#[trigger] frames[i]).owner is Some
        // each frame's lib is the dependency its parent took last
        &&& forall|i: int|
            1 <= i < frames.len() ==> frames[i - 1].next >= 1 && (#[trigger] frames[i]).owner->0@
                == frames[i - 1].deps@[frames[i - 1].next - 1].name@
        // the frames' libs are distinct resolved packages
        &&& forall|i: int, j: int|
            1 <= i < j < frames.len() ==> (#[trigger] frames[i]).owner->0@ != (#[trigger] frames[j]).owner->0@
        &&& forall|i: int| 1 <= i < frames.len() ==> self.has_seen((#[trigger] frames[i]).owner->0@)
        &&& forall|i: int|
            1 <= i < frames.len() ==> self.lib_deps@[self.seen_index((#[trigger] frames[i]).owner->0@)]
                == frames[i].deps@
    }

    /// The graph lists the resolved packages, each once, each checked
    /// against its requirement; a lib off the stack has all its
    /// dependencies met.
    #[verifier::opaque]
    pub open spec fn graph_ok(self) -> bool {
        let n = self.graph.packages@.len();
        &&& self.seen@.len() == n
        &&& forall|k: int| 0 <= k < n ==> (#[trigger] self.seen@[k])@ == self.graph.packages@[k].name@
        &&& forall|k: int, l: int| 0 <= k < l < n ==> (#[trigger] self.seen@[k])@ != (#[trigger] self.seen@[l])@
        &&& self.reqs@.len() == n
        &&& forall|k: int|
            0 <= k < n ==> match #[trigger] self.reqs@[k] {
                Some(q) => semver_req_parses(q) && semver_version_parses(
                    self.graph.packages@[k].version@,
                ) && semver_matches(q, self.graph.packages@[k].version@),
                None => true,
            }
        &&& self.lib_deps@.len() == n
        &&& forall|k: int, d: int|
            0 <= k < n && 0 <= d < self.lib_deps@[k].len() && !self.on_stack(self.seen@[k]@) ==> self.dep_met(
                #[trigger] self.lib_deps@[k][d],
            )
    }

    /// The dependency waited on is the one the top frame took last, not
    /// yet resolved nor being walked, at the place `source_ok` gives.
    #[verifier::opaque]
    pub open spec fn pending_ok(self) -> bool {
        let frames = self.frames@;
        self.pending matches Some(p) ==> {
            &&& frames.last().next >= 1
            &&& same_dep(p.dep, frames.last().deps@[frames.last().next - 1])
            &&& !self.has_seen(p.dep.name@)
            &&& !self.on_stack(p.dep.name@)
            &&& source_ok(p.dep.name@, opt_chars(p.dep.path), opt_chars(p.dep.git), self.carts_dir@, p.source)
        }
    }

    /// The invariant of a resolution in progress.
    pub open spec fn wf(self) -> bool {
        &&& self.stack_ok()
        &&& self.graph_ok()
        &&& self.covered(self.pending is Some)
        &&& self.pending_ok()
    }

    /// The walk is complete.
    pub open spec fn is_done(self) -> bool {
        &&& self.pending is None
        &&& self.frames@.len() == 1
        &&& self.frames@[0].next == self.frames@[0].deps@.len()
    }
}

} // verus!

verus! {

/// The dependencies of a name-keyed table, in ascending name order.
pub fn deps_in_order(m: &NameMap<Dependency>) -> (r: Vec<DepRef>)
    ensures
        r@.len() == m@.len(),
        forall|i: int| 0 <= i < m@.len() ==> describes(#[trigger] r@[i], m@[i].0, m@[i].1),
{
    let n = m.len();
    let mut r: Vec<DepRef> = Vec::new();
    let mut i: usize = 0;
    while i < n
        invariant
            n == m@.len(),
            i <= n,
            r@.len() == i,
            forall|j: int| 0 <= j < i ==> describes(#[trigger] r@[j], m@[j].0, m@[j].1),
        decreases n - i,
    {
        r.push(dep_ref(m.name_at(i).as_str(), m.value_at(i)));
        i = i + 1;
    }
    r
}

proof fn lemma_work_pop(s: Seq<Frame>)
    requires
        s.len() > 0,
    ensures
        work(s.drop_last()) < work(s),
{
}

proof fn lemma_work_bump(s: Seq<Frame>, f: Frame)
    requires
        s.len() > 0,
        f.deps@.len() == s.last().deps@.len(),
        f.next == s.last().next + 1,
        f.next <= f.deps@.len(),
    ensures
        work(s.drop_last().push(f)) < work(s),
{
    assert(s.drop_last().push(f).drop_last() =~= s.drop_last());
}

impl Resolver {
    fn seen_position(&self, name: &str) -> (r: Option<usize>)
        ensures
            match r {
                Some(k) => k < self.seen@.len() && self.seen@[k as int]@ == name@,
                None => !self.has_seen(name@),
            },
    {
        let mut k: usize = 0;
        while k < self.seen.len()
            invariant
                k <= self.seen@.len(),
                forall|j: int| 0 <= j < k ==> (#[trigger] self.seen@[j])@ != name@,
            decreases self.seen@.len() - k,
        {
            if same_text(self.seen[k].as_str(), name) {
                return Some(k);
            }
            k = k + 1;
        }
        None
    }

    fn stack_contains(&self, name: &str) -> (r: bool)
        requires
            forall|i: int| 1 <= i < self.frames@.len() ==> (#[trigger] self.frames@[i]).owner is Some,
        ensures
            r == self.on_stack(name@),
    {
        let mut i: usize = 1;
        while i < self.frames.len()
            invariant
                1 <= i,
                forall|j: int| 1 <= j < self.frames@.len() ==> (#[trigger] self.frames@[j]).owner is Some,
                forall|j: int| 1 <= j < i && j < self.frames@.len() ==> (#[trigger] self.frames@[j]).owner->0@ != name@,
            decreases self.frames@.len() - i,
        {
            match &self.frames[i].owner {
                Some(o) => {
                    if same_text(o.as_str(), name) {
                        return true;
                    }
                },
                None => {},
            }
            i = i + 1;
        }
        false
    }

    /// Takes dependencies until one needs loading, the walk completes, or
    /// a cycle or an unplaceable dependency stops it.
    fn advance(&mut self) -> (a: ResolveAction)
        requires
            old(self).wf(),
            old(self).pending is None,
        ensures
            final(self).carts_dir@ == old(self).carts_dir@,
            final(self).graph == old(self).graph,
            final(self).seen@ == old(self).seen@,
            final(self).reqs == old(self).reqs,
            final(self).lib_deps == old(self).lib_deps,
            final(self).frames@.len() >= 1,
            final(self).frames@[0].deps == old(self).frames@[0].deps,
            walked(old(self).frames@, *final(self), !(a is Done)),
            a !is Fail ==> final(self).wf(),
            match a {
                ResolveAction::Load { name, dir, clone_url } => {
                    &&& final(self).pending matches Some(p)
                    &&& same_dep(p.dep, last_taken(*final(self)))
                    &&& !final(self).has_seen(p.dep.name@)
                    &&& !final(self).on_stack(p.dep.name@)
                    &&& p.dep.name@ == name@
                    &&& match p.source {
                        DepSource::Path { dir: d } => d@ == dir@ && clone_url is None,
                        DepSource::Git { dir: d, url } => d@ == dir@ && (clone_url matches Some(
                            u,
                        ) && u@ == url@),
                    }
                },
                ResolveAction::Done => final(self).is_done(),
                ResolveAction::Fail(e) => failure_ok(*final(self), e),
            },
    {
        proof {
            lemma_stack_facts(*self);
            lemma_walk_start(*self);
        }
        loop
            invariant
                self.wf(),
                self.pending is None,
                self.carts_dir@ == old(self).carts_dir@,
                self.graph == old(self).graph,
                self.seen@ == old(self).seen@,
                self.reqs == old(self).reqs,
                self.lib_deps == old(self).lib_deps,
                self.frames@.len() >= 1,
                self.frames@[0].deps == old(self).frames@[0].deps,
                walked(old(self).frames@, *self, false),
            decreases work(self.frames@),
        {
            proof {
                lemma_stack_facts(*self);
            }
            let top = self.frames.len() - 1;
            if self.frames[top].next < self.frames[top].deps.len() {
                let ghost before = *self;
                let mut f = self.frames.pop().unwrap();
                let j = f.next;
                f.next = j + 1;
                let dep = clone_dep_ref(&f.deps[j]);
                proof {
                    lemma_work_bump(before.frames@, f);
                }
                self.frames.push(f);
                proof {
                    assert(self.frames@ =~= before.frames@.drop_last().push(f));
                    assert(top == 0 || self.frames@[0] == before.frames@[0]);
                    assert(top_moved(before, *self));
                    lemma_take(before, *self);
                    lemma_stack_facts(*self);
                    lemma_walk_take(old(self).frames@, before, *self);
                }
                if self.stack_contains(dep.name.as_str()) {
                    let mut t = owned("dependency cycle detected at lib '");
                    push_str(&mut t, dep.name.as_str());
                    push_str(&mut t, "'");
                    return ResolveAction::Fail(CartError::new(codes::DEP_RESOLUTION, t.as_str()));
                }
                match self.seen_position(dep.name.as_str()) {
                    Some(k) => {
                        proof {
                            lemma_version_at(*self, k as int);
                        }
                        if let Some(q) = &dep.req {
                            let version = self.graph.packages[k].version.as_str();
                            if let Err(e) = check_requirement(dep.name.as_str(), q.as_str(), version) {
                                return ResolveAction::Fail(e);
                            }
                        }
                        proof {
                            lemma_skip(*self);
                            lemma_not_owned(old(self).frames@, *self, dep.name@);
                            lemma_walk_pass(old(self).frames@, *self);
                        }
                        continue;
                    },
                    None => {},
                }
                match locate(&dep, self.carts_dir.as_str()) {
                    Err(e) => {
                        return ResolveAction::Fail(e);
                    },
                    Ok(src) => {
                        let name = dep.name.clone();
                        let (dir, clone_url) = match &src {
                            DepSource::Path { dir } => (dir.clone(), None),
                            DepSource::Git { dir, url } => (dir.clone(), Some(url.clone())),
                        };
                        let ghost mid = *self;
                        self.pending = Some(Pending { dep, source: src });
                        proof {
                            lemma_set_pending(mid, *self);
                            lemma_walk_same(old(self).frames@, mid, *self, true);
                        }
                        return ResolveAction::Load { name, dir, clone_url };
                    },
                }
            } else if top == 0 {
                return ResolveAction::Done;
            } else {
                let ghost before = *self;
                proof {
                    lemma_work_pop(before.frames@);
                }
                let popped = self.frames.pop().unwrap();
                proof {
                    assert(self.frames@ =~= before.frames@.drop_last());
                    assert(self.frames@[0] == before.frames@[0]);
                    lemma_pop(before, *self);
                    lemma_walk_pop(old(self).frames@, before, *self);
                }
            }
        }
    }
}

/// The walk starts where it is.
proof fn lemma_walk_start(r: Resolver)
    requires
        r.stack_ok(),
    ensures
        walked(r.frames@, r, false),
{
    reveal(Resolver::stack_ok);
}

/// The walk's account depends only on the frames, the resolved names and
/// the graph.
proof fn lemma_walk_same(o: Seq<Frame>, a: Resolver, b: Resolver, t: bool)
    requires
        walked(o, a, t),
        b.frames == a.frames,
        b.seen == a.seen,
        b.graph == a.graph,
    ensures
        walked(o, b, t),
{
    assert forall|name: Seq<char>| b.has_seen(name) == a.has_seen(name) by {}
    assert forall|name: Seq<char>| b.resolved_version(name) == a.resolved_version(name) by {}
}

/// Taking the top frame's next dependency moves the walk on.
proof fn lemma_walk_take(o: Seq<Frame>, before: Resolver, after: Resolver)
    requires
        walked(o, before, false),
        top_moved(before, after),
        after.seen == before.seen,
        after.graph == before.graph,
    ensures
        walked(o, after, true),
{
}

/// A lib owning no frame of the walk owns none of the frames it came from
/// at or below the top.
proof fn lemma_not_owned(o: Seq<Frame>, r: Resolver, name: Seq<char>)
    requires
        walked(o, r, true),
        !r.on_stack(name),
    ensures
        !owns_frame_upto(o, r.frames@.len() - 1, name),
{
    let k = r.frames@.len() - 1;
    if owns_frame_upto(o, k, name) {
        let i = choose|i: int| 1 <= i <= k && (#[trigger] o[i]).owner->0@ == name;
        if i < k {
            assert(r.frames@[i] == o[i]);
        }
        assert(r.frames@[i].owner == o[i].owner);
    }
}

/// Passing over the dependency just taken keeps the walk's account.
proof fn lemma_walk_pass(o: Seq<Frame>, r: Resolver)
    requires
        walked(o, r, true),
        passed_over(r, o, r.frames@.len() - 1, last_taken(r)),
    ensures
        walked(o, r, false),
{
    let k = r.frames@.len() - 1;
    assert forall|j: int| o[k].next <= j < r.frames@[k].next implies passed_over(r, o, k, #[trigger] o[k].deps@[j]) by {
        if j == r.frames@[k].next - 1 {
            assert(o[k].deps@[j] == last_taken(r));
        }
    }
}

/// Leaving an exhausted frame keeps the walk's account.
proof fn lemma_walk_pop(o: Seq<Frame>, before: Resolver, after: Resolver)
    requires
        walked(o, before, false),
        before.stack_ok(),
        before.frames@.len() >= 2,
        before.frames@.last().next == before.frames@.last().deps@.len(),
        after.frames@ == before.frames@.drop_last(),
        after.seen == before.seen,
        after.graph == before.graph,
    ensures
        walked(o, after, false),
{
    reveal(Resolver::stack_ok);
    let k = before.frames@.len() - 1;
    assert(after.frames@[k - 1] == before.frames@[k - 1]);
    assert(before.frames@[k - 1] == o[k - 1]);
    assert forall|i: int, j: int|
        k - 1 < i < o.len() && o[i].next <= j < o[i].deps@.len() implies passed_over(after, o, i, #[trigger] o[i].deps@[j]) by {
        if i == k {
            assert(before.frames@[k].next == o[k].deps@.len());
        }
    }
}

/// The version of a resolved package, found at its place in the list.
proof fn lemma_version_at(r: Resolver, k: int)
    requires
        r.graph_ok(),
        0 <= k < r.seen@.len(),
    ensures
        k < r.graph.packages@.len(),
        r.resolved_version(r.seen@[k]@) == r.graph.packages@[k].version@,
{
    reveal(Resolver::graph_ok);
    lemma_seen_index(r, k);
}

/// The frames of `after` are those of `before` with the top frame's
/// position moved.
pub open spec fn top_moved(before: Resolver, after: Resolver) -> bool {
    &&& before.frames@.len() >= 1
    &&& after.frames@.len() == before.frames@.len()
    &&& forall|i: int| 0 <= i < before.frames@.len() - 1 ==> after.frames@[i] == before.frames@[i]
    &&& after.frames@.last().owner == before.frames@.last().owner
    &&& after.frames@.last().deps == before.frames@.last().deps
    &&& after.frames@.last().next == before.frames@.last().next + 1
    &&& after.frames@.last().next <= after.frames@.last().deps@.len()
}

/// The parts of the state other than the frames are the same.
pub open spec fn same_rest(before: Resolver, after: Resolver) -> bool {
    &&& after.pending is None
    &&& before.pending is None
    &&& after.carts_dir == before.carts_dir
    &&& after.graph == before.graph
    &&& after.seen == before.seen
    &&& after.reqs == before.reqs
    &&& after.lib_deps == before.lib_deps
}

proof fn lemma_take_on_stack(before: Resolver, after: Resolver)
    requires
        top_moved(before, after),
    ensures
        forall|name: Seq<char>| after.on_stack(name) == before.on_stack(name),
{
    assert forall|name: Seq<char>| after.on_stack(name) == before.on_stack(name) by {
        if after.on_stack(name) {
            let i = choose|i: int| 1 <= i < after.frames@.len() && (#[trigger] after.frames@[i]).owner->0@ == name;
            assert(before.frames@[i].owner == after.frames@[i].owner);
        }
        if before.on_stack(name) {
            let i = choose|i: int| 1 <= i < before.frames@.len() && (#[trigger] before.frames@[i]).owner->0@ == name;
            assert(before.frames@[i].owner == after.frames@[i].owner);
        }
    }
}

#[verifier::spinoff_prover]
proof fn lemma_take_stack(before: Resolver, after: Resolver)
    requires
        before.stack_ok(),
        top_moved(before, after),
        same_rest(before, after),
    ensures
        after.stack_ok(),
{
    reveal(Resolver::stack_ok);
    assert forall|i: int| 1 <= i < after.frames@.len() implies after.frames@[i - 1].next >= 1 && (#[trigger] after.frames@[i]).owner->0@
        == after.frames@[i - 1].deps@[after.frames@[i - 1].next - 1].name@ by {
        assert(before.frames@[i - 1].next >= 1);
    }
    assert forall|i: int| 1 <= i < after.frames@.len() implies after.lib_deps@[after.seen_index((#[trigger] after.frames@[i]).owner->0@)]
        == after.frames@[i].deps@ by {
        assert(after.frames@[i].owner == before.frames@[i].owner);
        assert(after.frames@[i].deps == before.frames@[i].deps);
    }
}

proof fn lemma_graph_same_stack(before: Resolver, after: Resolver)
    requires
        before.graph_ok(),
        after.graph == before.graph,
        after.seen == before.seen,
        after.reqs == before.reqs,
        after.lib_deps == before.lib_deps,
        forall|name: Seq<char>| after.on_stack(name) == before.on_stack(name),
    ensures
        after.graph_ok(),
{
    reveal(Resolver::graph_ok);
}

proof fn lemma_take_covered(before: Resolver, after: Resolver)
    requires
        before.covered(false),
        top_moved(before, after),
        same_rest(before, after),
    ensures
        after.covered(true),
{
    reveal(Resolver::covered);
    assert forall|i: int| 0 <= i < after.frames@.len() implies #[trigger] after.frame_covered(i, true) by {
        assert(before.frame_covered(i, false));
    }
}

proof fn lemma_no_pending(r: Resolver)
    requires
        r.pending is None,
    ensures
        r.pending_ok(),
{
    reveal(Resolver::pending_ok);
}

/// Taking the top frame's next dependency keeps the invariant, with that
/// dependency exempt from coverage.
proof fn lemma_take(before: Resolver, after: Resolver)
    requires
        before.wf(),
        top_moved(before, after),
        same_rest(before, after),
    ensures
        after.stack_ok(),
        after.graph_ok(),
        after.covered(true),
        after.pending_ok(),
        forall|name: Seq<char>| after.on_stack(name) == before.on_stack(name),
{
    lemma_take_on_stack(before, after);
    lemma_take_stack(before, after);
    lemma_graph_same_stack(before, after);
    lemma_take_covered(before, after);
    lemma_no_pending(after);
}

/// Facts about the stack that the walk reads.
proof fn lemma_stack_facts(r: Resolver)
    requires
        r.stack_ok(),
    ensures
        r.frames@.len() >= 1,
        r.frames@[0].owner is None,
        r.frames@.last().next <= r.frames@.last().deps@.len(),
        forall|i: int| 1 <= i < r.frames@.len() ==> (#[trigger] r.frames@[i]).owner is Some,
{
    reveal(Resolver::stack_ok);
}

/// A taken dependency that is met is covered.
proof fn lemma_skip(r: Resolver)
    requires
        r.covered(true),
        r.frames@.len() >= 1,
        r.frames@.last().next >= 1,
        r.dep_met(r.frames@.last().deps@[r.frames@.last().next - 1]),
    ensures
        r.covered(false),
{
    reveal(Resolver::covered);
    assert forall|i: int| 0 <= i < r.frames@.len() implies #[trigger] r.frame_covered(i, false) by {
        assert(r.frame_covered(i, true));
    }
}

/// Waiting on the taken dependency keeps the invariant.
#[verifier::spinoff_prover]
#[verifier::rlimit(30)]
proof fn lemma_set_pending(mid: Resolver, after: Resolver)
    requires
        mid.stack_ok(),
        mid.graph_ok(),
        mid.covered(true),
        mid.pending is None,
        after.frames == mid.frames,
        after.carts_dir == mid.carts_dir,
        after.graph == mid.graph,
        after.seen == mid.seen,
        after.reqs == mid.reqs,
        after.lib_deps == mid.lib_deps,
        after.pending matches Some(p) && {
            &&& mid.frames@.last().next >= 1
            &&& same_dep(p.dep, mid.frames@.last().deps@[mid.frames@.last().next - 1])
            &&& !mid.has_seen(p.dep.name@)
            &&& !mid.on_stack(p.dep.name@)
            &&& source_ok(p.dep.name@, opt_chars(p.dep.path), opt_chars(p.dep.git), mid.carts_dir@, p.source)
        },
    ensures
        after.wf(),
{
    assert forall|x: Seq<char>| after.has_seen(x) == mid.has_seen(x) by {}
    assert forall|x: Seq<char>| after.on_stack(x) == mid.on_stack(x) by {}
    assert forall|d: DepRef| after.dep_met(d) == mid.dep_met(d) by {}
    assert(after.stack_ok()) by {
        reveal(Resolver::stack_ok);
    }
    assert(after.graph_ok()) by {
        reveal(Resolver::graph_ok);
    }
    assert(after.covered(true)) by {
        reveal(Resolver::covered);
        assert forall|i: int| 0 <= i < after.frames@.len() implies #[trigger] after.frame_covered(i, true) by {
            assert(mid.frame_covered(i, true));
        }
    }
    assert(after.pending_ok()) by {
        reveal(Resolver::pending_ok);
    }
}

/// Leaving an exhausted lib keeps the invariant: the lib leaves the stack
/// with every dependency resolved.
proof fn lemma_pop(before: Resolver, after: Resolver)
    requires
        before.wf(),
        before.pending is None,
        before.frames@.len() >= 2,
        before.frames@.last().next == before.frames@.last().deps@.len(),
        after.frames@ == before.frames@.drop_last(),
        after.pending is None,
        after.carts_dir == before.carts_dir,
        after.graph == before.graph,
        after.seen == before.seen,
        after.reqs == before.reqs,
        after.lib_deps == before.lib_deps,
    ensures
        after.wf(),
{
    reveal(Resolver::stack_ok);
    reveal(Resolver::graph_ok);
    reveal(Resolver::covered);
    reveal(Resolver::pending_ok);
    let top = before.frames@.len() - 1;
    let popped = before.frames@[top];
    let owner = popped.owner->0@;
    assert(before.frame_covered(top, false));
    let k0 = before.seen_index(owner);
    assert(before.lib_deps@[k0] == popped.deps@);
    assert forall|name: Seq<char>| #[trigger] after.on_stack(name) implies before.on_stack(name) by {
        let i = choose|i: int| 1 <= i < after.frames@.len() && (#[trigger] after.frames@[i]).owner->0@ == name;
        assert(before.frames@[i] == after.frames@[i]);
    }
    assert forall|k: int, d: int|
        0 <= k < after.graph.packages@.len() && 0 <= d < after.lib_deps@[k].len()
            && !after.on_stack(after.seen@[k]@) implies after.dep_met(
        #[trigger] after.lib_deps@[k][d],
    ) by {
        if before.on_stack(after.seen@[k]@) {
            let i = choose|i: int| 1 <= i < before.frames@.len() && (#[trigger] before.frames@[i]).owner->0@ == after.seen@[k]@;
            if i < top {
                assert(after.frames@[i] == before.frames@[i]);
                assert(after.on_stack(after.seen@[k]@));
            } else {
                assert(before.has_seen(owner));
                assert(k0 == k);
                assert(before.frame_covered(top, false));
                assert(before.dep_met(popped.deps@[d]));
            }
        }
    }
    assert forall|i: int| 0 <= i < after.frames@.len() implies #[trigger] after.frame_covered(i, false) by {
        assert(before.frame_covered(i, false));
        assert(after.frames@[i] == before.frames@[i]);
    }
}

} // verus!

verus! {

/// In a sequence of distinct names, the index `seen_index` picks for a
/// name at `k` is `k`.
proof fn lemma_seen_index(r: Resolver, k: int)
    requires
        0 <= k < r.seen@.len(),
        forall|a: int, b: int| 0 <= a < b < r.seen@.len() ==> (#[trigger] r.seen@[a])@ != (#[trigger] r.seen@[b])@,
    ensures
        r.seen_index(r.seen@[k]@) == k,
{
    let j = r.seen_index(r.seen@[k]@);
    assert(0 <= j < r.seen@.len() && r.seen@[j]@ == r.seen@[k]@);
    if j < k {
    } else if j > k {
    }
}

/// The package a loaded lib adds to the graph.
pub open spec fn package_for(p: Pending, version: Seq<char>, checksum: Seq<char>, commit: Seq<char>, pkg: ResolvedPackage) -> bool {
    &&& pkg.name@ == p.dep.name@
    &&& pkg.version@ == version
    &&& pkg.checksum@ == checksum
    &&& locked_source_for(p, pkg.source, commit)
}

/// Recording a loaded lib keeps the invariant: its package joins the
/// graph and its frame goes on top of the stack.
#[verifier::spinoff_prover]
#[verifier::rlimit(30)]
proof fn lemma_loaded(before: Resolver, after: Resolver, p: Pending, pkg: ResolvedPackage, fr: Frame)
    requires
        before.wf(),
        before.pending == Some(p),
        pkg.name@ == p.dep.name@,
        match p.dep.req {
            Some(q) => semver_req_parses(q@) && semver_version_parses(pkg.version@) && semver_matches(
                q@,
                pkg.version@,
            ),
            None => true,
        },
        fr.owner matches Some(o) && o@ == p.dep.name@,
        fr.next == 0,
        after.pending is None,
        after.carts_dir == before.carts_dir,
        after.frames@ == before.frames@.push(fr),
        after.graph.packages@ == before.graph.packages@.push(pkg),
        after.seen@.len() == before.seen@.len() + 1,
        forall|k: int| 0 <= k < before.seen@.len() ==> after.seen@[k] == before.seen@[k],
        after.seen@.last()@ == p.dep.name@,
        after.reqs@ == before.reqs@.push(opt_chars(p.dep.req)),
        after.lib_deps@ == before.lib_deps@.push(fr.deps@),
    ensures
        after.wf(),
{
    reveal(Resolver::stack_ok);
    reveal(Resolver::graph_ok);
    reveal(Resolver::covered);
    reveal(Resolver::pending_ok);
    let n = before.seen@.len();
    let name = p.dep.name@;
    assert forall|x: Seq<char>| before.has_seen(x) implies after.has_seen(x) by {
        let k = choose|k: int| 0 <= k < before.seen@.len() && (#[trigger] before.seen@[k])@ == x;
        assert(after.seen@[k] == before.seen@[k]);
    }
    assert(after.seen@[n as int]@ == name);
    assert(after.has_seen(name));
    assert forall|x: Seq<char>| after.on_stack(x) == (before.on_stack(x) || x == name) by {
        if after.on_stack(x) {
            let i = choose|i: int| 1 <= i < after.frames@.len() && (#[trigger] after.frames@[i]).owner->0@ == x;
            if i < before.frames@.len() {
                assert(after.frames@[i] == before.frames@[i]);
            }
        }
        if before.on_stack(x) {
            let i = choose|i: int| 1 <= i < before.frames@.len() && (#[trigger] before.frames@[i]).owner->0@ == x;
            assert(after.frames@[i] == before.frames@[i]);
        }
        if x == name {
            assert(after.frames@[before.frames@.len() as int] == fr);
        }
    }
    // seen stays distinct, so indices of old names are kept
    assert forall|a: int, b: int| 0 <= a < b < after.seen@.len() implies (#[trigger] after.seen@[a])@ != (#[trigger] after.seen@[b])@ by {
        if b == n {
            assert(after.seen@[a] == before.seen@[a]);
            assert(before.has_seen(after.seen@[a]@));
        } else {
            assert(after.seen@[a] == before.seen@[a] && after.seen@[b] == before.seen@[b]);
        }
    }
    assert forall|x: Seq<char>| before.has_seen(x) implies after.seen_index(x) == before.seen_index(x) by {
        let k = before.seen_index(x);
        lemma_seen_index(before, k);
        assert(after.seen@[k] == before.seen@[k]);
        lemma_seen_index(after, k);
    }
    lemma_seen_index(after, n as int);
    // a dependency met before is met after, and the loaded one now is
    assert forall|d: DepRef| before.dep_met(d) implies after.dep_met(d) by {
        let k = before.seen_index(d.name@);
        assert(after.graph.packages@[k] == before.graph.packages@[k]);
    }
    assert(after.graph.packages@[n as int] == pkg);
    assert(after.dep_met(p.dep));
    assert forall|d: DepRef| same_dep(d, p.dep) implies after.dep_met(d) by {}
    // the stack
    let top = before.frames@.len() - 1;
    assert(same_dep(p.dep, before.frames@[top].deps@[before.frames@[top].next - 1]));
    assert forall|i: int| 1 <= i < after.frames@.len() implies after.frames@[i - 1].next >= 1 && (#[trigger] after.frames@[i]).owner->0@
        == after.frames@[i - 1].deps@[after.frames@[i - 1].next - 1].name@ by {
        if i < before.frames@.len() {
            assert(after.frames@[i] == before.frames@[i]);
            assert(after.frames@[i - 1] == before.frames@[i - 1]);
        } else {
            assert(after.frames@[i - 1] == before.frames@[top]);
        }
    }
    assert forall|i: int, j: int| 1 <= i < j < after.frames@.len() implies (#[trigger] after.frames@[i]).owner->0@
        != (#[trigger] after.frames@[j]).owner->0@ by {
        assert(after.frames@[i] == before.frames@[i]);
        if j == before.frames@.len() {
            assert(before.on_stack(before.frames@[i].owner->0@));
        } else {
            assert(after.frames@[j] == before.frames@[j]);
        }
    }
    assert forall|i: int| 1 <= i < after.frames@.len() implies after.has_seen((#[trigger] after.frames@[i]).owner->0@) by {
        if i < before.frames@.len() {
            assert(after.frames@[i] == before.frames@[i]);
        }
    }
    assert forall|i: int| 1 <= i < after.frames@.len() implies after.lib_deps@[after.seen_index((#[trigger] after.frames@[i]).owner->0@)]
        == after.frames@[i].deps@ by {
        if i < before.frames@.len() {
            assert(after.frames@[i] == before.frames@[i]);
            let o = before.frames@[i].owner->0@;
            assert(before.has_seen(o));
            let k = before.seen_index(o);
            assert(0 <= k < n);
        } else {
            assert(after.frames@[i] == fr);
        }
    }
    assert forall|i: int| 0 <= i < after.frames@.len() implies (#[trigger] after.frames@[i]).next <= after.frames@[i].deps@.len() by {
        if i < before.frames@.len() {
            assert(after.frames@[i] == before.frames@[i]);
        }
    }
    assert forall|i: int| 1 <= i < after.frames@.len() implies (#[trigger] after.frames@[i]).owner is Some by {
        if i < before.frames@.len() {
            assert(after.frames@[i] == before.frames@[i]);
        }
    }
    assert(after.frames@[0] == before.frames@[0]);
    // the graph
    assert forall|k: int| 0 <= k < after.graph.packages@.len() implies (#[trigger] after.seen@[k])@
        == after.graph.packages@[k].name@ by {
        if k < n {
            assert(after.seen@[k] == before.seen@[k]);
        }
    }
    assert forall|k: int|
        0 <= k < after.graph.packages@.len() implies match #[trigger] after.reqs@[k] {
            Some(q) => semver_req_parses(q) && semver_version_parses(after.graph.packages@[k].version@)
                && semver_matches(q, after.graph.packages@[k].version@),
            None => true,
        } by {
        if k < n {
            assert(after.reqs@[k] == before.reqs@[k]);
        }
    }
    assert forall|k: int, d: int|
        0 <= k < after.graph.packages@.len() && 0 <= d < after.lib_deps@[k].len() && !after.on_stack(
            after.seen@[k]@,
        ) implies after.dep_met(#[trigger] after.lib_deps@[k][d]) by {
        if k < n {
            assert(after.seen@[k] == before.seen@[k]);
            assert(after.lib_deps@[k] == before.lib_deps@[k]);
            assert(!before.on_stack(before.seen@[k]@));
            assert(before.dep_met(before.lib_deps@[k][d]));
        }
    }
    // coverage
    assert forall|i: int| 0 <= i < after.frames@.len() implies #[trigger] after.frame_covered(i, false) by {
        if i < before.frames@.len() {
            assert(after.frames@[i] == before.frames@[i]);
            assert(before.frame_covered(i, true));
            assert forall|j: int| 0 <= j < after.frames@[i].next implies (after.dep_met(
                #[trigger] after.frames@[i].deps@[j],
            ) || (false && i == after.frames@.len() - 1 && j == after.frames@[i].next - 1)) by {
                if before.dep_met(before.frames@[i].deps@[j]) {
                } else {
                    assert(i == top && j == before.frames@[top].next - 1);
                }
            }
        }
    }
}

/// The frame a loaded lib gets: owned by the lib, at its start, walking
/// the loaded manifest's `[dependencies]` in ascending name order.
pub open spec fn loaded_frame(fr: Frame, name: Seq<char>, m: CartManifest) -> bool {
    &&& fr.owner matches Some(o) && o@ == name
    &&& fr.next == 0
    &&& fr.deps@.len() == m.dependencies@.len()
    &&& forall|i: int|
        0 <= i < fr.deps@.len() ==> describes(#[trigger] fr.deps@[i], m.dependencies@[i].0, m.dependencies@[i].1)
}

impl Resolver {
    /// Answers the caller's report on the `Load` it performed: a lib whose
    /// version fails its requirement stops resolution with E504, a missing
    /// one with E505; an accepted lib joins the graph and its own
    /// dependencies are walked next.
    pub fn handle(&mut self, event: ResolveEvent) -> (a: ResolveAction)
        requires
            old(self).wf(),
            old(self).pending is Some,
        ensures
            final(self).carts_dir@ == old(self).carts_dir@,
            final(self).frames@.len() >= 1,
            final(self).frames@[0].deps == old(self).frames@[0].deps,
            a !is Fail ==> final(self).wf(),
            // the graph is only appended to, by at most the loaded lib,
            // which was not resolved before
            old(self).graph.packages@.len() <= final(self).graph.packages@.len()
                <= old(self).graph.packages@.len() + 1,
            final(self).graph.packages@.take(old(self).graph.packages@.len() as int) == old(
                self,
            ).graph.packages@,
            final(self).graph.packages@.len() > old(self).graph.packages@.len() ==> {
                &&& event is Loaded
                &&& final(self).graph.packages@.last().name@ == old(self).pending->0.dep.name@
                &&& !old(self).has_seen(old(self).pending->0.dep.name@)
            },
            match event {
                ResolveEvent::NotInstalled => a matches ResolveAction::Fail(e) && e.code
                    == codes::LIB_NOT_INSTALLED && e.message@ == error_text(
                    codes::LIB_NOT_INSTALLED,
                    not_installed_text(old(self).pending->0.dep.name@, old(self).carts_dir@),
                ),
                ResolveEvent::Failed(e0) => a == ResolveAction::Fail(e0),
                ResolveEvent::Loaded { manifest, checksum, commit } => {
                    let p = old(self).pending->0;
                    let version = manifest.package.version@;
                    let accepted = match p.dep.req {
                        Some(q) => requirement_met(q@, version),
                        None => true,
                    };
                    &&& !accepted ==> (a matches ResolveAction::Fail(e) && requirement_error(
                        p.dep.name@,
                        p.dep.req->0@,
                        version,
                        e,
                    ))
                    &&& accepted ==> {
                        &&& final(self).graph.packages@.len() == old(self).graph.packages@.len() + 1
                        &&& final(self).graph.packages@.drop_last() == old(self).graph.packages@
                        &&& package_for(p, version, checksum@, commit@, final(self).graph.packages@.last())
                        &&& final(self).seen@.len() == old(self).seen@.len() + 1
                        &&& final(self).reqs@ == old(self).reqs@.push(opt_chars(p.dep.req))
                        &&& exists|fr: Frame|
                            loaded_frame(fr, p.dep.name@, manifest) && final(self).lib_deps@ == old(
                                self,
                            ).lib_deps@.push(fr.deps@) && walked(
                                #[trigger] old(self).frames@.push(fr),
                                *final(self),
                                !(a is Done),
                            )
                        &&& match a {
                            ResolveAction::Load { name, dir, clone_url } => {
                                &&& final(self).pending matches Some(q)
                                &&& same_dep(q.dep, last_taken(*final(self)))
                                &&& !final(self).has_seen(q.dep.name@)
                                &&& !final(self).on_stack(q.dep.name@)
                                &&& q.dep.name@ == name@
                                &&& match q.source {
                                    DepSource::Path { dir: d } => d@ == dir@ && clone_url is None,
                                    DepSource::Git { dir: d, url } => d@ == dir@ && (
                                    clone_url matches Some(u) && u@ == url@),
                                }
                            },
                            ResolveAction::Done => final(self).is_done(),
                            ResolveAction::Fail(e) => failure_ok(*final(self), e),
                        }
                    }
                },
            },
    {
        let ghost before = *self;
        proof {
            lemma_stack_facts(before);
            assert(!before.has_seen(before.pending->0.dep.name@)) by {
                reveal(Resolver::pending_ok);
            }
            assert(before.graph.packages@.take(before.graph.packages@.len() as int) =~= before.graph.packages@);
        }
        let p = self.pending.take().unwrap();
        match event {
            ResolveEvent::NotInstalled => {
                let mut t = owned("lib '");
                push_str(&mut t, p.dep.name.as_str());
                push_str(&mut t, "' not installed in ");
                push_str(&mut t, self.carts_dir.as_str());
                ResolveAction::Fail(CartError::new(codes::LIB_NOT_INSTALLED, t.as_str()))
            },
            ResolveEvent::Failed(e) => ResolveAction::Fail(e),
            ResolveEvent::Loaded { manifest, checksum, commit } => {
                let CartManifest { package, dependencies, .. } = manifest;
                let version = package.version;
                if let Some(q) = &p.dep.req {
                    if let Err(e) = check_requirement(p.dep.name.as_str(), q.as_str(), version.as_str()) {
                        return ResolveAction::Fail(e);
                    }
                }
                let source = match &p.source {
                    DepSource::Path { dir } => LockedSource::Path { dir: dir.clone() },
                    DepSource::Git { dir: _, url } => LockedSource::Git { url: url.clone(), sha: commit },
                };
                let deps = deps_in_order(&dependencies);
                let pkg = ResolvedPackage { name: p.dep.name.clone(), version, source, checksum };
                let ghost gpkg = pkg;
                let fr = Frame { owner: Some(p.dep.name.clone()), deps, next: 0 };
                let ghost gfr = fr;
                self.graph.packages.push(pkg);
                self.seen.push(p.dep.name.clone());
                proof {
                    self.reqs = Ghost(self.reqs@.push(opt_chars(p.dep.req)));
                    self.lib_deps = Ghost(self.lib_deps@.push(gfr.deps@));
                }
                self.frames.push(fr);
                proof {
                    assert(self.frames@[0] == before.frames@[0]);
                    lemma_loaded(before, *self, p, gpkg, gfr);
                    assert(self.graph.packages@.drop_last() =~= before.graph.packages@);
                    assert(self.graph.packages@.take(before.graph.packages@.len() as int) =~= before.graph.packages@);
                }
                let ghost mid = self.frames@;
                let a = self.advance();
                proof {
                    assert(mid == before.frames@.push(gfr));
                    assert(loaded_frame(gfr, p.dep.name@, CartManifest { package: package, dependencies: dependencies, ..manifest }));
                }
                a
            },
        }
    }

    /// The resolved graph.
    pub fn finish(self) -> (g: ResolvedGraph)
        ensures
            g == self.graph,
    {
        self.graph
    }
}

} // verus!

verus! {

/// The dependency the project declares under `name`: its
/// `[dev-dependencies]` entry if there is one, else its `[dependencies]`
/// entry.
pub open spec fn project_dep(m: CartManifest, name: Seq<char>) -> Option<Dependency> {
    match lookup(m.dev_dependencies@, name) {
        Some(d) => Some(d),
        None => lookup(m.dependencies@, name),
    }
}

/// The project's dependencies as the walk takes them: in ascending name
/// order, each name once, each as `project_dep` gives it.
pub open spec fn project_deps_walked(m: CartManifest, d: Seq<DepRef>) -> bool {
    &&& forall|i: int, j: int| 0 <= i < j < d.len() ==> crate::text::chars_lt(#[trigger] d[i].name@, #[trigger] d[j].name@)
    &&& forall|j: int|
        0 <= j < d.len() ==> (project_dep(m, (#[trigger] d[j]).name@) matches Some(x) && describes(
            d[j],
            d[j].name@,
            x,
        ))
    &&& forall|name: Seq<char>| project_dep(m, name) is Some ==> exists|j: int| 0 <= j < d.len() && (#[trigger] d[j]).name@ == name
}

/// Merges the project's `[dependencies]` and `[dev-dependencies]`: a name
/// in both takes its dev entry.
fn project_deps(m: &CartManifest) -> (r: Vec<DepRef>)
    ensures
        project_deps_walked(*m, r@),
{
    let mut merged: NameMap<DepRef> = NameMap::new();
    let n = m.dependencies.len();
    let mut i: usize = 0;
    while i < n
        invariant
            n == m.dependencies@.len(),
            names_ascending(m.dependencies@),
            i <= n,
            forall|k: Seq<char>| #[trigger] lookup(merged@, k) matches Some(d) ==> d.name@ == k,
            forall|k: Seq<char>|
                (#[trigger] lookup(merged@, k)) is Some <==> exists|j: int| 0 <= j < i && m.dependencies@[j].0 == k,
            forall|j: int|
                0 <= j < i ==> (lookup(merged@, (#[trigger] m.dependencies@[j]).0) matches Some(d)
                    && describes(d, m.dependencies@[j].0, m.dependencies@[j].1)),
        decreases n - i,
    {
        let key = m.dependencies.name_at(i);
        let d = dep_ref(key.as_str(), m.dependencies.value_at(i));
        let ghost before = merged@;
        merged.insert(key.clone(), d);
        proof {
            assert forall|j: int| 0 <= j < i implies m.dependencies@[j].0 != m.dependencies@[i as int].0 by {
                assert(crate::text::chars_lt(m.dependencies@[j].0, m.dependencies@[i as int].0));
                crate::text::lemma_chars_lt_irreflexive(m.dependencies@[j].0);
            }
            assert forall|k: Seq<char>|
                (#[trigger] lookup(merged@, k)) is Some <==> exists|j: int| 0 <= j < i + 1 && m.dependencies@[j].0 == k by {
                if k == m.dependencies@[i as int].0 {
                    assert(0 <= i < i + 1 && m.dependencies@[i as int].0 == k);
                } else if lookup(before, k) is Some {
                    let j = choose|j: int| 0 <= j < i && m.dependencies@[j].0 == k;
                    assert(0 <= j < i + 1 && m.dependencies@[j].0 == k);
                }
            }
        }
        i = i + 1;
    }
    let ghost after_deps = merged@;
    let dn = m.dev_dependencies.len();
    let mut i: usize = 0;
    while i < dn
        invariant
            dn == m.dev_dependencies@.len(),
            n == m.dependencies@.len(),
            names_ascending(m.dev_dependencies@),
            i <= dn,
            forall|k: Seq<char>| #[trigger] lookup(merged@, k) matches Some(d) ==> d.name@ == k,
            forall|j: int|
                0 <= j < i ==> (lookup(merged@, (#[trigger] m.dev_dependencies@[j]).0) matches Some(d)
                    && describes(d, m.dev_dependencies@[j].0, m.dev_dependencies@[j].1)),
            forall|k: Seq<char>|
                (forall|j: int| 0 <= j < i ==> (#[trigger] m.dev_dependencies@[j]).0 != k) ==> lookup(merged@, k)
                    == lookup(after_deps, k),
            forall|k: Seq<char>|
                (#[trigger] lookup(after_deps, k)) is Some <==> exists|j: int| 0 <= j < n && m.dependencies@[j].0 == k,
            forall|j: int|
                0 <= j < n ==> (lookup(after_deps, (#[trigger] m.dependencies@[j]).0) matches Some(d)
                    && describes(d, m.dependencies@[j].0, m.dependencies@[j].1)),
            forall|k: Seq<char>| #[trigger] lookup(after_deps, k) matches Some(d) ==> d.name@ == k,
            forall|k: Seq<char>|
                (exists|j: int| 0 <= j < i && (#[trigger] m.dev_dependencies@[j]).0 == k) ==> lookup(merged@, k) is Some,
        decreases dn - i,
    {
        let key = m.dev_dependencies.name_at(i);
        let d = dep_ref(key.as_str(), m.dev_dependencies.value_at(i));
        merged.insert(key.clone(), d);
        proof {
            assert forall|j: int| 0 <= j < i implies m.dev_dependencies@[j].0 != m.dev_dependencies@[i as int].0 by {
                assert(crate::text::chars_lt(m.dev_dependencies@[j].0, m.dev_dependencies@[i as int].0));
                crate::text::lemma_chars_lt_irreflexive(m.dev_dependencies@[j].0);
            }
        }
        i = i + 1;
    }
    // every entry's value carries its name, so the values are ascending too
    let ghost mv = merged@;
    let len = merged.len();
    let r = merged.into_values();
    proof {
        assert forall|j: int| 0 <= j < mv.len() implies (#[trigger] r@[j]).name@ == mv[j].0 by {
            crate::namemap::lemma_lookup_at(mv, j);
        }
        assert forall|name: Seq<char>| (#[trigger] project_dep(*m, name)) is Some implies (lookup(mv, name) matches Some(d) && describes(d, name, project_dep(*m, name)->0)) by {
            match lookup(m.dev_dependencies@, name) {
                Some(x) => {
                    let j = choose|j: int| 0 <= j < m.dev_dependencies@.len() && m.dev_dependencies@[j].0 == name;
                    crate::namemap::lemma_lookup_at(m.dev_dependencies@, j);
                },
                None => {
                    assert(forall|j: int| 0 <= j < dn ==> (#[trigger] m.dev_dependencies@[j]).0 != name) by {
                        assert forall|j: int| 0 <= j < dn implies (#[trigger] m.dev_dependencies@[j]).0 != name by {
                            if m.dev_dependencies@[j].0 == name {
                                crate::namemap::lemma_lookup_at(m.dev_dependencies@, j);
                            }
                        }
                    }
                    if let Some(x) = lookup(m.dependencies@, name) {
                        let j = choose|j: int| 0 <= j < m.dependencies@.len() && m.dependencies@[j].0 == name;
                        crate::namemap::lemma_lookup_at(m.dependencies@, j);
                    }
                },
            }
        }
        assert forall|j: int| 0 <= j < r@.len() implies (project_dep(*m, (#[trigger] r@[j]).name@) matches Some(x) && describes(
            r@[j],
            r@[j].name@,
            x,
        )) by {
            let name = mv[j].0;
            crate::namemap::lemma_lookup_at(mv, j);
            if exists|t: int| 0 <= t < dn && (#[trigger] m.dev_dependencies@[t]).0 == name {
                let t = choose|t: int| 0 <= t < dn && (#[trigger] m.dev_dependencies@[t]).0 == name;
                crate::namemap::lemma_lookup_at(m.dev_dependencies@, t);
            } else {
                assert(lookup(mv, name) == lookup(after_deps, name));
                let t = choose|t: int| 0 <= t < n && m.dependencies@[t].0 == name;
                crate::namemap::lemma_lookup_at(m.dependencies@, t);
                if lookup(m.dev_dependencies@, name) is Some {
                    let u = choose|u: int| 0 <= u < dn && m.dev_dependencies@[u].0 == name;
                    assert(m.dev_dependencies@[u].0 == name);
                }
            }
        }
        assert forall|name: Seq<char>| project_dep(*m, name) is Some implies exists|j: int| 0 <= j < r@.len() && (#[trigger] r@[j]).name@ == name by {
            assert(lookup(mv, name) is Some);
            let j = choose|j: int| 0 <= j < mv.len() && mv[j].0 == name;
            assert(r@[j].name@ == name);
        }
    }
    r
}

/// Start resolving the dependencies of the project `manifest` (its
/// `[dependencies]` and `[dev-dependencies]`), with libs installed under
/// `carts_dir`. A dependency must name a `git` URL or a `path`, so the
/// registry's `default_git_base` plays no part here.
pub fn resolve(manifest: &CartManifest, carts_dir: &str, default_git_base: Option<&str>) -> (r: (
    Resolver,
    ResolveAction,
))
    ensures
        r.0.carts_dir@ == carts_dir@,
        r.0.frames@.len() == 1,
        r.0.frames@[0].owner is None,
        project_deps_walked(*manifest, r.0.frames@[0].deps@),
        r.0.graph.packages@.len() == 0,
        r.0.seen@.len() == 0,
        r.1 !is Fail ==> r.0.wf(),
        r.1 is Done <==> r.0.frames@[0].deps@.len() == 0,
        r.1 is Done <==> (forall|name: Seq<char>| project_dep(*manifest, name) is None),
        !(r.1 is Done) ==> r.0.frames@[0].next == 1,
        match r.1 {
            ResolveAction::Load { name, dir, clone_url } => {
                &&& r.0.pending matches Some(p)
                &&& same_dep(p.dep, r.0.frames@[0].deps@[0])
                &&& p.dep.name@ == name@
                &&& match p.source {
                    DepSource::Path { dir: d } => d@ == dir@ && clone_url is None,
                    DepSource::Git { dir: d, url } => d@ == dir@ && (clone_url matches Some(u)
                        && u@ == url@),
                }
            },
            ResolveAction::Done => r.0.is_done(),
            ResolveAction::Fail(e) => {
                let d = r.0.frames@[0].deps@[0];
                &&& failure_ok(r.0, e)
                &&& opt_chars(d.path) is None
                &&& opt_chars(d.git) is None
                &&& e.code == codes::DEP_RESOLUTION
                &&& e.message@ == error_text(codes::DEP_RESOLUTION, no_source_text(d.name@))
            },
        },
{
    let deps = project_deps(manifest);
    let mut frames: Vec<Frame> = Vec::new();
    frames.push(Frame { owner: None, deps, next: 0 });
    let mut resolver = Resolver {
        carts_dir: owned(carts_dir),
        frames,
        seen: Vec::new(),
        graph: ResolvedGraph::new(),
        pending: None,
        reqs: Ghost(Seq::empty()),
        lib_deps: Ghost(Seq::empty()),
    };
    proof {
        reveal(Resolver::stack_ok);
        reveal(Resolver::graph_ok);
        reveal(Resolver::covered);
        reveal(Resolver::pending_ok);
        assert(resolver.frame_covered(0, false));
    }
    let ghost o = resolver.frames@;
    let action = resolver.advance();
    proof {
        lemma_first_step(*manifest, o, resolver, !(action is Done));
    }
    (resolver, action)
}

/// The first step of a walk from the project alone, with nothing resolved:
/// no dependency can be passed over, so the walk stops at the project's
/// first dependency, or, when there is none, is complete.
proof fn lemma_first_step(m: CartManifest, o: Seq<Frame>, r: Resolver, t: bool)
    requires
        o.len() == 1,
        o[0].next == 0,
        r.seen@.len() == 0,
        walked(o, r, t),
        project_deps_walked(m, o[0].deps@),
    ensures
        r.frames@.len() == 1,
        r.frames@[0].owner == o[0].owner,
        r.frames@[0].deps == o[0].deps,
        r.frames@[0].next == (if t { 1int } else { 0int }),
        forall|name: Seq<char>| !r.on_stack(name),
        forall|name: Seq<char>| !r.has_seen(name),
        (o[0].deps@.len() == 0) <==> (forall|name: Seq<char>| project_dep(m, name) is None),
{
    let f0 = r.frames@[0];
    assert(r.frames@.len() == 1);
    if f0.next > (if t { 1int } else { 0int }) {
        assert(passed_over(r, o, 0, o[0].deps@[0]));
    }
    if o[0].deps@.len() > 0 {
        assert(project_dep(m, o[0].deps@[0].name@) is Some);
    }
    if exists|name: Seq<char>| project_dep(m, name) is Some {
        let name = choose|name: Seq<char>| project_dep(m, name) is Some;
        let j = choose|j: int| 0 <= j < o[0].deps@.len() && (#[trigger] o[0].deps@[j]).name@ == name;
    }
}

/// When the walk completes, the graph holds each name once, and it
/// satisfies every dependency of the project and every dependency of every
/// resolved lib (as `lib_deps` records them from the loaded manifests): it
/// holds a package of that name at a version that meets that entry's
/// requirement.
pub proof fn lemma_done_graph_sound(r: Resolver)
    requires
        r.wf(),
        r.is_done(),
    ensures
        forall|k: int, l: int|
            0 <= k < l < r.graph.packages@.len() ==> (#[trigger] r.graph.packages@[k]).name@
                != (#[trigger] r.graph.packages@[l]).name@,
        forall|k: int|
            0 <= k < r.graph.packages@.len() ==> match #[trigger] r.reqs@[k] {
                Some(q) => semver_matches(q, r.graph.packages@[k].version@),
                None => true,
            },
        forall|j: int|
            0 <= j < r.frames@[0].deps@.len() ==> r.graph.satisfies(#[trigger] r.frames@[0].deps@[j]),
        forall|k: int, d: int|
            0 <= k < r.graph.packages@.len() && 0 <= d < r.lib_deps@[k].len() ==> r.graph.satisfies(#[trigger] r.lib_deps@[k][d]),
{
    lemma_done_distinct(r);
    lemma_done_requirements(r);
    lemma_done_root_covered(r);
    lemma_done_closed(r);
}

proof fn lemma_done_distinct(r: Resolver)
    requires
        r.graph_ok(),
    ensures
        forall|k: int, l: int|
            0 <= k < l < r.graph.packages@.len() ==> (#[trigger] r.graph.packages@[k]).name@
                != (#[trigger] r.graph.packages@[l]).name@,
{
    reveal(Resolver::graph_ok);
    assert forall|k: int, l: int|
        0 <= k < l < r.graph.packages@.len() implies (#[trigger] r.graph.packages@[k]).name@
            != (#[trigger] r.graph.packages@[l]).name@ by {
        assert(r.seen@[k]@ != r.seen@[l]@);
    }
}

proof fn lemma_done_requirements(r: Resolver)
    requires
        r.graph_ok(),
    ensures
        forall|k: int|
            0 <= k < r.graph.packages@.len() ==> match #[trigger] r.reqs@[k] {
                Some(q) => semver_matches(q, r.graph.packages@[k].version@),
                None => true,
            },
{
    reveal(Resolver::graph_ok);
}

/// A met dependency is satisfied by the graph.
proof fn lemma_met_satisfied(r: Resolver, d: DepRef)
    requires
        r.graph_ok(),
        r.dep_met(d),
    ensures
        r.graph.satisfies(d),
{
    reveal(Resolver::graph_ok);
    let k = r.seen_index(d.name@);
    lemma_seen_index(r, k);
    assert(r.graph.packages@[k].name@ == r.seen@[k]@);
}

proof fn lemma_done_root_covered(r: Resolver)
    requires
        r.graph_ok(),
        r.covered(false),
        r.is_done(),
    ensures
        forall|j: int|
            0 <= j < r.frames@[0].deps@.len() ==> r.graph.satisfies(#[trigger] r.frames@[0].deps@[j]),
{
    reveal(Resolver::covered);
    assert(r.frame_covered(0, false));
    assert forall|j: int|
        0 <= j < r.frames@[0].deps@.len() implies r.graph.satisfies(#[trigger] r.frames@[0].deps@[j]) by {
        lemma_met_satisfied(r, r.frames@[0].deps@[j]);
    }
}

proof fn lemma_done_closed(r: Resolver)
    requires
        r.graph_ok(),
        r.is_done(),
    ensures
        forall|k: int, d: int|
            0 <= k < r.graph.packages@.len() && 0 <= d < r.lib_deps@[k].len() ==> r.graph.satisfies(#[trigger] r.lib_deps@[k][d]),
{
    assert forall|k: int, d: int|
        0 <= k < r.graph.packages@.len() && 0 <= d < r.lib_deps@[k].len() implies r.graph.satisfies(#[trigger] r.lib_deps@[k][d]) by {
        reveal(Resolver::graph_ok);
        assert(!r.on_stack(r.seen@[k]@));
        assert(r.dep_met(r.lib_deps@[k][d]));
        lemma_met_satisfied(r, r.lib_deps@[k][d]);
    }
}

/// Each lib on the stack is a dependency of the lib below it (the project
/// at the bottom): a cycle error, which names a lib on the stack, names
/// one that depends, through the libs above it, on itself.
pub proof fn lemma_stack_is_dependency_chain(r: Resolver)
    requires
        r.stack_ok(),
    ensures
        forall|i: int|
            1 <= i < r.frames@.len() ==> r.frames@[i - 1].next >= 1 && (#[trigger] r.frames@[i]).owner->0@
                == r.frames@[i - 1].deps@[r.frames@[i - 1].next - 1].name@,
{
    reveal(Resolver::stack_ok);
}

/// Walking a lib's dependencies only appends to the graph, with packages
/// of new, distinct names, and keeps the resolved names equal to the
/// graph's names: from any state `before` of a resolution to any later
/// state `after` whose graph extends it (as each `handle` ensures), the
/// names resolved in `after` are its packages' names in order, each once;
/// each package added names a lib that was not resolved in `before`; and
/// every name resolved in `before` is still resolved.
pub proof fn lemma_walk_extends_graph(before: Resolver, after: Resolver)
    requires
        before.wf(),
        after.wf(),
        before.graph.packages@.len() <= after.graph.packages@.len(),
        after.graph.packages@.take(before.graph.packages@.len() as int) == before.graph.packages@,
    ensures
        after.seen@.len() == after.graph.packages@.len(),
        forall|k: int| 0 <= k < after.seen@.len() ==> (#[trigger] after.seen@[k])@ == after.graph.packages@[k].name@,
        forall|k: int, l: int|
            0 <= k < l < after.graph.packages@.len() ==> (#[trigger] after.graph.packages@[k]).name@
                != (#[trigger] after.graph.packages@[l]).name@,
        forall|k: int|
            before.graph.packages@.len() <= k < after.graph.packages@.len() ==> !before.has_seen(
                (#[trigger] after.graph.packages@[k]).name@,
            ),
        forall|x: Seq<char>| before.has_seen(x) ==> after.has_seen(x),
        forall|x: Seq<char>| after.has_seen(x) <==> after.graph.has_package(x),
{
    reveal(Resolver::graph_ok);
    lemma_done_distinct(after);
    let n0 = before.graph.packages@.len();
    assert forall|k: int| 0 <= k < n0 implies (#[trigger] after.graph.packages@[k]) == before.graph.packages@[k] by {
        assert(after.graph.packages@.take(n0 as int)[k] == after.graph.packages@[k]);
    }
    assert forall|k: int|
        n0 <= k < after.graph.packages@.len() implies !before.has_seen((#[trigger] after.graph.packages@[k]).name@) by {
        if before.has_seen(after.graph.packages@[k].name@) {
            let j = choose|j: int| 0 <= j < before.seen@.len() && (#[trigger] before.seen@[j])@ == after.graph.packages@[k].name@;
            assert(after.graph.packages@[j] == before.graph.packages@[j]);
            assert(after.graph.packages@[j].name@ != after.graph.packages@[k].name@);
        }
    }
    assert forall|x: Seq<char>| before.has_seen(x) implies after.has_seen(x) by {
        let j = choose|j: int| 0 <= j < before.seen@.len() && (#[trigger] before.seen@[j])@ == x;
        assert(after.graph.packages@[j] == before.graph.packages@[j]);
        assert(after.seen@[j]@ == x);
    }
    assert forall|x: Seq<char>| after.has_seen(x) <==> after.graph.has_package(x) by {
        if after.has_seen(x) {
            let j = choose|j: int| 0 <= j < after.seen@.len() && (#[trigger] after.seen@[j])@ == x;
            assert(after.graph.packages@[j].name@ == x);
        }
        if after.graph.has_package(x) {
            let j = choose|j: int| 0 <= j < after.graph.packages@.len() && (#[trigger] after.graph.packages@[j]).name@ == x;
            assert(after.seen@[j]@ == x);
        }
    }
}

/// A lockfile written from the graph of a finished resolution is fresh
/// for that graph: a `--frozen` build that resolves the same graph accepts
/// the `Cart.lock` that the previous build wrote.
pub proof fn lemma_resolved_lock_is_fresh(r: Resolver, lock: CartLock)
    requires
        r.wf(),
        r.is_done(),
        lock.package@.len() == r.graph.packages@.len(),
        forall|i: int| 0 <= i < r.graph.packages@.len() ==> entry_is(#[trigger] lock.package@[i], r.graph.packages@[i]),
    ensures
        lock.fresh_for(r.graph),
{
    lemma_done_graph_sound(r);
    lemma_updated_lock_is_fresh(lock, r.graph);
}

} // verus!
