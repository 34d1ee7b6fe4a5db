//! Git-based registry for lib installation.
//!
//! The registry uses git only. `cart install` clones a lib repository into
//! `~/.carts/<name>/`; `cart update` fetches the latest changes. This
//! module decides what to do; performing the git operations is the
//! caller's part.

use vstd::prelude::*;
use crate::diagnostics::codes;
use crate::error::{error_text, CartError};
use crate::manifest::{clone_opt, opt_chars, opt_str_chars, Dependency};
use crate::text::{join_path, join_path_spec, owned, push_str};

verus! {

/// The source specification for a lib.
#[derive(Debug)]
pub struct GitSource {
    pub url: String,
    pub branch: Option<String>,
    pub tag: Option<String>,
    pub rev: Option<String>,
}

/// Result of an install or update operation: the clone's path and the
/// commit that HEAD points at once the plan's steps have run.
#[derive(Debug)]
pub struct InstallResult {
    pub path: String,
    pub sha: String,
}

/// One git operation.
#[derive(Debug)]
pub enum GitStep {
    /// Clone `url` into `dest`, checking out `branch` if given.
    Clone { url: String, dest: String, branch: Option<String> },
    /// Open the repository at `dest` and fetch `refs/heads/*` from `origin`.
    Fetch { dest: String },
    /// Check out branch `refs/heads/<name>` and point HEAD at it.
    CheckoutBranch { name: String },
    /// Check out the tree of tag `name` and detach HEAD at its commit.
    CheckoutTag { name: String },
    /// Check out the tree of revision `name` and detach HEAD at its commit.
    CheckoutRev { name: String },
}

/// What the caller is to do to install or update a lib: the steps in
/// order. Once they have run, HEAD of `dest` is at the commit that `head`
/// names (a ref or revision), or, when `head` is `None`, where the clone or
/// the previous checkout left it; that commit is the sha of the result.
#[derive(Debug)]
pub struct InstallPlan {
    pub dest: String,
    pub steps: Vec<GitStep>,
    pub head: Option<String>,
}

/// The URL `<base>/<name>`.
pub open spec fn base_url(base: Seq<char>, name: Seq<char>) -> Seq<char> {
    base + "/"@ + name
}

/// The text of the error when no URL can be formed.
pub open spec fn no_url_text(name: Seq<char>) -> Seq<char> {
    "no git URL for '"@ + name + "' and no default-git-base"@
}

/// A source with only a URL.
pub open spec fn url_only(s: GitSource, url: Seq<char>) -> bool {
    s.url@ == url && s.branch is None && s.tag is None && s.rev is None
}

fn base_source(name: &str, default_git_base: Option<&str>) -> (r: Result<GitSource, CartError>)
    ensures
        match default_git_base {
            Some(b) => r matches Ok(s) && url_only(s, base_url(b@, name@)),
            None => r matches Err(e) && e.code == codes::GIT_FAILURE && e.message@ == error_text(
                codes::GIT_FAILURE,
                no_url_text(name@),
            ),
        },
{
    match default_git_base {
        Some(base) => {
            let mut url = owned(base);
            push_str(&mut url, "/");
            push_str(&mut url, name);
            Ok(GitSource { url, branch: None, tag: None, rev: None })
        },
        None => {
            let mut t = owned("no git URL for '");
            push_str(&mut t, name);
            push_str(&mut t, "' and no default-git-base");
            Err(CartError::new(codes::GIT_FAILURE, t.as_str()))
        },
    }
}

/// The outcome of resolving the git source of dependency `dep` named
/// `name`: a `git` URL with its branch, tag and rev; a path dependency has
/// none (E510); any other dependency uses `<base>/<name>`, and E510 when
/// there is no base.
pub open spec fn source_outcome(name: Seq<char>, dep: Dependency, default_git_base: Option<Seq<char>>, r: Result<GitSource, CartError>) -> bool {
    match dep {
        Dependency::Detailed(d) if d.git is Some => r matches Ok(s) && s.url@ == d.git->0@
            && opt_chars(s.branch) == opt_chars(d.branch) && opt_chars(s.tag) == opt_chars(d.tag)
            && opt_chars(s.rev) == opt_chars(d.rev),
        Dependency::Detailed(d) if d.path is Some => r matches Err(e) && e.code
            == codes::GIT_FAILURE && e.message@ == error_text(
            codes::GIT_FAILURE,
            "path dependencies do not use git clone"@,
        ),
        _ => match default_git_base {
            Some(b) => r matches Ok(s) && url_only(s, base_url(b, name)),
            None => r matches Err(e) && e.code == codes::GIT_FAILURE && e.message@ == error_text(
                codes::GIT_FAILURE,
                no_url_text(name),
            ),
        },
    }
}

/// Resolve the git source from a dependency and an optional default git
/// base URL (see `source_outcome`).
pub fn resolve_source(name: &str, dep: &Dependency, default_git_base: Option<&str>) -> (r: Result<
    GitSource,
    CartError,
>)
    ensures
        source_outcome(name@, *dep, opt_str_chars(default_git_base), r),
{
    match dep {
        Dependency::Simple(_) => base_source(name, default_git_base),
        Dependency::Detailed(d) => {
            if let Some(url) = &d.git {
                Ok(
                    GitSource {
                        url: url.clone(),
                        branch: clone_opt(&d.branch),
                        tag: clone_opt(&d.tag),
                        rev: clone_opt(&d.rev),
                    },
                )
            } else if d.path.is_some() {
                Err(CartError::new(codes::GIT_FAILURE, "path dependencies do not use git clone"))
            } else {
                base_source(name, default_git_base)
            }
        },
    }
}

/// The steps of a fresh clone: clone (on the branch, if any), then check
/// out the tag, then the rev, when given.
pub open spec fn clone_steps_ok(source: GitSource, dest: Seq<char>, steps: Seq<GitStep>) -> bool {
    let tail1: Seq<GitStep> = steps.skip(1);
    &&& steps.len() >= 1
    &&& steps[0] matches GitStep::Clone { url, dest: d, branch } && url@ == source.url@ && d@ == dest
        && opt_chars(branch) == opt_chars(source.branch)
    &&& steps.len() == 1 + (if source.tag is Some { 1int } else { 0 }) + (if source.rev is Some { 1int } else { 0 })
    &&& source.tag matches Some(t) ==> (steps[1] matches GitStep::CheckoutTag { name } && name@ == t@)
    &&& source.rev matches Some(v) ==> (steps.last() matches GitStep::CheckoutRev { name } && name@ == v@)
}

/// The steps of an update: fetch, then check out the branch, or else the
/// tag, or else the rev, whichever is given first.
pub open spec fn update_steps_ok(source: GitSource, dest: Seq<char>, steps: Seq<GitStep>) -> bool {
    &&& steps.len() >= 1
    &&& steps[0] matches GitStep::Fetch { dest: d } && d@ == dest
    &&& match (source.branch, source.tag, source.rev) {
        (Some(b), _, _) => steps.len() == 2 && (steps[1] matches GitStep::CheckoutBranch { name } && name@ == b@),
        (None, Some(t), _) => steps.len() == 2 && (steps[1] matches GitStep::CheckoutTag { name } && name@ == t@),
        (None, None, Some(v)) => steps.len() == 2 && (steps[1] matches GitStep::CheckoutRev { name } && name@ == v@),
        (None, None, None) => steps.len() == 1,
    }
}

/// The ref whose commit HEAD is at after a fresh clone: the rev, else the
/// tag; none when HEAD stays at the tip of the cloned branch.
pub open spec fn clone_head(source: GitSource) -> Option<Seq<char>> {
    match (source.tag, source.rev) {
        (_, Some(v)) => Some(v@),
        (Some(t), None) => Some(t@),
        (None, None) => None,
    }
}

/// The ref whose commit HEAD is at after an update: the branch (as
/// `refs/heads/<branch>`), else the tag, else the rev; none when nothing is
/// checked out and HEAD stays where it was.
pub open spec fn update_head(source: GitSource) -> Option<Seq<char>> {
    match (source.branch, source.tag, source.rev) {
        (Some(b), _, _) => Some("refs/heads/"@ + b@),
        (None, Some(t), _) => Some(t@),
        (None, None, Some(v)) => Some(v@),
        (None, None, None) => None,
    }
}

fn clone_head_ref(source: &GitSource) -> (r: Option<String>)
    ensures
        opt_chars(r) == clone_head(*source),
{
    if let Some(v) = &source.rev {
        Some(v.clone())
    } else {
        clone_opt(&source.tag)
    }
}

fn update_head_ref(source: &GitSource) -> (r: Option<String>)
    ensures
        opt_chars(r) == update_head(*source),
{
    if let Some(b) = &source.branch {
        let mut refname = owned("refs/heads/");
        push_str(&mut refname, b.as_str());
        Some(refname)
    } else if let Some(t) = &source.tag {
        Some(t.clone())
    } else {
        clone_opt(&source.rev)
    }
}

fn clone_steps(source: &GitSource, dest: &str) -> (r: Vec<GitStep>)
    ensures
        clone_steps_ok(*source, dest@, r@),
{
    let mut steps: Vec<GitStep> = Vec::new();
    steps.push(GitStep::Clone { url: source.url.clone(), dest: owned(dest), branch: clone_opt(&source.branch) });
    if let Some(t) = &source.tag {
        steps.push(GitStep::CheckoutTag { name: t.clone() });
    }
    if let Some(v) = &source.rev {
        steps.push(GitStep::CheckoutRev { name: v.clone() });
    }
    steps
}

fn update_steps(source: &GitSource, dest: &str) -> (r: Vec<GitStep>)
    ensures
        update_steps_ok(*source, dest@, r@),
{
    let mut steps: Vec<GitStep> = Vec::new();
    steps.push(GitStep::Fetch { dest: owned(dest) });
    if let Some(b) = &source.branch {
        steps.push(GitStep::CheckoutBranch { name: b.clone() });
    } else if let Some(t) = &source.tag {
        steps.push(GitStep::CheckoutTag { name: t.clone() });
    } else if let Some(v) = &source.rev {
        steps.push(GitStep::CheckoutRev { name: v.clone() });
    }
    steps
}

/// The ref a checkout step moves HEAD to, as `update_head` and
/// `clone_head` name refs; none for a clone or a fetch.
pub open spec fn checked_out_ref(step: GitStep) -> Option<Seq<char>> {
    match step {
        GitStep::CheckoutBranch { name } => Some("refs/heads/"@ + name@),
        GitStep::CheckoutTag { name } => Some(name@),
        GitStep::CheckoutRev { name } => Some(name@),
        _ => None,
    }
}

/// Whether a source pins a branch, a tag or a rev.
pub open spec fn pins_a_ref(source: GitSource) -> bool {
    source.branch is Some || source.tag is Some || source.rev is Some
}

/// An update fetches, then, when the source pins a branch, a tag or a
/// rev, checks out exactly one of them (the branch before the tag before
/// the rev), and HEAD ends at the ref checked out; a source that pins
/// nothing is only fetched. In particular a lib pinned only by a rev has
/// that rev checked out after the fetch.
pub proof fn lemma_update_checks_out_the_pinned_ref(source: GitSource, dest: Seq<char>, steps: Seq<GitStep>, head: Option<Seq<char>>)
    requires
        update_steps_ok(source, dest, steps),
        head == update_head(source),
    ensures
        (steps[0] matches GitStep::Fetch { dest: d } && d@ == dest),
        pins_a_ref(source) ==> steps.len() == 2 && checked_out_ref(steps[1]) is Some && head
            == checked_out_ref(steps[1]),
        (!pins_a_ref(source) ==> steps.len() == 1 && head is None),
        (source.branch matches Some(b) ==> head == Some("refs/heads/"@ + b@)),
        (source.branch is None && source.tag is Some ==> head == Some(source.tag->0@)),
        (source.branch is None && source.tag is None && source.rev is Some ==> (steps[1] matches GitStep::CheckoutRev { name } && name@ == source.rev->0@) && head == Some(source.rev->0@)),
{
}

/// A fresh clone checks out the branch it names, then each of the tag and
/// the rev that the source pins, the rev last; HEAD ends at the last ref
/// checked out, or at the tip of the cloned branch when none is.
pub proof fn lemma_clone_checks_out_the_pinned_refs(source: GitSource, dest: Seq<char>, steps: Seq<GitStep>, head: Option<Seq<char>>)
    requires
        clone_steps_ok(source, dest, steps),
        head == clone_head(source),
    ensures
        (steps[0] matches GitStep::Clone { url, dest: d, branch } && url@ == source.url@ && d@ == dest),
        (forall|i: int| 1 <= i < steps.len() ==> (#[trigger] checked_out_ref(steps[i])) is Some),
        (steps.len() == 1 <==> (source.tag is None && source.rev is None)),
        (steps.len() > 1 ==> head == checked_out_ref(steps.last())),
        (steps.len() == 1 ==> head is None),
        (source.tag matches Some(t) ==> exists|i: int| 1 <= i < steps.len() && (#[trigger] steps[i] matches GitStep::CheckoutTag { name } && name@ == t@)),
        (source.rev matches Some(v) ==> (steps.last() matches GitStep::CheckoutRev { name } && name@ == v@) && head == Some(v@)),
{
    if source.tag is Some {
        assert(1 < steps.len());
    }
}

/// Install a lib from a git source into `<carts_dir>/<name>`: clone it, or,
/// when the directory already exists, update it instead.
pub fn install(name: &str, source: &GitSource, carts_dir: &str, dest_exists: bool) -> (r: InstallPlan)
    ensures
        r.dest@ == join_path_spec(carts_dir@, name@),
        dest_exists ==> update_steps_ok(*source, r.dest@, r.steps@),
        !dest_exists ==> clone_steps_ok(*source, r.dest@, r.steps@),
        dest_exists ==> opt_chars(r.head) == update_head(*source),
        !dest_exists ==> opt_chars(r.head) == clone_head(*source),
        (dest_exists && pins_a_ref(*source) ==> r.steps@.len() == 2 && checked_out_ref(r.steps@[1]) is Some
            && opt_chars(r.head) == checked_out_ref(r.steps@[1])),
        (!dest_exists && source.rev is Some ==> (r.steps@.last() matches GitStep::CheckoutRev { name }
            && name@ == source.rev->0@) && opt_chars(r.head) == Some(source.rev->0@)),
{
    let dest = join_path(carts_dir, name);
    if dest_exists {
        let steps = update_steps(source, dest.as_str());
        InstallPlan { dest, steps, head: update_head_ref(source) }
    } else {
        let steps = clone_steps(source, dest.as_str());
        InstallPlan { dest, steps, head: clone_head_ref(source) }
    }
}

/// The text of the error for updating a lib that is not installed.
pub open spec fn not_found_text(name: Seq<char>, carts_dir: Seq<char>) -> Seq<char> {
    "lib '"@ + name + "' not found in "@ + carts_dir
}

/// Update a lib in `<carts_dir>/<name>` by fetching and checking out the
/// resolved ref; E510 when the lib is not installed.
pub fn update(name: &str, source: &GitSource, carts_dir: &str, dest_exists: bool) -> (r: Result<
    InstallPlan,
    CartError,
>)
    ensures
        dest_exists ==> (r matches Ok(p) && p.dest@ == join_path_spec(carts_dir@, name@)
            && update_steps_ok(*source, p.dest@, p.steps@) && opt_chars(p.head) == update_head(
            *source,
        )),
        dest_exists && pins_a_ref(*source) ==> (r matches Ok(p) && p.steps@.len() == 2 && checked_out_ref(
            p.steps@[1],
        ) is Some && opt_chars(p.head) == checked_out_ref(p.steps@[1])),
        (dest_exists && source.branch is None && source.tag is None && source.rev is Some ==> (r matches Ok(p)
            && (p.steps@[1] matches GitStep::CheckoutRev { name } && name@ == source.rev->0@) && opt_chars(p.head)
            == Some(source.rev->0@))),
        !dest_exists ==> (r matches Err(e) && e.code == codes::GIT_FAILURE && e.message@
            == error_text(codes::GIT_FAILURE, not_found_text(name@, carts_dir@))),
{
    if !dest_exists {
        let mut t = owned("lib '");
        push_str(&mut t, name);
        push_str(&mut t, "' not found in ");
        push_str(&mut t, carts_dir);
        return Err(CartError::new(codes::GIT_FAILURE, t.as_str()));
    }
    let dest = join_path(carts_dir, name);
    let steps = update_steps(source, dest.as_str());
    Ok(InstallPlan { dest, steps, head: update_head_ref(source) })
}

} // verus!
