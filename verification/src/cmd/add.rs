//! `cart add`: the entry `cart add` writes into the `[dependencies]` of
//! Cart.toml, and the lib it then installs.

use vstd::prelude::*;
use crate::diagnostics::codes;
use crate::error::{error_text, CartError};
use crate::manifest::{opt_chars, opt_str_chars, to_opt_string, CartManifest, Dependency, DetailedDependency};
use crate::namemap::lookup;
use crate::registry::{url_only, GitSource};
use crate::resolver::no_source_text;
use crate::text::{owned, push_str};

verus! {

/// The entry for a lib added with `--git` (keeping `--version`) or else
/// with `--path`: no branch, tag, rev or features, not optional, default
/// features on.
pub open spec fn added_dependency(d: Dependency, git: Option<Seq<char>>, path: Option<Seq<char>>, version: Option<Seq<char>>) -> bool {
    match d {
        Dependency::Detailed(x) => {
            &&& x.branch is None
            &&& x.tag is None
            &&& x.rev is None
            &&& x.features@.len() == 0
            &&& !x.optional
            &&& x.default_features
            &&& match git {
                Some(u) => opt_chars(x.git) == Some(u) && opt_chars(x.version) == version && x.path is None,
                None => opt_chars(x.path) == path && x.git is None && x.version is None,
            }
        },
        Dependency::Simple(_) => false,
    }
}

fn detailed(version: Option<String>, git: Option<String>, path: Option<String>) -> (r: Dependency)
    ensures
        r matches Dependency::Detailed(x) && opt_chars(x.version) == opt_chars(version) && opt_chars(x.git)
            == opt_chars(git) && opt_chars(x.path) == opt_chars(path) && x.branch is None && x.tag is None
            && x.rev is None && x.features@.len() == 0 && !x.optional && x.default_features,
{
    Dependency::Detailed(
        DetailedDependency {
            version,
            git,
            branch: None,
            tag: None,
            rev: None,
            path,
            features: Vec::new(),
            optional: false,
            default_features: true,
        },
    )
}

/// Add lib `name` to the manifest's dependencies, replacing an entry of
/// that name. A lib must come from `--git` or `--path`; without either the
/// manifest is left as it was and E504 is returned. With `--git` the
/// source to install is returned.
pub fn add(manifest: &mut CartManifest, name: &str, git: Option<&str>, path: Option<&str>, version: Option<&str>) -> (r: Result<Option<GitSource>, CartError>)
    ensures
        git is None && path is None ==> (r matches Err(e) && e.code == codes::DEP_RESOLUTION
            && e.message@ == error_text(codes::DEP_RESOLUTION, no_source_text(name@))
            && *final(manifest) == *old(manifest)),
        git is Some || path is Some ==> {
            &&& r is Ok
            &&& lookup(final(manifest).dependencies@, name@) matches Some(d) && added_dependency(
                d,
                opt_str_chars(git),
                opt_str_chars(path),
                opt_str_chars(version),
            )
            &&& forall|k: Seq<char>|
                k != name@ ==> lookup(final(manifest).dependencies@, k) == lookup(
                    old(manifest).dependencies@,
                    k,
                )
            &&& final(manifest).package == old(manifest).package
            &&& final(manifest).lib == old(manifest).lib
            &&& final(manifest).rom == old(manifest).rom
            &&& final(manifest).dev_dependencies == old(manifest).dev_dependencies
            &&& final(manifest).target == old(manifest).target
            &&& final(manifest).features == old(manifest).features
            &&& final(manifest).run == old(manifest).run
            &&& final(manifest).test == old(manifest).test
            &&& final(manifest).doc == old(manifest).doc
        },
        match r {
            Ok(Some(s)) => git matches Some(u) && url_only(s, u@),
            Ok(None) => git is None,
            Err(_) => git is None && path is None,
        },
{
    let (dep, install) = match git {
        Some(u) => (
            detailed(to_opt_string(version), Some(owned(u)), None),
            Some(GitSource { url: owned(u), branch: None, tag: None, rev: None }),
        ),
        None => match path {
            Some(p) => (detailed(None, None, Some(owned(p))), None),
            None => {
                let mut t = owned("dependency '");
                push_str(&mut t, name);
                push_str(&mut t, "' must specify `git` or `path`");
                return Err(CartError::new(codes::DEP_RESOLUTION, t.as_str()));
            },
        },
    };
    manifest.dependencies.insert(owned(name), dep);
    Ok(install)
}

/// A lib added with `--git` or `--path` is one the resolver can locate:
/// it never meets the E504 of a dependency with neither.
pub proof fn lemma_added_dependency_located(d: Dependency, git: Option<Seq<char>>, path: Option<Seq<char>>, version: Option<Seq<char>>)
    requires
        added_dependency(d, git, path, version),
        git is Some || path is Some,
    ensures
        d.path_spec() is Some || d.git_spec() is Some,
{
}

} // verus!
