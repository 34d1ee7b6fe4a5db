//! `cart update`: what is fetched for each dependency before the graph is
//! resolved again and the lockfile rewritten.

use vstd::prelude::*;
use crate::error::CartError;
use crate::manifest::{opt_str_chars, CartManifest, Dependency};
use crate::registry::{resolve_source, source_outcome, GitSource};

verus! {

/// What `cart update` does for one dependency.
#[derive(Debug)]
pub enum UpdateStep {
    /// A path dependency: there is nothing to fetch.
    Skip { name: String },
    /// Fetch the lib's clone and check out `source`; a failure is reported
    /// and the update goes on.
    Fetch { name: String, source: GitSource },
    /// The dependency's source could not be resolved: the command stops
    /// with `error`.
    Abort { error: CartError },
}

/// The step for dependency `dep` named `name`.
pub open spec fn step_ok(st: UpdateStep, name: Seq<char>, dep: Dependency, base: Option<Seq<char>>) -> bool {
    if dep.path_spec() is Some {
        st matches UpdateStep::Skip { name: n } && n@ == name
    } else {
        match st {
            UpdateStep::Fetch { name: n, source } => n@ == name && source_outcome(name, dep, base, Ok(source)),
            UpdateStep::Abort { error } => source_outcome(name, dep, base, Err(error)),
            UpdateStep::Skip { .. } => false,
        }
    }
}

/// The steps of `cart update`, one per dependency in name order, up to and
/// including the first whose source cannot be resolved.
pub fn update_plan(manifest: &CartManifest, default_git_base: Option<&str>) -> (r: Vec<UpdateStep>)
    ensures
        r@.len() <= manifest.dependencies@.len(),
        forall|i: int|
            0 <= i < r@.len() ==> step_ok(
                #[trigger] r@[i],
                manifest.dependencies@[i].0,
                manifest.dependencies@[i].1,
                opt_str_chars(default_git_base),
            ),
        forall|i: int| 0 <= i < r@.len() - 1 ==> !(#[trigger] r@[i] is Abort),
        r@.len() == manifest.dependencies@.len() || (r@.len() > 0 && r@.last() is Abort),
{
    let deps = &manifest.dependencies;
    let n = deps.len();
    let mut r: Vec<UpdateStep> = Vec::new();
    let mut i: usize = 0;
    while i < n
        invariant
            deps@ == manifest.dependencies@,
            n == deps@.len(),
            i <= n,
            r@.len() == i,
            forall|j: int|
                0 <= j < i ==> step_ok(
                    #[trigger] r@[j],
                    deps@[j].0,
                    deps@[j].1,
                    opt_str_chars(default_git_base),
                ),
            forall|j: int| 0 <= j < i ==> !(#[trigger] r@[j] is Abort),
        decreases n - i,
    {
        let name = deps.name_at(i);
        let dep = deps.value_at(i);
        if dep.path().is_some() {
            r.push(UpdateStep::Skip { name: name.clone() });
        } else {
            match resolve_source(name.as_str(), dep, default_git_base) {
                Ok(source) => r.push(UpdateStep::Fetch { name: name.clone(), source }),
                Err(error) => {
                    r.push(UpdateStep::Abort { error });
                    return r;
                },
            }
        }
        i = i + 1;
    }
    r
}

} // verus!
