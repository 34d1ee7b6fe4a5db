//! `Cart.toml` manifest types and the questions the tool asks of them.
//!
//! The manifest mirrors the `Cargo.toml` structure. Tables keyed by name
//! (`[dependencies]`, `[features]`, `[test.sentinel]`) are `NameMap`s, walked
//! in ascending name order.

use vstd::prelude::*;
use crate::namemap::NameMap;
use crate::text::{owned, same_text};

verus! {

/// The view of an optional string.
pub open spec fn opt_chars(o: Option<String>) -> Option<Seq<char>> {
    match o {
        Some(s) => Some(s@),
        None => None,
    }
}

/// The view of an optional string slice.
pub open spec fn opt_str_chars(o: Option<&str>) -> Option<Seq<char>> {
    match o {
        Some(s) => Some(s@),
        None => None,
    }
}

/// Borrows the string inside an optional string.
pub fn as_opt_str(o: &Option<String>) -> (r: Option<&str>)
    ensures
        opt_str_chars(r) == opt_chars(*o),
{
    match o {
        Some(s) => Some(s.as_str()),
        None => None,
    }
}

/// An owned copy of an optional string slice.
pub fn to_opt_string(o: Option<&str>) -> (r: Option<String>)
    ensures
        opt_chars(r) == opt_str_chars(o),
{
    match o {
        Some(s) => Some(owned(s)),
        None => None,
    }
}

/// A copy of an optional string.
pub fn clone_opt(o: &Option<String>) -> (r: Option<String>)
    ensures
        opt_chars(r) == opt_chars(*o),
{
    match o {
        Some(s) => Some(s.clone()),
        None => None,
    }
}

/// A copy of a list of strings.
pub fn clone_strings(v: &Vec<String>) -> (r: Vec<String>)
    ensures
        r@.len() == v@.len(),
        forall|i: int| 0 <= i < v@.len() ==> r@[i]@ == v@[i]@,
{
    let mut r: Vec<String> = Vec::new();
    let mut i: usize = 0;
    while i < v.len()
        invariant
            i <= v@.len(),
            r@.len() == i,
            forall|j: int| 0 <= j < i ==> r@[j]@ == v@[j]@,
        decreases v@.len() - i,
    {
        r.push(v[i].clone());
        i = i + 1;
    }
    r
}

/// The root `Cart.toml` manifest.
#[derive(Debug)]
pub struct CartManifest {
    pub package: Package,
    pub lib: Option<Lib>,
    pub rom: Vec<Rom>,
    pub dependencies: NameMap<Dependency>,
    pub dev_dependencies: NameMap<Dependency>,
    pub target: Option<TargetSection>,
    pub features: Option<Features>,
    pub run: Option<RunProfileSection>,
    pub test: Option<TestConfig>,
    pub doc: Option<DocConfig>,
}

/// The `[package]` section.
#[derive(Debug)]
pub struct Package {
    pub name: String,
    pub version: String,
    pub edition: String,
    pub authors: Vec<String>,
    pub license: Option<String>,
}

/// The `[lib]` section.
#[derive(Debug)]
pub struct Lib {
    pub name: String,
    pub path: Option<String>,
}

/// A `[[rom]]` section.
#[derive(Debug)]
pub struct Rom {
    pub name: String,
    pub path: Option<String>,
    pub target: String,
    pub format: Option<String>,
}

impl Rom {
    /// The output format, if specified.
    pub fn format(&self) -> (r: Option<&str>)
        ensures
            opt_str_chars(r) == opt_chars(self.format),
    {
        as_opt_str(&self.format)
    }
}

/// The `[target]` section.
#[derive(Debug)]
pub struct TargetSection {
    pub default: String,
}

/// The `[features]` section: each feature with the features and
/// dependency features it enables.
#[derive(Debug)]
pub struct Features {
    pub flags: NameMap<Vec<String>>,
}

/// Wrapper for the `[[run.profile]]` sections.
#[derive(Debug)]
pub struct RunProfileSection {
    pub profile: Vec<RunProfile>,
}

/// A `[[run.profile]]` section.
#[derive(Debug)]
pub struct RunProfile {
    pub name: String,
    pub emulator: String,
    pub args: Vec<String>,
    pub target: Option<String>,
}

/// The `[test]` section.
#[derive(Debug)]
pub struct TestConfig {
    pub profile: Option<String>,
    pub sentinel: NameMap<Sentinel>,
}

/// A sentinel definition for a machine in `[test.sentinel.<machine>]`.
#[derive(Clone, Copy, Debug, PartialEq, Eq, Structural)]
pub struct Sentinel {
    pub address: u64,
    pub pass_value: u64,
}

/// The `[doc]` section.
#[derive(Debug)]
pub struct DocConfig {
    pub output: Option<String>,
}

/// A dependency entry: a version requirement string, or a detailed table
/// with git/path/features fields.
#[derive(Debug)]
pub enum Dependency {
    Simple(String),
    Detailed(DetailedDependency),
}

/// The detailed form of a dependency.
#[derive(Debug)]
pub struct DetailedDependency {
    pub version: Option<String>,
    pub git: Option<String>,
    pub branch: Option<String>,
    pub tag: Option<String>,
    pub rev: Option<String>,
    pub path: Option<String>,
    pub features: Vec<String>,
    pub optional: bool,
    pub default_features: bool,
}

impl Dependency {
    /// The version requirement of a dependency, if any.
    pub open spec fn version_req_spec(self) -> Option<Seq<char>> {
        match self {
            Dependency::Simple(v) => Some(v@),
            Dependency::Detailed(d) => opt_chars(d.version),
        }
    }

    /// The git URL of a dependency, if any.
    pub open spec fn git_spec(self) -> Option<Seq<char>> {
        match self {
            Dependency::Simple(_) => None,
            Dependency::Detailed(d) => opt_chars(d.git),
        }
    }

    /// The local path of a dependency, if any.
    pub open spec fn path_spec(self) -> Option<Seq<char>> {
        match self {
            Dependency::Simple(_) => None,
            Dependency::Detailed(d) => opt_chars(d.path),
        }
    }

    /// The version requirement string, if any.
    pub fn version_req(&self) -> (r: Option<&str>)
        ensures
            opt_str_chars(r) == self.version_req_spec(),
    {
        match self {
            Dependency::Simple(v) => Some(v.as_str()),
            Dependency::Detailed(d) => as_opt_str(&d.version),
        }
    }

    /// The git URL, if any.
    pub fn git(&self) -> (r: Option<&str>)
        ensures
            opt_str_chars(r) == self.git_spec(),
    {
        match self {
            Dependency::Simple(_) => None,
            Dependency::Detailed(d) => as_opt_str(&d.git),
        }
    }

    /// The local path, if any.
    pub fn path(&self) -> (r: Option<&str>)
        ensures
            opt_str_chars(r) == self.path_spec(),
    {
        match self {
            Dependency::Simple(_) => None,
            Dependency::Detailed(d) => as_opt_str(&d.path),
        }
    }

    /// The features list.
    pub fn features(&self) -> (r: &[String])
        ensures
            match self {
                Dependency::Simple(_) => r@.len() == 0,
                Dependency::Detailed(d) => r@ == d.features@,
            },
    {
        match self {
            Dependency::Simple(_) => &[],
            Dependency::Detailed(d) => d.features.as_slice(),
        }
    }
}

/// The index of the first profile named `name`, if any.
pub open spec fn first_profile_named(profiles: Seq<RunProfile>, name: Seq<char>) -> Option<int> {
    if exists|i: int| 0 <= i < profiles.len() && profiles[i].name@ == name {
        Some(
            choose|i: int|
                0 <= i < profiles.len() && profiles[i].name@ == name && forall|j: int|
                    0 <= j < i ==> profiles[j].name@ != name,
        )
    } else {
        None
    }
}

/// The first profile in `profiles` named `name`, as `iter().find` gives it.
pub fn find_profile<'a>(profiles: &'a Vec<RunProfile>, name: &str) -> (r: Option<&'a RunProfile>)
    ensures
        match first_profile_named(profiles@, name@) {
            Some(i) => r == Some(&profiles@[i]),
            None => r is None,
        },
{
    let mut i: usize = 0;
    while i < profiles.len()
        invariant
            i <= profiles@.len(),
            forall|j: int| 0 <= j < i ==> profiles@[j].name@ != name@,
        decreases profiles@.len() - i,
    {
        if same_text(profiles[i].name.as_str(), name) {
            let ghost k = choose|k: int|
                0 <= k < profiles@.len() && profiles@[k].name@ == name@ && forall|j: int|
                    0 <= j < k ==> profiles@[j].name@ != name@;
            proof {
                assert(0 <= i < profiles@.len() && profiles@[i as int].name@ == name@ && forall|j: int|
                    0 <= j < i ==> profiles@[j].name@ != name@);
                if k < i {
                } else if k > i {
                }
            }
            return Some(&profiles[i]);
        }
        i = i + 1;
    }
    None
}

/// The run profile named `name` in an optional `[[run.profile]]` list.
pub open spec fn profile_in(run: Option<RunProfileSection>, name: Seq<char>) -> Option<RunProfile> {
    match run {
        Some(section) => match first_profile_named(section.profile@, name) {
            Some(i) => Some(section.profile@[i]),
            None => None,
        },
        None => None,
    }
}

/// Finds the first profile with the given name in an optional section.
pub fn find_profile_in<'a>(run: &'a Option<RunProfileSection>, name: &str) -> (r: Option<
    &'a RunProfile,
>)
    ensures
        match r {
            Some(p) => profile_in(*run, name@) == Some(*p),
            None => profile_in(*run, name@) is None,
        },
{
    match run {
        Some(section) => find_profile(&section.profile, name),
        None => None,
    }
}

impl CartManifest {
    /// The default target triplet: the `--target` override, then a non-empty
    /// `[target] default`, then the first `[[rom]]` target.
    pub open spec fn default_target_spec(self, override_target: Option<Seq<char>>) -> Option<
        Seq<char>,
    > {
        match override_target {
            Some(t) => Some(t),
            None => {
                if self.target is Some && self.target->0.default@.len() > 0 {
                    Some(self.target->0.default@)
                } else if self.rom@.len() > 0 {
                    Some(self.rom@[0].target@)
                } else {
                    None
                }
            },
        }
    }

    /// Find a run profile by name: the first one with that name.
    pub fn run_profile(&self, name: &str) -> (r: Option<&RunProfile>)
        ensures
            match r {
                Some(p) => profile_in(self.run, name@) == Some(*p),
                None => profile_in(self.run, name@) is None,
            },
    {
        find_profile_in(&self.run, name)
    }

    /// Get the default target triplet. Checks `--target` override first,
    /// then `[target] default`, then the first `[[rom]]` target.
    pub fn default_target(&self, override_target: Option<&str>) -> (r: Option<String>)
        ensures
            opt_chars(r) == self.default_target_spec(opt_str_chars(override_target)),
    {
        if let Some(t) = override_target {
            return Some(owned(t));
        }
        if let Some(t) = &self.target {
            if !t.default.as_str().is_empty() {
                return Some(t.default.clone());
            }
        }
        if self.rom.len() > 0 {
            Some(self.rom[0].target.clone())
        } else {
            None
        }
    }
}

/// The value of `default-features` when a dependency table leaves it out.
pub fn default_true() -> (r: bool)
    ensures
        r,
{
    true
}

/// Whether a flag is off; an off `default-features` is not written out.
pub fn is_false(b: &bool) -> (r: bool)
    ensures
        r == !*b,
{
    !*b
}

} // verus!
