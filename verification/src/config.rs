//! Global config in `~/.cart/config.toml`.
//!
//! The config file stores global settings. The `cart` tool applies settings
//! in this order: built-in defaults, then `~/.cart/config.toml`, then
//! `Cart.toml`, then CLI flags.

use vstd::prelude::*;
use crate::text::{join_path, join_path_spec};
use crate::manifest::{
    as_opt_str, find_profile_in, opt_chars, opt_str_chars, profile_in, RunProfile,
    RunProfileSection, TestConfig,
};

verus! {

/// The root global config.
#[derive(Debug)]
pub struct GlobalConfig {
    pub registry: Option<RegistryConfig>,
    pub build: Option<BuildConfig>,
    pub run: Option<RunProfileSection>,
    pub test: Option<TestConfig>,
}

/// The `[registry]` section.
#[derive(Debug)]
pub struct RegistryConfig {
    pub default_git_base: Option<String>,
}

/// The `[build]` section.
#[derive(Debug)]
pub struct BuildConfig {
    pub target: Option<String>,
    pub opt_level: Option<u32>,
}

/// Where the std lib is cloned from when `~/.cart/std` is missing.
pub const STD_LIB_URL: &'static str = "https://github.com/op-language/std";

/// The optimization level the tool uses when the config names none.
pub const DEFAULT_OPT_LEVEL: u32 = 1;

impl GlobalConfig {
    /// The config file `<home>/.cart/config.toml`.
    pub fn config_path(home: &str) -> (r: String)
        ensures
            r@ == join_path_spec(join_path_spec(home@, ".cart"@), "config.toml"@),
    {
        join_path(join_path(home, ".cart").as_str(), "config.toml")
    }

    /// The directory libs are installed in: `<home>/.carts`.
    pub fn carts_dir(home: &str) -> (r: String)
        ensures
            r@ == join_path_spec(home@, ".carts"@),
    {
        join_path(home, ".carts")
    }

    /// The std lib directory `<home>/.cart/std`.
    pub fn std_dir(home: &str) -> (r: String)
        ensures
            r@ == join_path_spec(join_path_spec(home@, ".cart"@), "std"@),
    {
        join_path(join_path(home, ".cart").as_str(), "std")
    }

    /// The `default-git-base` of the `[registry]` section, if any.
    pub open spec fn default_git_base_spec(self) -> Option<Seq<char>> {
        match self.registry {
            Some(r) => opt_chars(r.default_git_base),
            None => None,
        }
    }

    /// The `target` of the `[build]` section, if any.
    pub open spec fn default_target_spec(self) -> Option<Seq<char>> {
        match self.build {
            Some(b) => opt_chars(b.target),
            None => None,
        }
    }

    /// The `opt-level` of the `[build]` section, or 1.
    pub open spec fn default_opt_level_spec(self) -> u32 {
        match self.build {
            Some(b) => match b.opt_level {
                Some(l) => l,
                None => DEFAULT_OPT_LEVEL,
            },
            None => DEFAULT_OPT_LEVEL,
        }
    }

    /// An empty config: every setting at its built-in default.
    pub fn empty() -> (r: Self)
        ensures
            r.registry is None,
            r.build is None,
            r.run is None,
            r.test is None,
    {
        GlobalConfig { registry: None, build: None, run: None, test: None }
    }

    /// Get the default git base URL for the registry.
    pub fn default_git_base(&self) -> (r: Option<&str>)
        ensures
            opt_str_chars(r) == self.default_git_base_spec(),
    {
        match &self.registry {
            Some(r) => as_opt_str(&r.default_git_base),
            None => None,
        }
    }

    /// Get the default target triplet from the global config.
    pub fn default_target(&self) -> (r: Option<&str>)
        ensures
            opt_str_chars(r) == self.default_target_spec(),
    {
        match &self.build {
            Some(b) => as_opt_str(&b.target),
            None => None,
        }
    }

    /// Get the default optimization level.
    pub fn default_opt_level(&self) -> (r: u32)
        ensures
            r == self.default_opt_level_spec(),
    {
        match &self.build {
            Some(b) => match b.opt_level {
                Some(l) => l,
                None => DEFAULT_OPT_LEVEL,
            },
            None => DEFAULT_OPT_LEVEL,
        }
    }

    /// Find a global run profile by name.
    pub fn run_profile(&self, name: &str) -> (r: Option<&RunProfile>)
        ensures
            match r {
                Some(p) => profile_in(self.run, name@) == Some(*p),
                None => profile_in(self.run, name@) is None,
            },
    {
        find_profile_in(&self.run, name)
    }
}

} // verus!
