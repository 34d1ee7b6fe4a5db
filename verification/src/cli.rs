//! The command line of `cart`: its global options and subcommands, as a
//! parser hands them over, and what a run of the tool starts from.

use vstd::prelude::*;
use crate::manifest::opt_chars;
use crate::text::owned;

verus! {

/// The Op build tool and package manager: the parsed command line.
#[derive(Debug)]
pub struct CartArgs {
    /// Path to Cart.toml.
    pub manifest_path: Option<String>,
    /// Suppress non-error output.
    pub quiet: bool,
    /// Print extra diagnostic output.
    pub verbose: bool,
    /// Color output: auto, always, never.
    pub color: Option<String>,
    /// Error if Cart.lock is out of date.
    pub frozen: bool,
    pub command: Command,
}

/// The subcommands of `cart`.
#[derive(Debug)]
pub enum Command {
    /// Create a new Op project; with `lib`, a library project.
    Init { name: String, lib: bool, target: Option<String> },
    /// Build the project.
    Build {
        target: Option<String>,
        release: bool,
        debug: bool,
        features: Vec<String>,
        format: Option<String>,
    },
    /// Build the project and launch the ROM in the configured emulator.
    Run { target: Option<String>, release: bool, profile: Option<String> },
    /// Run the project's test suite.
    Test { target: Option<String> },
    /// Run the lexer and parser without generating code.
    Check { target: Option<String> },
    /// Remove the build output directory.
    Clean,
    /// Add a lib to the Cart.toml dependencies.
    Add { name: String, git: Option<String>, path: Option<String>, version: Option<String> },
    /// Generate documentation from doc comments.
    Doc,
    /// Install a lib in ~/.carts/.
    Install { name: String, git: Option<String> },
    /// Update all dependencies to the latest version.
    Update,
}

/// What a run of `cart` starts from: the manifest it works on, whether the
/// lockfile is frozen, and the subcommand.
#[derive(Debug)]
pub struct Invocation {
    pub manifest_path: String,
    pub frozen: bool,
    pub command: Command,
}

/// The start of a run: `--manifest-path`, else `Cart.toml` in the current
/// directory, with the subcommand as given.
pub fn run(args: CartArgs) -> (r: Invocation)
    ensures
        r.manifest_path@ == match opt_chars(args.manifest_path) {
            Some(p) => p,
            None => "Cart.toml"@,
        },
        r.frozen == args.frozen,
        r.command == args.command,
{
    let manifest_path = match args.manifest_path {
        Some(p) => p,
        None => owned("Cart.toml"),
    };
    Invocation { manifest_path, frozen: args.frozen, command: args.command }
}

} // verus!
