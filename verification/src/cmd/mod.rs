//! The decisions of each `cart` subcommand. Each function computes what the
//! command does from the manifest, the config and the flags; reading and
//! writing files, running git, `opc` and emulators is left to the caller.

pub mod init;
pub mod building;
pub mod check;
pub mod run;
pub mod test;
pub mod doc;
pub mod add;
pub mod install;
pub mod update;
