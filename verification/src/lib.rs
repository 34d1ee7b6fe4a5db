//! The `cart` build tool and package manager, as a verified library.

pub mod text;
pub mod scan;
pub mod namemap;
pub mod manifest;
pub mod config;
pub mod lockfile;
pub mod resolver;
pub mod checksum;
pub mod triplet;
pub mod diagnostics;
pub mod error;
pub mod opc;
pub mod registry;
pub mod cmd;
pub mod cli;
