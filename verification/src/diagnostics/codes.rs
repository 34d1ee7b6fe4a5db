//! Error codes for the `cart` build tool. The first digit names the stage:
//! 5 = cart.

use vstd::prelude::*;

verus! {

pub const EMULATOR_NOT_FOUND: u32 = 501;
pub const MANIFEST_PARSE: u32 = 502;
pub const TRIPLET_MALFORMED: u32 = 503;
pub const DEP_RESOLUTION: u32 = 504;
pub const LIB_NOT_INSTALLED: u32 = 505;
pub const LOCKFILE_OUT_OF_DATE: u32 = 506;
pub const BUILD_FAILURE: u32 = 507;
pub const TEST_FAILURE: u32 = 508;
pub const CHECKSUM_MISMATCH: u32 = 509;
pub const GIT_FAILURE: u32 = 510;

} // verus!
