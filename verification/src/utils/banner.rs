//! Release identification for the startup banner.

use vstd::prelude::*;

verus! {

/// Release version of this crate, as recorded in `Cargo.toml`.
pub const VERSION: &'static str = "0.1.0";

} // verus!
