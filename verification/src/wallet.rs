//! The wallet, whose commands the other modules build.

use vstd::prelude::*;

verus! {

/// The wallet. Its functions are spread over the modules by what they are about.
pub struct Wallet {}

} // verus!
