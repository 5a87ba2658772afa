//! Symbols that the language reserves. They sit at the top of the symbol
//! space, where the generator never reaches.

use vstd::prelude::*;

pub mod error_codes;

verus! {

/// The symbol under which every recoverable error is sent.
pub const ERROR: u64 = 0xffff_ffff_ffff_ffff;

/// Whether `symbol` lies in the reserved region.
pub open spec fn is_reserved(symbol: u64) -> bool {
    symbol >= error_codes::ERROR_CODE_FLOOR
}

} // verus!
