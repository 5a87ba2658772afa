//! The codes that an error effect carries under the key `code`.

use vstd::prelude::*;

verus! {

/// Error codes count down from here.
pub const ERROR_CODE_START: u64 = 0xffff_ffff_ffff_d8ef;

/// A value that had to be an integer was not.
pub const TYPE_ERROR_INT: u64 = ERROR_CODE_START - 1;

/// A handler answered an error with a value that fails the same check again.
pub const ERROR_LOOP: u64 = ERROR_CODE_START - 2;

/// The least integer was negated.
pub const INT_MIN_NEGATION: u64 = ERROR_CODE_START - 3;

/// A value that had to be an object was not.
pub const TYPE_ERROR_OBJECT: u64 = ERROR_CODE_START - 4;

/// The lowest symbol that is kept for error codes; generated symbols stay
/// below it.
pub const ERROR_CODE_FLOOR: u64 = ERROR_CODE_START - 10000;

} // verus!
