//! The rules on which files are read and written. Reading and writing
//! themselves are left to the caller.

use crate::text::same_text;
use vstd::prelude::*;

verus! {

/// The extension of a file that holds an interface, without the dot.
pub open spec fn interface_extension() -> Seq<char> {
    "epi"@
}

/// Whether a file with the given extension, if it has any, is read: its
/// extension must be that of an interface, unless the caller forces it.
pub fn validate_file_extension(extension: Option<&str>, force: bool) -> (valid: bool)
    ensures
        valid == (force || (extension matches Some(e) && e@ == interface_extension())),
{
    if force {
        return true;
    }
    match extension {
        Some(e) => same_text(e, "epi"),
        None => false,
    }
}

/// Whether an artifact is written: a file that exists is kept, unless the
/// caller asks to overwrite it.
pub fn may_write(present: bool, overwrite: bool) -> (write: bool)
    ensures
        write == (!present || overwrite),
{
    !present || overwrite
}

} // verus!
