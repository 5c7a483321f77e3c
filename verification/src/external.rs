//! Types and functions of outside crates that the driver's signatures carry.

use vstd::prelude::*;

verus! {

/// The error that a display interface reports when a transfer fails.
#[verifier::external_type_specification]
#[verifier::external_body]
pub struct ExDisplayError(display_interface::DisplayError);

/// `Clone` of `display_interface::DisplayError`, which the crate derives for this enum of
/// field-less variants: the copy is the same error.
pub assume_specification[ <display_interface::DisplayError as Clone>::clone ](
    e: &display_interface::DisplayError,
) -> (r: display_interface::DisplayError)
    ensures
        r == *e,
;

} // verus!
