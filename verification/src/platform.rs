//! The guard that every detector passes before it asks for a Linux tool.
use crate::error::{ErrorModel, PlatformError};
use crate::text::{chars_of, same_text};
use vstd::prelude::*;

verus! {

/// Whether `os` names the one operating system that is supported.
pub open spec fn is_supported(os: Seq<char>) -> bool {
    os == "linux"@
}

/// The error of a host that does not run Linux.
pub open spec fn unsupported() -> ErrorModel {
    ErrorModel::Unsupported("This application only supports Linux"@)
}

/// Succeeds exactly when `os`, the name of the host's operating system, is
/// `linux`.
pub fn check_platform(os: &str) -> (r: Result<(), PlatformError>)
    ensures
        is_supported(os@) ==> r is Ok,
        !is_supported(os@) ==> (r matches Err(e) && e@ == unsupported()),
{
    let given: Vec<char> = chars_of(os);
    let wanted: Vec<char> = chars_of("linux");
    if same_text(&given, &wanted) {
        Ok(())
    } else {
        Err(PlatformError::Unsupported(String::from_str("This application only supports Linux")))
    }
}

} // verus!
