//! The canonical cookie record produced by the readers.
use vstd::prelude::*;

verus! {

/// The `SameSite` policy of a cookie.
#[derive(Clone, Copy, Debug, PartialEq, Eq, Structural)]
pub enum SameSite {
    /// Sent with cross-site requests too.
    NoRestriction,
    Lax,
    Strict,
}

/// The policy that a stored same-site code stands for: 0 is `NoRestriction`, 1 is
/// `Lax`, any other code the stricter `Strict`.
pub open spec fn same_site_of_code(code: int) -> SameSite {
    if code == 0 {
        SameSite::NoRestriction
    } else if code == 1 {
        SameSite::Lax
    } else {
        SameSite::Strict
    }
}

/// Decode a stored same-site code.
pub fn same_site_from_code(code: i64) -> (r: SameSite)
    ensures
        r == same_site_of_code(code as int),
{
    if code == 0 {
        SameSite::NoRestriction
    } else if code == 1 {
        SameSite::Lax
    } else {
        SameSite::Strict
    }
}

/// A cookie read from a browser store. Every field is populated.
#[derive(Clone, Debug)]
pub struct Cookie {
    pub name: String,
    pub value: String,
    /// May start with `.` for a domain-wide cookie.
    pub domain: String,
    pub path: String,
    /// Expiry instant, in nanoseconds since the UNIX epoch.
    pub expires_nanos: i128,
    pub secure: bool,
    pub http_only: bool,
    pub same_site: SameSite,
}

} // verus!
