//! Cookies of Firefox: the assembly of a cookie record from a row of the
//! `moz_cookies` table, whose values are stored in clear.
use crate::cookie::{same_site_from_code, same_site_of_code, Cookie};
use crate::timestamp::{clamp_unix_seconds_spec, unix_seconds_to_nanos_clamped};
use vstd::prelude::*;

verus! {

/// A row of the `moz_cookies` table.
pub struct FirefoxCookie {
    pub name: String,
    pub value: String,
    pub host: String,
    pub path: String,
    /// Seconds since the UNIX epoch.
    pub expiry: i64,
    pub is_secure: i64,
    pub same_site: i64,
    pub is_http_only: i64,
}

impl FirefoxCookie {
    /// The cookie record of this row. An expiry beyond what a cookie can hold
    /// is clamped rather than refused.
    pub fn into_cookie(self) -> (r: Cookie)
        ensures
            r.name == self.name,
            r.value == self.value,
            r.domain == self.host,
            r.path == self.path,
            r.expires_nanos == clamp_unix_seconds_spec(self.expiry as int) * 1_000_000_000,
            r.secure == (self.is_secure != 0),
            r.http_only == (self.is_http_only != 0),
            r.same_site == same_site_of_code(self.same_site as int),
    {
        Cookie {
            name: self.name,
            value: self.value,
            domain: self.host,
            path: self.path,
            expires_nanos: unix_seconds_to_nanos_clamped(self.expiry),
            secure: self.is_secure != 0,
            http_only: self.is_http_only != 0,
            same_site: same_site_from_code(self.same_site),
        }
    }
}

} // verus!
