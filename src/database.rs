//! How a cookie database is opened.
use vstd::prelude::*;
use vstd::string::*;

verus! {

/// The SQLite URI that opens the database at `path` as immutable, so that
/// the lock a running browser holds on it is not waited for. Reading it while
/// the browser writes may see an inconsistent page.
pub fn immutable_uri(path: &str) -> (r: String)
    ensures
        r@ == "file:"@ + path@ + "?immutable=1"@,
{
    let mut uri = "file:".to_owned();
    uri.append(path);
    uri.append("?immutable=1");
    uri
}

} // verus!
