//! Static assets: which file answers which address.

use vstd::prelude::*;
use vstd::string::*;
use crate::utils::text::str_equal;

verus! {

/// The asset that stands behind an address of the site, for the addresses
/// that differ from their asset's path.
pub open spec fn asset_path_of(uri_path: Seq<char>) -> Option<Seq<char>> {
    if uri_path == "/guestbook"@ {
        Some("/pages/guestbook.html"@)
    } else if uri_path == "/lb-list-conv"@ {
        Some("/pages/lb-list-app.html"@)
    } else {
        None
    }
}

/// Maps an address of the site to the path of its asset. `None` leaves the
/// address as it is.
pub fn asset_path(uri_path: &str) -> (mapped: Option<&'static str>)
    ensures
        match mapped {
            Some(path) => asset_path_of(uri_path@) == Some(path@),
            None => asset_path_of(uri_path@) is None,
        },
{
    if str_equal(uri_path, "/guestbook") {
        Some("/pages/guestbook.html")
    } else if str_equal(uri_path, "/lb-list-conv") {
        Some("/pages/lb-list-app.html")
    } else {
        None
    }
}

} // verus!
