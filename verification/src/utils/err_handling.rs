//! The page that answers a request which failed on the server's side.

use vstd::prelude::*;
use vstd::utf8::*;
use vstd::string::*;
use crate::utils::text::string_from_utf8;

verus! {

/// The short page that is sent when no better one can be had.
pub open spec fn default_error_page() -> Seq<char> {
    "<!DOCTYPE html>\n<html><head>\n<title>500 Error</title>\n</head>\n<p>500 Error: Internal Server Error</p>\n</html>"@
}

/// The body of the error response: the stored error page if there is one
/// and it is UTF-8, the short page otherwise.
pub open spec fn error_page_of(stored: Option<Seq<u8>>) -> Seq<char> {
    match stored {
        Some(bytes) if valid_utf8(bytes) => decode_utf8(bytes),
        _ => default_error_page(),
    }
}

/// Chooses the body of the error response.
pub fn make_500_resp(stored: Option<Vec<u8>>) -> (html: String)
    ensures
        html@ == error_page_of(
            match stored {
                Some(bytes) => Some(bytes@),
                None => None,
            },
        ),
{
    let fallback =
        "<!DOCTYPE html>\n<html><head>\n<title>500 Error</title>\n</head>\n<p>500 Error: Internal Server Error</p>\n</html>".to_owned();
    match stored {
        Some(bytes) => match string_from_utf8(bytes) {
            Some(page) => page,
            None => fallback,
        },
        None => fallback,
    }
}

} // verus!
