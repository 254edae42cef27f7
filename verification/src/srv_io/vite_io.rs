//! Pages and other assets: how the body of a response is made from a file.

use vstd::prelude::*;
use vstd::utf8::*;
use vstd::string::*;
use crate::utils::text::str_starts_with;
use crate::utils::text::string_from_utf8;

verus! {

/// The body of the response for an asset.
#[derive(Debug, Clone, PartialEq, Eq)]
pub enum AssetBody {
    /// A file of a text type, as text.
    Text(String),
    /// A file of any other type, as it is.
    Binary(Vec<u8>),
    /// A file of a text type that is not UTF-8.
    Unreadable,
}

/// An asset body with its text as a character sequence.
pub enum AssetBodyModel {
    Text(Seq<char>),
    Binary(Seq<u8>),
    Unreadable,
}

impl View for AssetBody {
    type V = AssetBodyModel;

    open spec fn view(&self) -> AssetBodyModel {
        match self {
            AssetBody::Text(text) => AssetBodyModel::Text(text@),
            AssetBody::Binary(bytes) => AssetBodyModel::Binary(bytes@),
            AssetBody::Unreadable => AssetBodyModel::Unreadable,
        }
    }
}

/// The body for a file of the given content type.
pub open spec fn asset_body_of(content_type: Seq<char>, bytes: Seq<u8>) -> AssetBodyModel {
    if "text"@.is_prefix_of(content_type) {
        if valid_utf8(bytes) {
            AssetBodyModel::Text(decode_utf8(bytes))
        } else {
            AssetBodyModel::Unreadable
        }
    } else {
        AssetBodyModel::Binary(bytes)
    }
}

/// Makes the body for a file: text for a content type that begins with
/// `text`, the bytes themselves for any other.
pub fn asset_body(content_type: &str, bytes: Vec<u8>) -> (body: AssetBody)
    ensures
        body@ == asset_body_of(content_type@, bytes@),
{
    if str_starts_with(content_type, "text") {
        match string_from_utf8(bytes) {
            Some(text) => AssetBody::Text(text),
            None => AssetBody::Unreadable,
        }
    } else {
        AssetBody::Binary(bytes)
    }
}

/// The status of the response: 500 for a body that could not be made, 200 otherwise.
pub fn asset_status(body: &AssetBody) -> (status: u16)
    ensures
        status == if body@ is Unreadable {
            500u16
        } else {
            200u16
        },
{
    match body {
        AssetBody::Unreadable => 500,
        _ => 200,
    }
}

} // verus!
