//! Guestbook entries: what is checked before one is stored.

use vstd::prelude::*;
use vstd::utf8::*;
use vstd::string::*;

verus! {

/// The longest name that is stored, in bytes.
pub const MAX_NAME_BYTES: usize = 150;

/// The longest note that is stored, in bytes.
pub const MAX_NOTE_BYTES: usize = 1000;

/// What a visitor got wrong.
#[derive(Debug, Clone, Copy, PartialEq, Eq, Structural)]
pub enum UserError {
    NameTooLong,
    NoteTooLong,
}

/// What is wrong with an entry, if anything. Lengths are counted in bytes
/// of UTF-8, as the database counts them, and the name is looked at first.
pub open spec fn entry_fault(name: Seq<char>, note: Seq<char>) -> Option<UserError> {
    if encode_utf8(name).len() > MAX_NAME_BYTES {
        Some(UserError::NameTooLong)
    } else if encode_utf8(note).len() > MAX_NOTE_BYTES {
        Some(UserError::NoteTooLong)
    } else {
        None
    }
}

/// The name under which an entry is stored.
pub open spec fn stored_name(name: Seq<char>) -> Seq<char> {
    if name.len() == 0 {
        "(anonymous)"@
    } else {
        name
    }
}

/// Checks the lengths of an entry's name and note.
pub fn check_entry(name: &str, note: &str) -> (checked: Result<(), UserError>)
    ensures
        checked == match entry_fault(name@, note@) {
            Some(fault) => Err::<(), UserError>(fault),
            None => Ok::<(), UserError>(()),
        },
{
    if name.as_bytes().len() > MAX_NAME_BYTES {
        Err(UserError::NameTooLong)
    } else if note.as_bytes().len() > MAX_NOTE_BYTES {
        Err(UserError::NoteTooLong)
    } else {
        Ok(())
    }
}

/// Gives an entry without a name the name `(anonymous)`.
pub fn guest_name(name: String) -> (stored: String)
    ensures
        stored@ == stored_name(name@),
{
    if name.as_str().is_empty() {
        "(anonymous)".to_owned()
    } else {
        name
    }
}

/// The field that a fault is about, and the limit that the visitor is told.
/// For a name the visitor is told 100 bytes, which is on the safe side of
/// the 150 that are accepted.
pub fn field_and_limit(fault: UserError) -> (told: (&'static str, usize))
    ensures
        fault == UserError::NameTooLong ==> told.0@ == "Name"@ && told.1 == 100,
        fault == UserError::NoteTooLong ==> told.0@ == "Note"@ && told.1 == 1000,
{
    match fault {
        UserError::NameTooLong => ("Name", 100),
        UserError::NoteTooLong => ("Note", 1000),
    }
}

} // verus!
