//! Room references and their resolution to canonical room ids.
use vstd::prelude::*;
use vstd::string::StringSliceAdditionalSpecFns;
use crate::error::ConsoleError;

verus! {

/// A room as the operator names it: by its canonical id (`!opaque:server`) or
/// by an alias (`#name:server`).
#[derive(Debug)]
pub enum RoomReference {
    CanonicalId(String),
    Alias(String),
}

/// The text of a reference.
pub open spec fn reference_text(r: RoomReference) -> Seq<char> {
    match r {
        RoomReference::CanonicalId(x) => x@,
        RoomReference::Alias(a) => a@,
    }
}

/// The leading character that each form of reference carries.
pub open spec fn sigil_matches(r: RoomReference) -> bool {
    match r {
        RoomReference::CanonicalId(x) => x@.len() > 0 && x@[0] == '!',
        RoomReference::Alias(a) => a@.len() > 0 && a@[0] == '#',
    }
}

/// `s` starts with neither `!` nor `#`.
pub open spec fn lacks_sigil(s: Seq<char>) -> bool {
    s.len() == 0 || (s[0] != '!' && s[0] != '#')
}

/// A text that ruma takes as a room id: a leading `!`, no NUL character, and at
/// most 255 bytes.
pub open spec fn plain_room_id(text: &str) -> bool {
    &&& text@.len() > 0
    &&& text@[0] == '!'
    &&& !text@.contains('\0')
    &&& text.spec_bytes().len() <= 255
}

/// Relies on ruma's `TryFrom<&str>` for `&RoomOrAliasId`, then on
/// `TryFrom<&RoomOrAliasId>` for `&RoomId`: a text is accepted only with a
/// leading `!` (room id) or `#` (alias), and the identifier keeps the text;
/// room-id validation asks no more than the sigil, at most 255 bytes and no NUL.
#[verifier::external_body]
fn ruma_room_reference(text: &str) -> (r: Option<RoomReference>)
    ensures
        lacks_sigil(text@) ==> r is None,
        plain_room_id(text) ==> r is Some,
        r matches Some(x) ==> reference_text(x) == text@ && sigil_matches(x),
{
    match <&ruma::RoomOrAliasId>::try_from(text) {
        Ok(id) => match <&ruma::RoomId>::try_from(id) {
            Ok(room) => Some(RoomReference::CanonicalId(room.as_str().to_string())),
            Err(alias) => Some(RoomReference::Alias(alias.as_str().to_string())),
        },
        Err(_) => None,
    }
}

/// Reads a room reference from operator input.
pub fn parse_room_reference(text: &str) -> (r: Result<RoomReference, ConsoleError>)
    ensures
        lacks_sigil(text@) ==> r == Err::<RoomReference, ConsoleError>(ConsoleError::Parse),
        plain_room_id(text) ==> (r matches Ok(RoomReference::CanonicalId(x)) && x@ == text@),
        r matches Ok(x) ==> reference_text(x) == text@ && sigil_matches(x),
        r matches Err(e) ==> e == ConsoleError::Parse,
{
    match ruma_room_reference(text) {
        Some(x) => Ok(x),
        None => Err(ConsoleError::Parse),
    }
}

/// What resolving `reference` gives, where `registered` is the store's answer
/// for the alias table.
pub open spec fn resolution(reference: RoomReference, registered: Option<String>) -> Result<String, ConsoleError> {
    match reference {
        RoomReference::CanonicalId(x) => Ok(x),
        RoomReference::Alias(_) => match registered {
            Some(id) => Ok(id),
            None => Err(ConsoleError::Resolution),
        },
    }
}

/// The alias that the store has to be asked about, if any.
pub fn alias_to_look_up(reference: &RoomReference) -> (r: Option<&String>)
    ensures
        match reference {
            RoomReference::CanonicalId(_) => r is None,
            RoomReference::Alias(a) => r == Some(a),
        },
{
    match reference {
        RoomReference::CanonicalId(_) => None,
        RoomReference::Alias(a) => Some(a),
    }
}

/// Turns a reference into a canonical room id. A canonical id is returned
/// unchanged; an alias gives the id that the store registered for it
/// (`registered`), and fails where there is none.
pub fn resolve(reference: RoomReference, registered: Option<String>) -> (r: Result<String, ConsoleError>)
    ensures
        r == resolution(reference, registered),
{
    match reference {
        RoomReference::CanonicalId(x) => Ok(x),
        RoomReference::Alias(_) => match registered {
            Some(id) => Ok(id),
            None => Err(ConsoleError::Resolution),
        },
    }
}

/// Resolution is the identity on canonical ids, whatever the alias table
/// holds; an alias resolves to exactly the id registered for it, or fails
/// with a resolution error where none is.
pub proof fn resolution_is_unambiguous(reference: RoomReference, registered: Option<String>)
    ensures
        reference matches RoomReference::CanonicalId(x) ==> resolution(reference, registered) == Ok::<String, ConsoleError>(x),
        reference is Alias ==> match resolution(reference, registered) {
            Ok(id) => registered == Some(id),
            Err(e) => registered is None && e == ConsoleError::Resolution,
        },
{
}

} // verus!
