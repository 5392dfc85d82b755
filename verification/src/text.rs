use vstd::prelude::*;
use vstd::utf8::{decode_utf8, valid_utf8};

verus! {

#[verifier::external_type_specification]
#[verifier::external_body]
pub struct ExUtf8Error(core::str::Utf8Error);

/// Calls `core::str::from_utf8`, which checks that `bytes` are valid UTF-8
/// and then views them as a string slice. Claimed: the result is `Ok`
/// exactly for valid UTF-8, and its characters are the ones the bytes
/// encode.
#[verifier::external_body]
fn str_from_utf8(bytes: &[u8]) -> (r: Result<&str, core::str::Utf8Error>)
    ensures
        r is Ok <==> valid_utf8(bytes@),
        r matches Ok(s) ==> s@ == decode_utf8(bytes@),
{
    core::str::from_utf8(bytes)
}

/// The textual representation of a node, from what Postgres' `nodeToString`
/// rendered for it: `None` when there was no node or nothing was rendered,
/// otherwise the rendered bytes (without the terminating NUL) read as UTF-8.
pub fn node_to_string<'a>(rendered: Option<&'a [u8]>) -> (r: Option<&'a str>)
    requires
        rendered matches Some(bytes) ==> valid_utf8(bytes@),
    ensures
        rendered is None ==> r is None,
        rendered matches Some(bytes) ==> r matches Some(s) && s@ == decode_utf8(bytes@),
{
    match rendered {
        None => None,
        Some(bytes) => match str_from_utf8(bytes) {
            Ok(s) => Some(s),
            Err(_) => None,
        },
    }
}

} // verus!
