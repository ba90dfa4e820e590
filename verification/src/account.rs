//! Account ids and the stored form of a pending owner.

use vstd::prelude::*;
use vstd::utf8::*;
use vstd::string::*;

verus! {

/// `-`, `_` or `.`: the separators of a NEAR account id.
pub open spec fn is_id_separator(c: char) -> bool {
    c == '-' || c == '_' || c == '.'
}

/// A character allowed in a NEAR account id.
pub open spec fn is_id_char(c: char) -> bool {
    ('a' <= c && c <= 'z') || ('0' <= c && c <= '9') || is_id_separator(c)
}

/// A valid NEAR account id: 2 to 64 characters from `a-z`, `0-9`, `-`, `_`
/// and `.`, neither starting nor ending with a separator, and with no two
/// separators next to each other.
pub open spec fn valid_account_id(s: Seq<char>) -> bool {
    &&& 2 <= s.len() <= 64
    &&& forall|i: int| 0 <= i < s.len() ==> is_id_char(#[trigger] s[i])
    &&& !is_id_separator(s[0])
    &&& !is_id_separator(s[s.len() - 1])
    &&& forall|i: int|
        0 <= i < s.len() - 1 ==> !(is_id_separator(#[trigger] s[i]) && is_id_separator(s[i + 1]))
}

#[verifier::external_type_specification]
#[verifier::external_body]
pub struct ExParseAccountError(near_sdk::account_id::ParseAccountError);

#[verifier::external_type_specification]
#[verifier::external_body]
pub struct ExFromUtf8Error(std::string::FromUtf8Error);

/// Calls `near_sdk::AccountId::validate`.  Claimed: it accepts exactly the
/// strings that `valid_account_id` describes (its byte-length bounds 2 and
/// 64 agree with the character count here, since every accepted character
/// is ASCII).  Which error it returns is not described.
#[verifier::external_body]
fn validate_account_id(s: &str) -> (r: Result<(), near_sdk::account_id::ParseAccountError>)
    ensures
        r is Ok <==> valid_account_id(s@),
{
    near_sdk::AccountId::validate(s)
}

/// Calls `String::from_utf8`.  Claimed: it succeeds exactly on valid UTF-8
/// and then holds the characters those bytes decode to.
#[verifier::external_body]
fn string_from_utf8(bytes: Vec<u8>) -> (r: Result<String, std::string::FromUtf8Error>)
    ensures
        r is Ok <==> valid_utf8(bytes@),
        r matches Ok(s) ==> s@ == decode_utf8(bytes@),
{
    String::from_utf8(bytes)
}

/// The account id that stored bytes hold: those bytes decoded as UTF-8,
/// where they are valid UTF-8 and decode to a valid account id.
pub open spec fn stored_account_id(bytes: Seq<u8>) -> Option<Seq<char>> {
    if valid_utf8(bytes) && valid_account_id(decode_utf8(bytes)) {
        Some(decode_utf8(bytes))
    } else {
        None
    }
}

/// A string option taken by its view.
pub open spec fn string_option_view(o: Option<String>) -> Option<Seq<char>> {
    match o {
        Some(s) => Some(s@),
        None => None,
    }
}

/// The pending owner that the stored slot holds: nothing where the slot is
/// empty, or where its bytes are not UTF-8 or not a valid account id.
pub fn decode_pending_owner(stored: Option<Vec<u8>>) -> (r: Option<String>)
    ensures
        string_option_view(r) == match stored {
            None => None,
            Some(bytes) => stored_account_id(bytes@),
        },
{
    let bytes = match stored {
        None => return None,
        Some(b) => b,
    };
    let text = match string_from_utf8(bytes) {
        Ok(s) => s,
        Err(_) => return None,
    };
    match validate_account_id(text.as_str()) {
        Ok(()) => Some(text),
        Err(_) => None,
    }
}

/// The bytes that the pending-owner slot stores for an account id: its UTF-8
/// encoding.
pub fn encode_pending_owner(owner: &str) -> (r: Vec<u8>)
    ensures
        r@ == encode_utf8(owner@),
{
    owner.as_bytes_vec()
}

/// What is stored for a valid account id reads back as that account id.
pub proof fn lemma_pending_owner_round_trip(owner: Seq<char>)
    requires
        valid_account_id(owner),
    ensures
        stored_account_id(encode_utf8(owner)) == Some(owner),
{
    encode_utf8_valid_utf8(owner);
    encode_utf8_decode_utf8(owner);
}

} // verus!
