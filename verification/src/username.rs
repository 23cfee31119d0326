//! What a username may look like.

use vstd::prelude::*;
use vstd::utf8::{encode_utf8, is_ascii_chars, is_ascii_chars_encode_utf8};
use crate::error::{ContractError, ErrorView};

verus! {

/// A letter of the English alphabet, a digit, an underscore or a hyphen.
pub open spec fn is_username_char(c: char) -> bool {
    ('a' <= c <= 'z') || ('A' <= c <= 'Z') || ('0' <= c <= '9') || c == '_' || c == '-'
}

/// At least one character, and none but username characters.
pub open spec fn is_username_text(s: Seq<char>) -> bool {
    s.len() > 0 && forall|i: int| 0 <= i < s.len() ==> is_username_char(#[trigger] s[i])
}

/// How many bytes `s` takes in UTF-8.
pub open spec fn byte_len(s: Seq<char>) -> nat {
    encode_utf8(s).len()
}

/// What is wrong with `s` as a username, if anything: first its length in
/// bytes, then its characters.
pub open spec fn username_fault(s: Seq<char>) -> Option<ErrorView> {
    if byte_len(s) < 3 || byte_len(s) > 30 {
        Some(ErrorView::UsernameTooShortOrLong)
    } else if !is_username_text(s) {
        Some(ErrorView::InvalidUsername { username: s })
    } else {
        None
    }
}

/// Three to thirty characters, each a letter of the English alphabet, a
/// digit, an underscore or a hyphen.
pub open spec fn valid_username(s: Seq<char>) -> bool {
    3 <= s.len() <= 30 && forall|i: int| 0 <= i < s.len() ==> is_username_char(#[trigger] s[i])
}

/// A username is without fault exactly when it is valid.
pub proof fn lemma_valid_username(s: Seq<char>)
    ensures
        username_fault(s) is None <==> valid_username(s),
{
    if forall|i: int| 0 <= i < s.len() ==> is_username_char(#[trigger] s[i]) {
        assert(is_ascii_chars(s)) by {
            assert forall|i: int| 0 <= i < s.len() implies '\0' <= #[trigger] s[i] <= '\u{7f}' by {
                assert(is_username_char(s[i]));
            }
        }
        is_ascii_chars_encode_utf8(s);
    }
}

/// A valid username holds no colon.
pub proof fn lemma_valid_username_no_colon(s: Seq<char>)
    requires
        valid_username(s),
    ensures
        !s.contains(':'),
{
    if s.contains(':') {
        let i = choose|i: int| 0 <= i < s.len() && s[i] == ':';
        assert(is_username_char(s[i]));
    }
}

/// `Regex::new(pattern)` and `Regex::is_match` on `text`, for the one
/// pattern that the registry uses: whether all of `text`, and at least one
/// character, is letters of the English alphabet, digits, underscores and
/// hyphens.
#[verifier::external_body]
fn pattern_matches(pattern: &str, text: &str) -> (r: bool)
    requires
        pattern@ == "^[a-zA-Z0-9_-]+$"@,
    ensures
        r == is_username_text(text@),
{
    regex::Regex::new(pattern).unwrap().is_match(text)
}

/// Checks a username's length and characters.
pub fn validate_username(username: &str) -> (r: Result<(), ContractError>)
    ensures
        match username_fault(username@) {
            Some(e) => r matches Err(x) && x@ == e,
            None => r is Ok,
        },
        r is Ok <==> valid_username(username@),
{
    proof {
        lemma_valid_username(username@);
    }
    let len = username.as_bytes().len();
    if len < 3 || len > 30 {
        return Err(ContractError::UsernameTooShortOrLong {  });
    }
    if !pattern_matches("^[a-zA-Z0-9_-]+$", username) {
        return Err(ContractError::InvalidUsername { username: username.to_owned() });
    }
    Ok(())
}

} // verus!
