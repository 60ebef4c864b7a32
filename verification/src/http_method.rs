//! HTTP method names.
use vstd::prelude::*;
use crate::text::{to_upper_str, trim, trim_str, upper_seq};

verus! {

/// A token character of RFC 9110: what a method or a header name may hold.
pub open spec fn is_token_char(c: char) -> bool {
    let v = c as u32;
    ||| (48 <= v && v <= 57)
    ||| (65 <= v && v <= 90)
    ||| (97 <= v && v <= 122)
    ||| v == 33 ||| v == 35 ||| v == 36 ||| v == 37 ||| v == 38 ||| v == 39
    ||| v == 42 ||| v == 43 ||| v == 45 ||| v == 46
    ||| v == 94 ||| v == 95 ||| v == 96 ||| v == 124 ||| v == 126
}

/// A non-empty run of token characters.
pub open spec fn is_token(s: Seq<char>) -> bool {
    s.len() > 0 && forall|i: int| 0 <= i < s.len() ==> is_token_char(#[trigger] s[i])
}

/// `reqwest::Method::from_bytes` on the bytes of `text`. The http crate accepts exactly the
/// non-empty byte strings whose every byte is a token character; a non-ASCII character
/// encodes to bytes of 128 or more, none of which is one.
#[verifier::external_body]
fn method_bytes_accepted(text: &str) -> (r: bool)
    ensures
        r == is_token(text@),
{
    reqwest::Method::from_bytes(text.as_bytes()).is_ok()
}

/// The method that `value` names: trimmed and in upper case, if it is a valid method.
pub open spec fn spec_parse_method(value: Seq<char>) -> Option<Seq<char>> {
    let name = upper_seq(trim(value));
    if is_token(name) {
        Some(name)
    } else {
        None
    }
}

/// Parses a method name given in any case, with surrounding white space.
pub fn parse(value: &str) -> (r: Option<String>)
    ensures
        r.deep_view() == spec_parse_method(value@),
{
    let trimmed = trim_str(value);
    let name = to_upper_str(trimmed.as_str());
    if method_bytes_accepted(name.as_str()) {
        Some(name)
    } else {
        None
    }
}

} // verus!
