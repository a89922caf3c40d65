//! What is sent to the remote service: the query for one user's calendar
//! and the header that carries the access token.

use vstd::prelude::*;
use vstd::string::*;
use vstd::utf8::*;
use reqwest::header::{HeaderValue, InvalidHeaderValue};

verus! {

/// `reqwest::header::HeaderValue`, the value of one HTTP header. Nothing of
/// its inside is visible here; `header_value_bytes` names what it holds.
#[verifier::external_type_specification]
#[verifier::external_body]
pub struct ExHeaderValue(reqwest::header::HeaderValue);

/// `reqwest::header::InvalidHeaderValue`, the error of a refused header
/// value. It carries no information.
#[verifier::external_type_specification]
#[verifier::external_body]
pub struct ExInvalidHeaderValue(reqwest::header::InvalidHeaderValue);

/// The bytes that a header value holds, which `HeaderValue::as_bytes`
/// hands out.
pub uninterp spec fn header_value_bytes(value: HeaderValue) -> Seq<u8>;

/// Whether a byte may stand in a header value: anything from the space
/// upwards but the delete character, and the horizontal tab.
pub open spec fn is_header_byte(b: u8) -> bool {
    b >= 32 && b != 127 || b == 9
}

/// Whether every one of the bytes may stand in a header value.
pub open spec fn is_header_text(bytes: Seq<u8>) -> bool {
    forall|i: int| 0 <= i < bytes.len() ==> is_header_byte(#[trigger] bytes[i])
}

/// Whether a character may stand in a header value: every character but
/// the control characters of ASCII, among which only the tab is let in.
pub open spec fn is_header_char(c: char) -> bool {
    c as u32 >= 32 && c as u32 != 127 || c as u32 == 9
}

/// Calls `HeaderValue::from_str`. That function walks the bytes of the
/// text and refuses it if one of them is a control character other than
/// the tab; otherwise it copies the bytes, unchanged, into the value.
#[verifier::external_body]
fn header_value_from_str(text: &str) -> (made: Result<HeaderValue, InvalidHeaderValue>)
    ensures
        made is Ok <==> is_header_text(text.spec_bytes()),
        made matches Ok(value) ==> header_value_bytes(value) == text.spec_bytes(),
{
    HeaderValue::from_str(text)
}

/// The text before the user name in the query.
pub open spec fn query_head() -> Seq<char> {
    "\n        {\n          user(login: \""@
}

/// The text after the user name in the query.
pub open spec fn query_tail() -> Seq<char> {
    "\") {\n            contributionsCollection {\n              contributionCalendar {\n                totalContributions\n                weeks {\n                  contributionDays {\n                    date\n                    contributionCount\n                    color\n                  }\n                }\n              }\n            }\n          }\n        }\n        "@
}

/// The query for the calendar of a user: the fixed text with the user name
/// set in, as it is given, between the quotes of the `login` argument.
pub open spec fn query_text(gh_username: Seq<char>) -> Seq<char> {
    query_head() + gh_username + query_tail()
}

/// The query that asks for the total and for the date, count and colour of
/// every day of every week of the user's calendar.
pub fn contributions_query(gh_username: &str) -> (query: String)
    ensures
        query@ == query_text(gh_username@),
{
    let mut query = String::from_str("\n        {\n          user(login: \"");
    query.append(gh_username);
    query.append(
        "\") {\n            contributionsCollection {\n              contributionCalendar {\n                totalContributions\n                weeks {\n                  contributionDays {\n                    date\n                    contributionCount\n                    color\n                  }\n                }\n              }\n            }\n          }\n        }\n        ",
    );
    query
}

/// The value of the authorization header for a token: the word `bearer`, a
/// space, and the token as it is given.
pub open spec fn bearer_text(personal_access_token: Seq<char>) -> Seq<char> {
    "bearer "@ + personal_access_token
}

/// The answer to a token that cannot be sent in a header.
#[derive(Debug, Clone, Copy, PartialEq, Eq, Structural)]
pub struct InvalidToken;

/// The bytes of one character are fit for a header value exactly when the
/// character is.
proof fn lemma_header_scalar(c: char)
    ensures
        is_header_text(encode_scalar(c as u32)) <==> is_header_char(c),
{
    let s = c as u32;
    char_is_scalar(c);
    let bytes = encode_scalar(s);
    if has_width_1_encoding(s) {
        assert(leading_byte_width_1(s) == s) by (bit_vector)
            requires
                s <= 0x7F,
        ;
        assert(bytes[0] == leading_byte_width_1(s));
        if is_header_char(c) {
            assert(is_header_text(bytes));
        } else {
            assert(!is_header_byte(bytes[0]));
        }
    } else {
        assert(leading_byte_width_2(s) >= 0x80 && leading_byte_width_3(s) >= 0x80
            && leading_byte_width_4(s) >= 0x80 && last_continuation_byte(s) >= 0x80
            && second_last_continuation_byte(s) >= 0x80 && third_last_continuation_byte(s)
            >= 0x80) by (bit_vector);
        assert(is_header_text(bytes));
    }
}

/// A text is fit for a header value, byte by byte, exactly when each of
/// its characters is.
pub proof fn lemma_header_text_by_chars(chars: Seq<char>)
    ensures
        is_header_text(encode_utf8(chars)) <==> forall|i: int|
            0 <= i < chars.len() ==> is_header_char(#[trigger] chars[i]),
    decreases chars.len(),
{
    if chars.len() > 0 {
        let first = encode_scalar(chars[0] as u32);
        let rest = encode_utf8(chars.drop_first());
        let bytes = encode_utf8(chars);
        assert(bytes == first + rest);
        lemma_header_scalar(chars[0]);
        lemma_header_text_by_chars(chars.drop_first());
        if is_header_text(bytes) {
            assert forall|i: int| 0 <= i < first.len() implies is_header_byte(
                #[trigger] first[i],
            ) by {
                assert(first[i] == bytes[i]);
            }
            assert forall|i: int| 0 <= i < rest.len() implies is_header_byte(
                #[trigger] rest[i],
            ) by {
                assert(rest[i] == bytes[i + first.len()]);
            }
            assert forall|i: int| 0 <= i < chars.len() implies is_header_char(
                #[trigger] chars[i],
            ) by {
                if i > 0 {
                    assert(chars[i] == chars.drop_first()[i - 1]);
                }
            }
        }
        if forall|i: int| 0 <= i < chars.len() ==> is_header_char(#[trigger] chars[i]) {
            assert(is_header_char(chars[0]));
            assert forall|i: int| 0 <= i < chars.drop_first().len() implies is_header_char(
                #[trigger] chars.drop_first()[i],
            ) by {
                assert(chars.drop_first()[i] == chars[i + 1]);
            }
            assert(is_header_text(first));
            assert(is_header_text(rest));
            assert forall|i: int| 0 <= i < bytes.len() implies is_header_byte(
                #[trigger] bytes[i],
            ) by {
                if i < first.len() {
                    assert(bytes[i] == first[i]);
                } else {
                    assert(bytes[i] == rest[i - first.len()]);
                }
            }
        }
    }
}

/// The authorization header that presents the token as a bearer
/// credential. A header cannot carry control characters, the tab apart: a
/// token that holds one is refused, and every other token is accepted and
/// sent as it is, in UTF-8, after the word `bearer` and a space.
pub fn authorization_header(personal_access_token: &str) -> (header: Result<
    HeaderValue,
    InvalidToken,
>)
    ensures
        header is Ok <==> forall|i: int|
            0 <= i < personal_access_token@.len() ==> is_header_char(
                #[trigger] personal_access_token@[i],
            ),
        header matches Ok(value) ==> header_value_bytes(value) == encode_utf8(
            bearer_text(personal_access_token@),
        ),
{
    let mut text = String::from_str("bearer ");
    text.append(personal_access_token);
    proof {
        let token = personal_access_token@;
        reveal_strlit("bearer ");
        lemma_header_text_by_chars(text@);
        if forall|i: int| 0 <= i < token.len() ==> is_header_char(#[trigger] token[i]) {
            assert forall|i: int| 0 <= i < text@.len() implies is_header_char(
                #[trigger] text@[i],
            ) by {
                if i >= 7 {
                    assert(text@[i] == token[i - 7]);
                }
            }
        }
        if forall|i: int| 0 <= i < text@.len() ==> is_header_char(#[trigger] text@[i]) {
            assert forall|i: int| 0 <= i < token.len() implies is_header_char(
                #[trigger] token[i],
            ) by {
                assert(token[i] == text@[i + 7]);
            }
        }
    }
    match header_value_from_str(text.as_str()) {
        Ok(value) => Ok(value),
        Err(_) => Err(InvalidToken),
    }
}

} // verus!
