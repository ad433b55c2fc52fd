//! The calls into other crates, with what the rest of the library relies on of each.
use crate::text::{is_space, lowered, uppered};
use bytes::Bytes;
use reqwest::header::{HeaderMap, HeaderName, HeaderValue};
use reqwest::Method;
use serde_json::Value;
use std::str::FromStr;
use url::Url;
use vstd::prelude::*;
use vstd::utf8::{decode_utf8, encode_utf8, is_ascii_chars, valid_utf8};

verus! {

/// The header values of the `http` crate; opaque here.
#[verifier::external_type_specification]
#[verifier::external_body]
pub struct ExHeaderValue(HeaderValue);

/// The header collection of the `http` crate; its contents are `header_values`.
#[verifier::external_type_specification]
#[verifier::external_body]
#[verifier::reject_recursive_types(T)]
pub struct ExHeaderMap<T>(HeaderMap<T>);

/// The shared byte buffers of the `bytes` crate; their contents are `body_bytes`.
#[verifier::external_type_specification]
#[verifier::external_body]
pub struct ExBytes(Bytes);

/// What a header collection holds: for each header name, in lower case, the bytes of its values,
/// in the order in which they were added.
pub uninterp spec fn header_values(headers: HeaderMap) -> Map<Seq<char>, Seq<Seq<u8>>>;

/// The bytes that a buffer holds.
pub uninterp spec fn body_bytes(body: Bytes) -> Seq<u8>;

/// The words into which a POSIX shell splits a command; nothing where a quotation is left open
/// or a backslash ends the command.
pub uninterp spec fn shell_words(input: Seq<char>) -> Option<Seq<Seq<char>>>;

/// The host and the explicit port of a URL; nothing where the text is no absolute URL. A port
/// that is the default of the scheme does not count as explicit.
pub uninterp spec fn url_authority(text: Seq<char>) -> Option<(Option<Seq<char>>, Option<u16>)>;

/// The upper-case form of a text by the Unicode rules.
pub uninterp spec fn uppercase(text: Seq<char>) -> Seq<char>;

/// The text that some bytes spell in UTF-8, every malformed part replaced by U+FFFD.
pub uninterp spec fn lossy_text(bytes: Seq<u8>) -> Seq<char>;

/// The indented form of a JSON document; nothing where the text is no JSON document.
pub uninterp spec fn pretty_json(text: Seq<char>) -> Option<Seq<char>>;

/// The indented JSON text of an object with the given members, all of them strings.
pub uninterp spec fn json_object_text(members: Map<Seq<char>, Seq<char>>) -> Seq<char>;

/// The members of a JSON object: for each its name, whether its value is a string, and the
/// string or else the compact JSON text of the value. `None` where the text is no JSON document,
/// `Some(None)` where the document is no object.
pub uninterp spec fn json_members(text: Seq<char>) -> Option<
    Option<Seq<(Seq<char>, bool, Seq<char>)>>,
>;

/// A text in upper case: an ASCII text letter by letter, any other one by the Unicode rules.
pub open spec fn upper_case(text: Seq<char>) -> Seq<char> {
    if is_ascii_chars(text) {
        uppered(text)
    } else {
        uppercase(text)
    }
}

/// The text that some bytes spell: well-formed UTF-8 as it is, the rest as well as can be.
pub open spec fn bytes_text(bytes: Seq<u8>) -> Seq<char> {
    if valid_utf8(bytes) {
        decode_utf8(bytes)
    } else {
        lossy_text(bytes)
    }
}

/// The characters that HTTP allows in a token.
pub open spec fn is_token_char(c: char) -> bool {
    ||| ('0' <= c && c <= '9')
    ||| ('A' <= c && c <= 'Z')
    ||| ('a' <= c && c <= 'z')
    ||| c == '!'
    ||| c == '#'
    ||| c == '$'
    ||| c == '%'
    ||| c == '&'
    ||| c == '\''
    ||| c == '*'
    ||| c == '+'
    ||| c == '-'
    ||| c == '.'
    ||| c == '^'
    ||| c == '_'
    ||| c == '`'
    ||| c == '|'
    ||| c == '~'
}

/// A non-empty text of token characters.
pub open spec fn is_token(text: Seq<char>) -> bool {
    &&& text.len() > 0
    &&& forall|i: int| 0 <= i < text.len() ==> is_token_char(#[trigger] text[i])
}

/// A token that is short enough to name a header.
pub open spec fn is_header_name(text: Seq<char>) -> bool {
    is_token(text) && text.len() <= 65535
}

/// A text that a header can carry: no control character but the tab.
pub open spec fn is_header_value(text: Seq<char>) -> bool {
    forall|i: int|
        0 <= i < text.len() ==> {
            let u = (#[trigger] text[i]) as u32;
            u == 9 || (u >= 32 && u != 127)
        }
}

/// How many header names a collection is sure to have room for.
pub const HEADER_ROOM: usize = 6554;

/// The texts of some strings.
pub open spec fn texts(strings: Seq<String>) -> Seq<Seq<char>> {
    strings.map_values(|s: String| s@)
}

/// The texts of some pairs of strings.
pub open spec fn text_pairs(pairs: Seq<(String, String)>) -> Seq<(Seq<char>, Seq<char>)> {
    pairs.map_values(|p: (String, String)| (p.0@, p.1@))
}

/// The object that comes of adding the pairs one after the other; a name that comes again
/// replaces the value that it had.
pub open spec fn object_of(pairs: Seq<(Seq<char>, Seq<char>)>) -> Map<Seq<char>, Seq<char>>
    decreases pairs.len(),
{
    if pairs.len() == 0 {
        Map::empty()
    } else {
        object_of(pairs.drop_last()).insert(pairs.last().0, pairs.last().1)
    }
}

/// The texts and bytes of some listed headers.
pub open spec fn header_list(pairs: Seq<(String, Vec<u8>)>) -> Seq<(Seq<char>, Seq<u8>)> {
    pairs.map_values(|p: (String, Vec<u8>)| (p.0@, p.1@))
}

/// The values that a list of headers gives for one name, in the order of the list.
pub open spec fn values_named(list: Seq<(Seq<char>, Seq<u8>)>, name: Seq<char>) -> Seq<Seq<u8>>
    decreases list.len(),
{
    if list.len() == 0 {
        Seq::empty()
    } else if list.last().0 == name {
        values_named(list.drop_last(), name).push(list.last().1)
    } else {
        values_named(list.drop_last(), name)
    }
}

/// The values that a collection holds for a name; none where it lacks the name.
pub open spec fn values_of(headers: Map<Seq<char>, Seq<Seq<u8>>>, name: Seq<char>) -> Seq<
    Seq<u8>,
> {
    if headers.dom().contains(name) {
        headers[name]
    } else {
        Seq::empty()
    }
}

/// The members are all strings, no name comes twice, and they are those of `object`.
pub open spec fn members_are(
    members: Seq<(Seq<char>, bool, Seq<char>)>,
    object: Map<Seq<char>, Seq<char>>,
) -> bool {
    &&& forall|i: int|
        0 <= i < members.len() ==> {
            let m = #[trigger] members[i];
            m.1 && object.dom().contains(m.0) && object[m.0] == m.2
        }
    &&& forall|name: Seq<char>| #[trigger]
        object.dom().contains(name) ==> exists|i: int|
            0 <= i < members.len() && (#[trigger] members[i]).0 == name
    &&& forall|i: int, j: int|
        0 <= i < j < members.len() ==> (#[trigger] members[i]).0 != (#[trigger] members[j]).0
}

/// The text is a JSON object with the members of `object`.
pub open spec fn reads_back(text: Seq<char>, object: Map<Seq<char>, Seq<char>>) -> bool {
    match json_members(text) {
        Some(Some(members)) => members_are(members, object),
        _ => false,
    }
}

/// A decimal digit.
pub open spec fn is_digit(c: char) -> bool {
    '0' <= c && c <= '9'
}

/// The number that some digits spell.
pub open spec fn digits_value(digits: Seq<char>) -> int
    decreases digits.len(),
{
    if digits.len() == 0 {
        0
    } else {
        digits_value(digits.drop_last()) * 10 + (digits.last() as u32 - '0' as u32)
    }
}

/// Whether the place `i` is outside the strings of a JSON document that holds no backslash: an
/// even number of quotation marks comes before it.
pub open spec fn outside_strings(text: Seq<char>, i: int) -> bool {
    text.take(i).filter(|c: char| c == '"').len() % 2 == 0
}

/// Every number in a JSON document that holds no backslash is written as an integer, and of a
/// magnitude that 64 bits with a sign can hold.
pub open spec fn whole_numbers(text: Seq<char>) -> bool {
    &&& forall|i: int|
        0 <= i < text.len() && #[trigger] outside_strings(text, i) ==> {
            &&& text[i] != '.'
            &&& i > 0 && is_digit(text[i - 1]) ==> text[i] != 'e' && text[i] != 'E'
        }
    &&& forall|i: int, j: int|
        0 <= i < j <= text.len() && outside_strings(text, i) && (forall|k: int|
            i <= k < j ==> is_digit(#[trigger] text[k])) ==> digits_value(
            #[trigger] text.subrange(i, j),
        ) <= 0x8000_0000_0000_0000
}

/// What holds of a JSON document and its indented form: that has no white space at its ends and
/// no dollar sign before it, it gets no backslash where the document has none, and where also
/// every number is a whole one it is indented to itself.
pub open spec fn indents_to(text: Seq<char>, indented: Seq<char>) -> bool {
    &&& indented.len() > 0
    &&& !is_space(indented.first()) && !is_space(indented.last()) && indented.first() != '$'
    &&& !text.contains('\\') ==> !indented.contains('\\')
    &&& !text.contains('\\') && whole_numbers(text) ==> pretty_json(indented) == Some(indented)
}

/// The text begins and ends with a brace.
pub open spec fn in_braces(text: Seq<char>) -> bool {
    text.len() >= 2 && text.first() == '{' && text.last() == '}'
}

/// The value of a JSON member, as text.
#[derive(Debug)]
pub enum JsonValue {
    /// A JSON string.
    Text(String),
    /// Any other value, printed as compact JSON.
    Printed(String),
}

/// The name of a member with what its value is and reads.
pub open spec fn member_view(member: (String, JsonValue)) -> (Seq<char>, bool, Seq<char>) {
    match member.1 {
        JsonValue::Text(s) => (member.0@, true, s@),
        JsonValue::Printed(s) => (member.0@, false, s@),
    }
}

/// The members of a JSON object as `json_members` lists them.
pub open spec fn members_view(members: Seq<(String, JsonValue)>) -> Seq<
    (Seq<char>, bool, Seq<char>),
> {
    members.map_values(|m: (String, JsonValue)| member_view(m))
}

/// The members of a JSON object, or what stands in place of them.
pub open spec fn members_result(members: Option<Option<Vec<(String, JsonValue)>>>) -> Option<
    Option<Seq<(Seq<char>, bool, Seq<char>)>>,
> {
    match members {
        Some(Some(list)) => Some(Some(members_view(list@))),
        Some(None) => Some(None),
        None => None,
    }
}

/// How many members were read.
pub open spec fn member_count(members: Option<Option<Vec<(String, JsonValue)>>>) -> nat {
    match members {
        Some(Some(list)) => list@.len(),
        _ => 0,
    }
}

/// The host and the port of a URL, or what stands in place of them.
pub open spec fn authority_result(authority: Option<(Option<String>, Option<u16>)>) -> Option<
    (Option<Seq<char>>, Option<u16>),
> {
    match authority {
        Some((Some(host), port)) => Some((Some(host@), port)),
        Some((None, port)) => Some((None, port)),
        None => None,
    }
}

/// The text begins as the address of a web server does.
pub open spec fn is_web_address(text: Seq<char>) -> bool {
    "http://"@.is_prefix_of(text) || "https://"@.is_prefix_of(text)
}

/// Wherever there is an authority it has a host, and that can stand in a header.
pub open spec fn names_host(authority: Option<(Option<Seq<char>>, Option<u16>)>) -> bool {
    match authority {
        Some((Some(host), _)) => is_header_value(host),
        Some((None, _)) => false,
        None => true,
    }
}

/// The contents of a collection without headers.
pub open spec fn no_headers() -> Map<Seq<char>, Seq<Seq<u8>>> {
    Map::empty()
}

/// `HeaderMap::new`: a collection without headers.
#[verifier::external_body]
pub(crate) fn new_headers() -> (r: HeaderMap)
    ensures
        header_values(r) == no_headers(),
{
    HeaderMap::new()
}

/// `HeaderMap::clone`: a collection with the same headers.
#[verifier::external_body]
pub(crate) fn clone_headers(headers: &HeaderMap) -> (r: HeaderMap)
    ensures
        header_values(r) == header_values(*headers),
{
    headers.clone()
}

/// `HeaderMap::try_insert`: `value` becomes the only value of `name`. It refuses, and changes
/// nothing, only where the collection already holds `HEADER_ROOM` names; from there on whether
/// it refuses depends on how the names hash, and nothing is claimed.
#[verifier::external_body]
pub(crate) fn insert_header(headers: &mut HeaderMap, name: &str, value: &str) -> (done: bool)
    requires
        is_header_name(name@),
        is_header_value(value@),
    ensures
        done ==> header_values(*final(headers)) == header_values(*old(headers)).insert(
            lowered(name@),
            seq![encode_utf8(value@)],
        ),
        !done ==> header_values(*final(headers)) == header_values(*old(headers)),
        !done ==> header_values(*old(headers)).dom().len() >= HEADER_ROOM,
{
    let key = HeaderName::from_str(name).expect("a header name");
    let val = HeaderValue::from_str(value).expect("a header value");
    headers.try_insert(key, val).is_ok()
}

/// `HeaderMap::contains_key`: whether there is a value for `name`, whatever its case.
#[verifier::external_body]
pub(crate) fn has_header(headers: &HeaderMap, name: &str) -> (r: bool)
    requires
        is_header_name(name@),
    ensures
        r == header_values(*headers).dom().contains(lowered(name@)),
{
    headers.contains_key(name)
}

/// `HeaderMap::iter`: every value with the name it belongs to, the values of one name in their
/// order. In which order the names come is not claimed.
#[verifier::external_body]
pub(crate) fn list_headers(headers: &HeaderMap) -> (r: Vec<(String, Vec<u8>)>)
    ensures
        forall|name: Seq<char>| #[trigger]
            values_named(header_list(r@), name) == values_of(header_values(*headers), name),
{
    headers.iter().map(|(k, v)| (k.as_str().to_owned(), v.as_bytes().to_vec())).collect()
}

/// `Method::from_str`: accepts exactly the tokens, and keeps their text.
#[verifier::external_body]
pub(crate) fn method_text(text: &str) -> (r: Option<String>)
    ensures
        match r {
            Some(m) => is_token(text@) && m@ == text@,
            None => !is_token(text@),
        },
{
    Method::from_str(text).ok().map(|m| m.as_str().to_owned())
}

/// `HeaderName::from_str`: accepts the tokens of up to 65535 characters, and lowers their case.
#[verifier::external_body]
pub(crate) fn header_name_text(text: &str) -> (r: Option<String>)
    ensures
        match r {
            Some(n) => is_header_name(text@) && n@ == lowered(text@),
            None => !is_header_name(text@),
        },
{
    HeaderName::from_str(text).ok().map(|n| n.as_str().to_owned())
}

/// `HeaderValue::from_str`: accepts every text without control characters other than the tab.
#[verifier::external_body]
pub(crate) fn header_value_allowed(text: &str) -> (r: bool)
    ensures
        r == is_header_value(text@),
{
    HeaderValue::from_str(text).is_ok()
}

/// `Bytes::from` a vector: the buffer holds the UTF-8 bytes of `text`.
#[verifier::external_body]
pub(crate) fn body_from_text(text: &str) -> (r: Bytes)
    ensures
        body_bytes(r) == encode_utf8(text@),
{
    Bytes::from(text.as_bytes().to_vec())
}

/// `Bytes::clone`: a buffer with the same bytes.
#[verifier::external_body]
pub(crate) fn clone_body(body: &Bytes) -> (r: Bytes)
    ensures
        body_bytes(r) == body_bytes(*body),
{
    body.clone()
}

/// `String::from_utf8_lossy`: the text that the buffer spells. Well-formed UTF-8 is decoded as
/// it is; what a malformed part becomes is only named.
#[verifier::external_body]
pub(crate) fn body_text(body: &Bytes) -> (r: String)
    ensures
        r@ == lossy_text(body_bytes(*body)),
        valid_utf8(body_bytes(*body)) ==> r@ == decode_utf8(body_bytes(*body)),
{
    String::from_utf8_lossy(body).into_owned()
}

/// `shlex::split`: the words of a shell command, under the name `shell_words`. There are no more
/// words than characters, since each word begins with a character of its own.
#[verifier::external_body]
pub(crate) fn split_words(input: &str) -> (r: Option<Vec<String>>)
    ensures
        match r {
            Some(words) => shell_words(input@) == Some(texts(words@)) && words@.len()
                <= input@.len(),
            None => shell_words(input@) is None,
        },
{
    shlex::split(input)
}

/// `Url::parse` with `host_str` and `port` of what it returns, under the name `url_authority`. The
/// address of a web server is a URL only with a host, which is an IP address or an ASCII domain
/// without control characters.
#[verifier::external_body]
pub(crate) fn read_url(text: &str) -> (r: Option<(Option<String>, Option<u16>)>)
    ensures
        url_authority(text@) == authority_result(r),
        is_web_address(text@) ==> names_host(authority_result(r)),
{
    Url::parse(text).ok().map(|u| (u.host_str().map(|h| h.to_owned()), u.port()))
}

/// `str::to_uppercase` of the standard library, under the name `uppercase`; an ASCII text gets
/// its letters in upper case, and nothing else changes.
#[verifier::external_body]
pub(crate) fn to_uppercase(text: &str) -> (r: String)
    ensures
        r@ == uppercase(text@),
        is_ascii_chars(text@) ==> r@ == uppered(text@),
{
    text.to_uppercase()
}

/// `serde_json::from_str` and `serde_json::to_string_pretty` of what it read, under the name
/// `pretty_json`. The result begins and ends as a JSON value does, escapes nothing that was not
/// escaped before, and prints the same again unless there are numbers that are read as floating
/// point.
#[verifier::external_body]
pub(crate) fn indent_json(text: &str) -> (r: Option<String>)
    ensures
        match r {
            Some(s) => pretty_json(text@) == Some(s@) && indents_to(text@, s@),
            None => pretty_json(text@) is None,
        },
{
    let value: Option<Value> = serde_json::from_str(text).ok();
    value.and_then(|v| serde_json::to_string_pretty(&v).ok())
}

/// `serde_json::to_string_pretty` of an object that `pairs` fill, under the name
/// `json_object_text`. It does not fail on strings, what it writes stands in braces, and
/// `json_members` of the text gives the object back.
#[verifier::external_body]
pub(crate) fn write_json_object(pairs: &Vec<(String, String)>) -> (r: Option<String>)
    ensures
        r is Some,
        r->0@ == json_object_text(object_of(text_pairs(pairs@))),
        in_braces(r->0@),
        reads_back(r->0@, object_of(text_pairs(pairs@))),
{
    let members = pairs.iter().map(|(k, v)| (k.clone(), Value::String(v.clone()))).collect();
    serde_json::to_string_pretty(&Value::Object(members)).ok()
}

/// `serde_json::from_str` into the members of an object, under the name `json_members`. There are
/// no more members than characters, since each is written with characters of its own.
#[verifier::external_body]
pub(crate) fn read_json_object(text: &str) -> (r: Option<Option<Vec<(String, JsonValue)>>>)
    ensures
        json_members(text@) == members_result(r),
        member_count(r) <= text@.len(),
{
    let printed = |v: Value| match v {
        Value::String(s) => JsonValue::Text(s),
        other => JsonValue::Printed(other.to_string()),
    };
    match serde_json::from_str(text) {
        Ok(Value::Object(members)) => {
            Some(Some(members.into_iter().map(|(name, v)| (name, printed(v))).collect()))
        },
        Ok(_) => Some(None),
        Err(_) => None,
    }
}

} // verus!
