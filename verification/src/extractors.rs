//! Reading correlation headers of incoming HTTP requests.
use axum::http::{HeaderMap, HeaderValue};
use vstd::prelude::*;

use crate::text::push_char;

verus! {

#[verifier::external_type_specification]
#[verifier::external_body]
#[verifier::reject_recursive_types(T)]
pub struct ExHeaderMap<T>(HeaderMap<T>);

/// Declared because `HeaderMap` stands for `HeaderMap<HeaderValue>`.
#[verifier::external_type_specification]
#[verifier::external_body]
pub struct ExHeaderValue(HeaderValue);

/// What a header map holds: for each header name (lower case), the bytes of
/// its values in insertion order.
pub uninterp spec fn header_entries(headers: HeaderMap) -> Map<Seq<char>, Seq<Seq<u8>>>;

/// The first value stored under `name`, if any.
pub open spec fn first_header_value(entries: Map<Seq<char>, Seq<Seq<u8>>>, name: Seq<char>) -> Option<Seq<u8>> {
    if entries.dom().contains(name) && entries[name].len() > 0 {
        Some(entries[name][0])
    } else {
        None
    }
}

/// A header name written in lower case: ASCII letters, digits and `-`.
pub open spec fn is_lowercase_header_name(name: Seq<char>) -> bool {
    &&& name.len() > 0
    &&& forall|i: int| 0 <= i < name.len() ==> ('a' <= #[trigger] name[i] <= 'z' || '0' <= name[i] <= '9' || name[i] == '-')
}

/// `HeaderMap::get` by a lower-case name: the bytes of the first value
/// stored under the name, or `None` when there is none.
#[verifier::external_body]
fn header_value_bytes(headers: &HeaderMap, name: &str) -> (r: Option<Vec<u8>>)
    requires
        is_lowercase_header_name(name@),
    ensures
        match r {
            Some(v) => first_header_value(header_entries(*headers), name@) == Some(v@),
            None => first_header_value(header_entries(*headers), name@) is None,
        },
{
    match headers.get(name) {
        Some(value) => Some(value.as_bytes().to_vec()),
        None => None,
    }
}

/// A byte that may appear in a header value read as text: visible ASCII or tab.
pub open spec fn is_visible_ascii(b: u8) -> bool {
    (32 <= b && b < 127) || b == 9
}

/// A header value as text: its bytes as characters when all are visible
/// ASCII, `None` otherwise.
pub open spec fn header_text(bytes: Seq<u8>) -> Option<Seq<char>> {
    if forall|i: int| 0 <= i < bytes.len() ==> is_visible_ascii(#[trigger] bytes[i]) {
        Some(bytes.map_values(|b: u8| b as char))
    } else {
        None
    }
}

/// Text law: a header value reads as text exactly when each of its bytes is
/// in 32..=126 or is a tab (9), and the text is then those bytes, one
/// character each, unchanged.
pub proof fn lemma_header_text_bytes(bytes: Seq<u8>)
    ensures
        header_text(bytes) is Some <==> forall|i: int|
            0 <= i < bytes.len() ==> (32 <= #[trigger] bytes[i] <= 126 || bytes[i] == 9),
        header_text(bytes) is Some ==> header_text(bytes).unwrap().len() == bytes.len()
            && forall|i: int| 0 <= i < bytes.len() ==> #[trigger] header_text(bytes).unwrap()[i] == bytes[i] as char,
{
}

/// The text of a header, if present and made of visible ASCII only.
pub open spec fn header_as_text(headers: HeaderMap, name: Seq<char>) -> Option<Seq<char>> {
    match first_header_value(header_entries(headers), name) {
        Some(bytes) => header_text(bytes),
        None => None,
    }
}

/// Reads header bytes as text when every byte is visible ASCII.
fn visible_text(bytes: &Vec<u8>) -> (r: Option<String>)
    ensures
        match r {
            Some(s) => header_text(bytes@) == Some(s@),
            None => header_text(bytes@) is None,
        },
{
    let mut text = String::new();
    let mut i: usize = 0;
    while i < bytes.len()
        invariant
            i <= bytes@.len(),
            text@ == bytes@.take(i as int).map_values(|b: u8| b as char),
            forall|j: int| 0 <= j < i ==> is_visible_ascii(#[trigger] bytes@[j]),
        decreases bytes@.len() - i,
    {
        let b = bytes[i];
        if !((32 <= b && b < 127) || b == 9) {
            assert(!is_visible_ascii(bytes@[i as int]));
            return None;
        }
        push_char(&mut text, b as char);
        assert(bytes@.take(i + 1).map_values(|b: u8| b as char) =~= bytes@.take(i as int).map_values(
            |b: u8| b as char,
        ).push(b as char));
        i = i + 1;
    }
    assert(bytes@.take(i as int) =~= bytes@);
    Some(text)
}

/// The text of a header, if present and made of visible ASCII only.
fn header_text_of(headers: &HeaderMap, name: &str) -> (r: Option<String>)
    requires
        is_lowercase_header_name(name@),
    ensures
        match r {
            Some(s) => header_as_text(*headers, name@) == Some(s@),
            None => header_as_text(*headers, name@) is None,
        },
{
    match header_value_bytes(headers, name) {
        Some(bytes) => visible_text(&bytes),
        None => None,
    }
}

/// The client address forwarded by a proxy (`x-forwarded-for`), as text.
pub fn extract_client_ip(headers: &HeaderMap) -> (r: Option<String>)
    ensures
        match r {
            Some(s) => header_as_text(*headers, "x-forwarded-for"@) == Some(s@),
            None => header_as_text(*headers, "x-forwarded-for"@) is None,
        },
{
    proof {
        reveal_strlit("x-forwarded-for");
    }
    header_text_of(headers, "x-forwarded-for")
}

/// The trace identifier of the request (`x-trace-id`), as text.
pub fn extract_trace_id(headers: &HeaderMap) -> (r: Option<String>)
    ensures
        match r {
            Some(s) => header_as_text(*headers, "x-trace-id"@) == Some(s@),
            None => header_as_text(*headers, "x-trace-id"@) is None,
        },
{
    proof {
        reveal_strlit("x-trace-id");
    }
    header_text_of(headers, "x-trace-id")
}

/// The trace identifier of a session: the `x-trace-id` header, else the
/// `x-request-id` header (set on every request by the request-id layer),
/// else empty.
pub open spec fn session_trace_text(headers: HeaderMap) -> Seq<char> {
    match header_as_text(headers, "x-trace-id"@) {
        Some(t) => t,
        None => match header_as_text(headers, "x-request-id"@) {
            Some(r) => r,
            None => Seq::empty(),
        },
    }
}

/// The trace identifier that the events of a WebSocket session carry.
pub fn session_trace_id(headers: &HeaderMap) -> (t: String)
    ensures
        t@ == session_trace_text(*headers),
{
    proof {
        reveal_strlit("x-trace-id");
        reveal_strlit("x-request-id");
    }
    match header_text_of(headers, "x-trace-id") {
        Some(t) => t,
        None => match header_text_of(headers, "x-request-id") {
            Some(r) => r,
            None => String::new(),
        },
    }
}

} // verus!
