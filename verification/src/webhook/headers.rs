//! The headers of the HTTP requests that deliver webhooks.

use reqwest::header::HeaderName;
use reqwest::header::HeaderValue;
use vstd::prelude::*;
use vstd::utf8::*;

use crate::table::Dict;
use crate::text::opt_text;

verus! {

/// A character that the name of a header may hold.
pub open spec fn header_char(c: char) -> bool {
    ||| 'a' <= c <= 'z'
    ||| 'A' <= c <= 'Z'
    ||| '0' <= c <= '9'
    ||| seq!['!', '#', '$', '%', '&', '\'', '*', '+', '-', '.', '^', '_', '`', '|', '~'].contains(c)
}

/// A letter in lower case; any other character as it is.
pub open spec fn lower(c: char) -> char {
    if 'A' <= c <= 'Z' {
        (c as u32 + 32) as char
    } else {
        c
    }
}

/// The name of a header, in lower case, where the text is one.
pub open spec fn header_name(text: Seq<char>) -> Option<Seq<char>> {
    if 0 < text.len() <= 65535 && forall|i: int|
        0 <= i < text.len() ==> header_char(#[trigger] text[i]) {
        Some(text.map_values(|c: char| lower(c)))
    } else {
        None
    }
}

/// Whether a text can be the value of a header: none of its bytes is a control character, but for
/// tabs.
pub open spec fn header_value(text: Seq<char>) -> bool {
    forall|i: int|
        0 <= i < encode_utf8(text).len() ==> {
            let b = #[trigger] encode_utf8(text)[i];
            b >= 32 && b != 127 || b == 9
        }
}

/// `reqwest::header::HeaderName` read from a text: the name in lower case. The text holds letters,
/// digits and a few other characters, at least one and at most 65535.
#[verifier::external_body]
fn read_name(text: &str) -> (r: Option<String>)
    ensures
        opt_text(r) == header_name(text@),
{
    text.parse::<HeaderName>().ok().map(|name| name.as_str().to_string())
}

/// `reqwest::header::HeaderValue` read from a text: it is refused where the text holds a control
/// character that is no tab.
#[verifier::external_body]
fn is_value(text: &str) -> (r: bool)
    ensures
        r == header_value(text@),
{
    text.parse::<HeaderValue>().is_ok()
}

/// Whether `key` and `value` make a header with this name.
pub open spec fn makes_header(
    headers: Map<Seq<char>, Seq<char>>,
    key: Seq<char>,
    name: Seq<char>,
    value: Seq<char>,
) -> bool {
    &&& headers.contains_key(key)
    &&& headers[key] == value
    &&& header_name(key) == Some(name)
    &&& header_value(value)
}

/// Whether `sent` are the headers of a request: the type of the content, and those of `headers` that
/// are headers, which may replace it. Where several of them have one name, one of them is sent.
pub open spec fn are_headers(
    headers: Map<Seq<char>, Seq<char>>,
    sent: Map<Seq<char>, Seq<char>>,
) -> bool {
    &&& sent.contains_key("content-type"@)
    &&& forall|key: Seq<char>, name: Seq<char>, value: Seq<char>| #[trigger]
        makes_header(headers, key, name, value) ==> sent.contains_key(name)
    &&& forall|name: Seq<char>| #[trigger]
        sent.contains_key(name) ==> {
            ||| exists|key: Seq<char>| #[trigger] makes_header(headers, key, name, sent[name])
            ||| name == "content-type"@ && sent[name] == "application/json"@ && forall|
                key: Seq<char>,
                value: Seq<char>,
            | !#[trigger] makes_header(headers, key, name, value)
        }
}

/// The headers of a request that delivers a webhook.
pub fn request_headers(headers: &Dict<String>) -> (r: Dict<String>)
    ensures
        are_headers(headers@, r@),
{
    let mut r: Dict<String> = Dict::new();
    r.insert("content-type".to_string(), "application/json".to_string());
    let n: usize = headers.len();
    let ghost order = headers.order();
    let mut i: usize = 0;
    while i < n
        invariant
            i <= n,
            n == order.len(),
            order == headers.order(),
            r@.contains_key("content-type"@),
            forall|j: int, name: Seq<char>, value: Seq<char>|
                0 <= j < i && #[trigger] makes_header(headers@, order[j], name, value)
                    ==> r@.contains_key(name),
            forall|name: Seq<char>| #[trigger]
                r@.contains_key(name) ==> {
                    ||| exists|key: Seq<char>| #[trigger]
                        makes_header(headers@, key, name, r@[name])
                    ||| name == "content-type"@ && r@[name] == "application/json"@ && forall|
                        j: int,
                        value: Seq<char>,
                    |
                        0 <= j < i ==> !#[trigger] makes_header(headers@, order[j], name, value)
                },
        decreases n - i,
    {
        let key = headers.key_at(i);
        let value = headers.value_at(i);
        let ghost before = r@;
        match read_name(key.as_str()) {
            Some(name) => if is_value(value.as_str()) {
                assert(makes_header(headers@, key@, name@, value@));
                r.insert(name, value.clone());
            },
            None => {},
        }
        proof {
            assert forall|name: Seq<char>| #[trigger] r@.contains_key(name) implies {
                ||| exists|k: Seq<char>| #[trigger] makes_header(headers@, k, name, r@[name])
                ||| name == "content-type"@ && r@[name] == "application/json"@ && forall|
                    j: int,
                    v: Seq<char>,
                |
                    0 <= j < i + 1 ==> !#[trigger] makes_header(headers@, order[j], name, v)
            } by {
                if header_name(key@) == Some(name) && header_value(value@) {
                    assert(makes_header(headers@, key@, name, r@[name]));
                } else {
                    assert(before.contains_key(name) && before[name] == r@[name]);
                    assert forall|v: Seq<char>| !#[trigger] makes_header(
                        headers@,
                        order[i as int],
                        name,
                        v,
                    ) by {}
                }
            }
        }
        i = i + 1;
    }
    proof {
        assert forall|key: Seq<char>, name: Seq<char>, value: Seq<char>| #[trigger]
            makes_header(headers@, key, name, value) implies exists|j: int|
            0 <= j < n && #[trigger] order[j] == key by {
            assert(order.to_set().contains(key));
            let j = choose|j: int| 0 <= j < order.len() && order[j] == key;
            assert(order[j] == key);
        }
    }
    r
}

/// A request says that its content is JSON, unless one of the webhook's headers says otherwise. Each
/// of these that is a header is sent, under its name in lower case, with its value where no other
/// has the name; and nothing else is sent.
pub proof fn request_says_its_content_is_json(
    headers: Map<Seq<char>, Seq<char>>,
    sent: Map<Seq<char>, Seq<char>>,
    key: Seq<char>,
    name: Seq<char>,
)
    requires
        are_headers(headers, sent),
        headers.contains_key(key),
        header_name(key) == Some(name),
        forall|other: Seq<char>| #[trigger]
            headers.contains_key(other) && header_name(other) == Some(name) ==> other == key,
    ensures
        header_value(headers[key]) ==> sent.contains_key(name) && sent[name] == headers[key],
        !header_value(headers[key]) && name != "content-type"@ ==> !sent.contains_key(name),
        !header_value(headers[key]) && name == "content-type"@ ==> sent[name]
            == "application/json"@,
        (forall|other: Seq<char>| #[trigger]
            headers.contains_key(other) ==> header_name(other) != Some("content-type"@)) ==> {
            &&& sent.contains_key("content-type"@)
            &&& sent["content-type"@] == "application/json"@
        },
{
    if header_value(headers[key]) {
        assert(makes_header(headers, key, name, headers[key]));
    }
    if sent.contains_key(name) && exists|k: Seq<char>| #[trigger]
        makes_header(headers, k, name, sent[name]) {
        let k = choose|k: Seq<char>| #[trigger] makes_header(headers, k, name, sent[name]);
        assert(headers.contains_key(k));
    }
    let kind = "content-type"@;
    if exists|k: Seq<char>| #[trigger] makes_header(headers, k, kind, sent[kind]) {
        let k = choose|k: Seq<char>| #[trigger] makes_header(headers, k, kind, sent[kind]);
        assert(headers.contains_key(k));
    }
}

} // verus!
