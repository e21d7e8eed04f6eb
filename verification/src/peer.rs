//! Peers: who a conversation is with, written `source:id`.

use crate::event::text_at;
use crate::json::{Json, JsonView};
use crate::numbers::{signed_decimal, signed_decimal_string};
use crate::text::{before_char, chars_of, index_of_char, same, string_range, trim, trimmed};
use crate::tool::opt_text;
use vstd::prelude::*;

verus! {

broadcast use vstd::string::group_string_axioms;

/// The two parts of `s` around its first `c`.
pub open spec fn split_once(s: Seq<char>, c: char) -> Option<(Seq<char>, Seq<char>)> {
    let n = before_char(s, c);
    if n < s.len() {
        Some((s.take(n as int), s.skip(n as int + 1)))
    } else {
        None
    }
}

/// The two parts of `s` around its first `c`.
pub fn split_once_at(s: &str, c: char) -> (r: Option<(String, String)>)
    ensures
        match r {
            Some((a, b)) => split_once(s@, c) == Some((a@, b@)),
            None => split_once(s@, c) is None,
        },
{
    let chars = chars_of(s);
    let n = index_of_char(&chars, c, 0);
    assert(chars@.skip(0) =~= s@);
    if n < chars.len() {
        let a = string_range(&chars, 0, n);
        let b = string_range(&chars, n + 1, chars.len());
        assert(a@ =~= s@.take(n as int));
        assert(b@ =~= s@.skip(n + 1));
        Some((a, b))
    } else {
        None
    }
}

/// The id within `source` that a peer id names: what follows the first colon, where that is not
/// empty and where the part before it is `source` (any, where `source` is empty).
pub open spec fn chat_id_of_peer(peer_id: Seq<char>, source: Seq<char>) -> Option<Seq<char>> {
    match split_once(peer_id, ':') {
        Some((prefix, id)) => if id.len() > 0 && (source.len() == 0 || prefix == source) {
            Some(id)
        } else {
            None
        },
        None => None,
    }
}

/// The id within `source` that a peer id names.
pub fn chat_id_from_peer_id(peer_id: &str, source: &str) -> (r: Option<String>)
    ensures
        opt_text(r) == chat_id_of_peer(peer_id@, source@),
{
    match split_once_at(peer_id, ':') {
        Some((prefix, id)) => {
            if id.as_str().is_empty() {
                return None;
            }
            if !source.is_empty() && !same(prefix.as_str(), source) {
                return None;
            }
            Some(id)
        },
        None => None,
    }
}

/// The first of two that is there.
pub open spec fn first_some<T>(a: Option<T>, b: Option<T>) -> Option<T> {
    if a is Some {
        a
    } else {
        b
    }
}

/// A member of the payload that is an integer, in decimal.
pub open spec fn int_at(data: JsonView, key: Seq<char>) -> Option<Seq<char>> {
    match data.at(key).as_i64() {
        Some(n) => Some(signed_decimal(n as int)),
        None => None,
    }
}

/// A member of the payload that is an integer, in decimal.
pub fn decimal_at(data: &Json, key: &str) -> (r: Option<String>)
    ensures
        opt_text(r) == int_at(data@, key@),
{
    match data.get(key) {
        Some(v) => match v.as_i64() {
            Some(n) => Some(signed_decimal_string(n)),
            None => None,
        },
        None => None,
    }
}

/// The id that a payload carries: the chat's, as text or as a number, else the sender's, else the
/// user's.
pub open spec fn raw_id(data: JsonView) -> Option<Seq<char>> {
    first_some(
        first_some(data.str_at("chat_id"@), int_at(data, "chat_id"@)),
        first_some(data.str_at("from_user_id"@), data.str_at("user_id"@)),
    )
}

/// The source that a payload names, where none is given: its source, else its platform, else
/// none.
pub open spec fn payload_source(data: JsonView, source: Seq<char>) -> Seq<char> {
    if source.len() > 0 {
        source
    } else {
        match first_some(data.str_at("source"@), data.str_at("platform"@)) {
            Some(s) => s,
            None => ""@,
        }
    }
}

/// The peer id that a payload gives: `source:id`, where both are there and the id is not blank.
pub open spec fn derived_peer(data: JsonView, source: Seq<char>) -> Option<Seq<char>> {
    let named = payload_source(data, source);
    match raw_id(data) {
        Some(id) => if named.len() > 0 && trim(id).len() > 0 {
            Some(named + ":"@ + trim(id))
        } else {
            None
        },
        None => None,
    }
}

/// The first of two optional strings that is there.
pub fn or_text(a: Option<String>, b: Option<String>) -> (r: Option<String>)
    ensures
        opt_text(r) == first_some(opt_text(a), opt_text(b)),
{
    match a {
        Some(s) => Some(s),
        None => b,
    }
}

/// The source that a payload names, where none is given.
pub fn source_of(data: &Json, source: &str) -> (r: String)
    ensures
        r@ == payload_source(data@, source@),
{
    if !source.is_empty() {
        return source.to_owned();
    }
    match or_text(text_at(data, "source"), text_at(data, "platform")) {
        Some(s) => s,
        None => "".to_owned(),
    }
}

/// The peer id that a payload gives.
pub fn derive_peer_id(data: &Json, source: &str) -> (r: Option<String>)
    ensures
        opt_text(r) == derived_peer(data@, source@),
{
    let named = source_of(data, source);
    if named.as_str().is_empty() {
        return None;
    }
    let chat = or_text(text_at(data, "chat_id"), decimal_at(data, "chat_id"));
    let user = or_text(text_at(data, "from_user_id"), text_at(data, "user_id"));
    match or_text(chat, user) {
        Some(id) => {
            let id = trimmed(id.as_str());
            if id.as_str().is_empty() {
                None
            } else {
                let mut out = named;
                out.append(":");
                out.append(id.as_str());
                Some(out)
            }
        },
        None => None,
    }
}

/// The id of a peer id made from a source without a colon and a nonempty id is that id.
pub proof fn peer_id_round_trip(source: Seq<char>, id: Seq<char>)
    requires
        id.len() > 0,
        forall|i: int| 0 <= i < source.len() ==> source[i] != ':',
    ensures
        chat_id_of_peer(source + seq![':'] + id, source) == Some(id),
{
    let s = source + seq![':'] + id;
    let f = crate::text::other_than(':');
    assert forall|i: int| 0 <= i < source.len() implies f(#[trigger] s[i]) by {
        assert(s[i] == source[i]);
    }
    assert(s[source.len() as int] == ':');
    crate::text::lemma_prefix_len(s, f, source.len());
    assert(s.take(source.len() as int) =~= source);
    assert(s.skip(source.len() as int + 1) =~= id);
}

} // verus!
