//! JSON texts read as records: of an object only some members matter, each as often as it stands
//! there, and the others are skipped unread.

use crate::json::{json_read, Json, JsonView};
use crate::text::{chars_of, lemma_prefix_len, prefix_len, same, string_range};
use vstd::prelude::*;

verus! {

broadcast use vstd::string::group_string_axioms;

/// What stands behind the value that a text begins with, none where it begins with none. `serde_json`
/// skips the value without reading it.
pub uninterp spec fn value_skipped(text: Seq<char>) -> Option<Seq<char>>;

/// The first step of `serde_json`'s `StreamDeserializer` over `serde`'s `IgnoredAny`. What is behind
/// the skipped value is a function of the text and is named [`value_skipped`]. A value has at least
/// one character, so what is behind it is a shorter end of the text.
#[verifier::external_body]
fn skip_value(text: &str) -> (r: Option<&str>)
    ensures
        match r {
            Some(rest) => value_skipped(text@) == Some(rest@) && rest@.len() < text@.len()
                && rest@.is_suffix_of(text@),
            None => value_skipped(text@) is None,
        },
{
    let mut values = serde_json::Deserializer::from_str(text).into_iter::<serde::de::IgnoredAny>();
    match values.next() {
        Some(Ok(_)) => Some(&text[values.byte_offset()..]),
        Some(Err(_)) => None,
        None => None,
    }
}

/// The white space of JSON.
pub open spec fn json_white() -> spec_fn(char) -> bool {
    |c: char| c == ' ' || c == '\n' || c == '\t' || c == '\r'
}

/// A text without the white space at its front.
pub open spec fn unspaced(t: Seq<char>) -> Seq<char> {
    t.skip(prefix_len(t, json_white()) as int)
}

/// The member that a text begins with: its name, the text of its value, and what stands behind.
pub open spec fn first_member(t: Seq<char>) -> Option<(Seq<char>, Seq<char>, Seq<char>)> {
    if t.len() == 0 || t[0] != '"' {
        None
    } else {
        match value_skipped(t) {
            Some(w) => match json_read(t.take(t.len() - w.len())) {
                Some(JsonView::Str(name)) => {
                    let x = unspaced(w);
                    if x.len() == 0 || x[0] != ':' {
                        None
                    } else {
                        let y = x.skip(1);
                        match value_skipped(y) {
                            Some(z) => Some((name, y.take(y.len() - z.len()), z)),
                            None => None,
                        }
                    }
                },
                _ => None,
            },
            None => None,
        }
    }
}

/// The members with one of the names, in order, of an object whose remaining text is `t`; `first` says
/// whether no member has come before. None where the text is no such object, or the value of such a
/// member cannot be read.
pub open spec fn members_from(t: Seq<char>, first: bool, names: Seq<Seq<char>>) -> Option<
    Seq<(Seq<char>, JsonView)>,
>
    decreases t.len(),
{
    let u = unspaced(t);
    if u.len() == 0 {
        None
    } else if u[0] == '}' {
        if unspaced(u.skip(1)).len() == 0 {
            Some(Seq::empty())
        } else {
            None
        }
    } else if first || u[0] == ',' {
        let v = if first {
            u
        } else {
            unspaced(u.skip(1))
        };
        match first_member(v) {
            Some((name, value, rest)) => if rest.len() < t.len() {
                behind(kept_member(name, value, names), members_from(rest, false, names))
            } else {
                None
            },
            None => None,
        }
    } else {
        None
    }
}

/// The member itself, where it has one of the names, else nothing; none where its value cannot be
/// read.
pub open spec fn kept_member(name: Seq<char>, value: Seq<char>, names: Seq<Seq<char>>) -> Option<
    Seq<(Seq<char>, JsonView)>,
> {
    if names.contains(name) {
        match json_read(value) {
            Some(j) => Some(seq![(name, j)]),
            None => None,
        }
    } else {
        Some(Seq::empty())
    }
}

/// Two lists of members one behind the other, none where one of them is none.
pub open spec fn behind(
    a: Option<Seq<(Seq<char>, JsonView)>>,
    b: Option<Seq<(Seq<char>, JsonView)>>,
) -> Option<Seq<(Seq<char>, JsonView)>> {
    match (a, b) {
        (Some(a), Some(b)) => Some(a + b),
        _ => None,
    }
}

/// What a text reads as for one who looks for members with the names: an object with those members,
/// as often as they stand there, or another value.
pub open spec fn record_read(text: Seq<char>, names: Seq<Seq<char>>) -> Option<JsonView> {
    let u = unspaced(text);
    if u.len() > 0 && u[0] == '{' {
        match members_from(u.skip(1), true, names) {
            Some(entries) => Some(JsonView::Obj(entries)),
            None => None,
        }
    } else {
        json_read(text)
    }
}

/// The models of a list of names.
pub open spec fn name_views(names: Seq<&str>) -> Seq<Seq<char>> {
    names.map_values(|n: &str| n@)
}

fn after_space(chars: &Vec<char>, from: usize) -> (r: usize)
    requires
        from <= chars@.len(),
    ensures
        from <= r <= chars@.len(),
        chars@.skip(r as int) == unspaced(chars@.skip(from as int)),
{
    let ghost t = chars@.skip(from as int);
    let mut i: usize = from;
    while i < chars.len() && (chars[i] == ' ' || chars[i] == '\n' || chars[i] == '\t' || chars[i]
        == '\r')
        invariant
            from <= i <= chars@.len(),
            t == chars@.skip(from as int),
            forall|k: int| 0 <= k < i - from ==> json_white()(#[trigger] t[k]),
        decreases chars@.len() - i,
    {
        assert(t[i - from] == chars@[i as int]);
        i = i + 1;
    }
    proof {
        if i < chars@.len() {
            assert(t[i - from] == chars@[i as int]);
        }
        lemma_prefix_len(t, json_white(), (i - from) as nat);
        assert(chars@.skip(i as int) =~= t.skip(i - from));
    }
    i
}

fn after_value(chars: &Vec<char>, from: usize) -> (r: Option<usize>)
    requires
        from <= chars@.len(),
    ensures
        match r {
            Some(i) => from < i <= chars@.len() && value_skipped(chars@.skip(from as int)) == Some(
                chars@.skip(i as int),
            ),
            None => value_skipped(chars@.skip(from as int)) is None,
        },
{
    let tail = string_range(chars, from, chars.len());
    assert(tail@ =~= chars@.skip(from as int));
    match skip_value(tail.as_str()) {
        Some(rest) => {
            let left: usize = chars_of(rest).len();
            let i: usize = chars.len() - left;
            assert(rest@ =~= chars@.skip(i as int));
            Some(i)
        },
        None => None,
    }
}

fn has_name(names: &Vec<&str>, name: &str) -> (r: bool)
    ensures
        r == name_views(names@).contains(name@),
{
    let mut i: usize = 0;
    while i < names.len()
        invariant
            i <= names@.len(),
            forall|k: int| 0 <= k < i ==> (#[trigger] names@[k])@ != name@,
        decreases names@.len() - i,
    {
        if same(names[i], name) {
            assert(name_views(names@)[i as int] == name@);
            return true;
        }
        i = i + 1;
    }
    proof {
        if name_views(names@).contains(name@) {
            let k = choose|k: int|
                0 <= k < name_views(names@).len() && name_views(names@)[k] == name@;
            assert(names@[k]@ == name@);
        }
    }
    false
}

/// A member of an object in a text: its name, and where its value begins and ends.
struct Member {
    name: String,
    start: usize,
    end: usize,
}

fn member_at(chars: &Vec<char>, from: usize) -> (r: Option<Member>)
    requires
        from <= chars@.len(),
    ensures
        match r {
            Some(m) => from < m.start < m.end <= chars@.len() && first_member(
                chars@.skip(from as int),
            ) == Some(
                (
                    m.name@,
                    chars@.subrange(m.start as int, m.end as int),
                    chars@.skip(m.end as int),
                ),
            ),
            None => first_member(chars@.skip(from as int)) is None,
        },
{
    let ghost t = chars@.skip(from as int);
    if from >= chars.len() || chars[from] != '"' {
        return None;
    }
    let end_of_name = match after_value(chars, from) {
        Some(i) => i,
        None => return None,
    };
    let raw = string_range(chars, from, end_of_name);
    assert(raw@ =~= t.take(t.len() - chars@.skip(end_of_name as int).len()));
    let name = match Json::parse(raw.as_str()) {
        Some(Json::Str(s)) => s,
        _ => return None,
    };
    let colon = after_space(chars, end_of_name);
    if colon >= chars.len() || chars[colon] != ':' {
        return None;
    }
    let start: usize = colon + 1;
    assert(chars@.skip(colon as int).skip(1) =~= chars@.skip(start as int));
    match after_value(chars, start) {
        Some(end) => {
            proof {
                let y = chars@.skip(start as int);
                assert(chars@.subrange(start as int, end as int) =~= y.take(
                    y.len() - chars@.skip(end as int).len(),
                ));
            }
            Some(Member { name, start, end })
        },
        None => None,
    }
}

fn read_members(chars: &Vec<char>, from: usize, names: &Vec<&str>) -> (r: Option<Json>)
    requires
        from <= chars@.len(),
    ensures
        ({
            let expected = members_from(chars@.skip(from as int), true, name_views(names@));
            match r {
                Some(j) => j@ is Obj && expected == Some(j@->Obj_0),
                None => expected is None,
            }
        }),
{
    let ghost list = name_views(names@);
    let ghost all = members_from(chars@.skip(from as int), true, list);
    let mut out = Json::object();
    let mut first = true;
    let mut at: usize = from;
    assert(all == behind(Some(Seq::empty()), all)) by {
        if let Some(b) = all {
            assert(Seq::<(Seq<char>, JsonView)>::empty() + b =~= b);
        }
    }
    loop
        invariant
            at <= chars@.len(),
            list == name_views(names@),
            out@ is Obj,
            all == members_from(chars@.skip(from as int), true, list),
            all == behind(
                Some(out@->Obj_0),
                members_from(chars@.skip(at as int), first, list),
            ),
        decreases chars@.len() - at,
    {
        let i = after_space(chars, at);
        if i >= chars.len() {
            return None;
        }
        assert(chars@.skip(i as int)[0] == chars@[i as int]);
        assert(chars@.skip(i as int).skip(1) =~= chars@.skip(i + 1));
        if chars[i] == '}' {
            if after_space(chars, i + 1) < chars.len() {
                return None;
            }
            assert(out@->Obj_0 + Seq::empty() =~= out@->Obj_0);
            return Some(out);
        }
        let begin = if first {
            i
        } else if chars[i] == ',' {
            after_space(chars, i + 1)
        } else {
            return None;
        };
        let m = match member_at(chars, begin) {
            Some(m) => m,
            None => return None,
        };
        let ghost done = out@->Obj_0;
        let ghost value = chars@.subrange(m.start as int, m.end as int);
        let ghost others = members_from(chars@.skip(m.end as int), false, list);
        assert(members_from(chars@.skip(at as int), first, list) == behind(
            kept_member(m.name@, value, list),
            others,
        ));
        if has_name(names, m.name.as_str()) {
            let raw = string_range(chars, m.start, m.end);
            assert(raw@ =~= value);
            match Json::parse(raw.as_str()) {
                Some(j) => {
                    out = out.with(m.name.as_str(), j);
                    proof {
                        if let Some(b) = others {
                            assert(done + (seq![(m.name@, j@)] + b) =~= done.push((m.name@, j@))
                                + b);
                        }
                    }
                },
                None => return None,
            }
        } else {
            proof {
                if let Some(b) = others {
                    assert(Seq::<(Seq<char>, JsonView)>::empty() + b =~= b);
                }
            }
        }
        first = false;
        at = m.end;
    }
}

/// Reads a text for the members with the names.
pub fn parse_record(text: &str, names: &Vec<&str>) -> (r: Option<Json>)
    ensures
        match r {
            Some(j) => record_read(text@, name_views(names@)) == Some(j@),
            None => record_read(text@, name_views(names@)) is None,
        },
{
    let chars = chars_of(text);
    let i = after_space(&chars, 0);
    assert(chars@.skip(0) =~= text@);
    if i < chars.len() && chars[i] == '{' {
        assert(chars@.skip(i as int).skip(1) =~= chars@.skip(i + 1));
        read_members(&chars, i + 1, names)
    } else {
        Json::parse(text)
    }
}

} // verus!
