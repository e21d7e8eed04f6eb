//! What of a text is read as a record.

use crate::json::{json_read, JsonView};
use crate::json_record::{kept_member, members_from, record_read, unspaced};
use vstd::prelude::*;

verus! {

broadcast use vstd::string::group_string_axioms;

/// Whether a member has one of the names.
pub open spec fn is_wanted(names: Seq<Seq<char>>) -> spec_fn((Seq<char>, JsonView)) -> bool {
    |m: (Seq<char>, JsonView)| names.contains(m.0)
}

proof fn lemma_kept_member(
    name: Seq<char>,
    value: Seq<char>,
    wide: Seq<Seq<char>>,
    names: Seq<Seq<char>>,
)
    requires
        forall|n: Seq<char>| #[trigger] names.contains(n) ==> wide.contains(n),
        kept_member(name, value, wide) is Some,
    ensures
        kept_member(name, value, names) == Some(
            kept_member(name, value, wide)->0.filter(is_wanted(names)),
        ),
{
    reveal_with_fuel(Seq::filter, 3);
    let w = kept_member(name, value, wide)->0;
    if w.len() > 0 {
        assert(w.drop_last() =~= Seq::empty());
        if names.contains(name) {
            assert(w.filter(is_wanted(names)) =~= w);
        } else {
            assert(w.filter(is_wanted(names)) =~= Seq::empty());
        }
    } else {
        assert(w.filter(is_wanted(names)) =~= w);
    }
}

/// Who looks for fewer members finds, of those that one who looks for more finds, the ones looked
/// for, in the same order and with the same values.
pub proof fn fewer_names_find_fewer_members(
    t: Seq<char>,
    first: bool,
    wide: Seq<Seq<char>>,
    names: Seq<Seq<char>>,
)
    requires
        forall|n: Seq<char>| #[trigger] names.contains(n) ==> wide.contains(n),
        members_from(t, first, wide) is Some,
    ensures
        members_from(t, first, names) == Some(
            members_from(t, first, wide)->0.filter(is_wanted(names)),
        ),
    decreases t.len(),
{
    let u = unspaced(t);
    if u[0] == '}' {
        reveal(Seq::filter);
    } else {
        let v = if first {
            u
        } else {
            unspaced(u.skip(1))
        };
        let (name, value, rest) = crate::json_record::first_member(v)->0;
        fewer_names_find_fewer_members(rest, false, wide, names);
        lemma_kept_member(name, value, wide, names);
        let a = kept_member(name, value, wide)->0;
        let b = members_from(rest, false, wide)->0;
        Seq::filter_distributes_over_add(a, b, is_wanted(names));
    }
}

/// Only members that were looked for are found.
pub proof fn found_members_were_looked_for(text: Seq<char>, names: Seq<Seq<char>>, i: int)
    requires
        unspaced(text).len() > 0,
        unspaced(text)[0] == '{',
        record_read(text, names) is Some,
        0 <= i < record_read(text, names)->0->Obj_0.len(),
    ensures
        record_read(text, names)->0 is Obj,
        names.contains(record_read(text, names)->0->Obj_0[i].0),
{
    let t = unspaced(text).skip(1);
    fewer_names_find_fewer_members(t, true, names, names);
    let m = members_from(t, true, names)->0;
    m.filter_lemma(is_wanted(names));
    assert(m.filter(is_wanted(names))[i] == m[i]);
    assert(is_wanted(names)(m.filter(is_wanted(names))[i]));
}

/// An object ends where its brace closes and nothing follows; what breaks off, goes on behind its
/// end, or has members without a comma between them is no record. A text that is no object reads as
/// the value that it is.
pub proof fn broken_text_is_no_record(t: Seq<char>, first: bool, names: Seq<Seq<char>>)
    ensures
        unspaced(t).len() == 0 ==> members_from(t, first, names) is None,
        unspaced(t).len() > 0 && unspaced(t)[0] == '}' ==> if unspaced(unspaced(t).skip(1)).len()
            == 0 {
            members_from(t, first, names) == Some(Seq::<(Seq<char>, JsonView)>::empty())
        } else {
            members_from(t, first, names) is None
        },
        unspaced(t).len() > 0 && unspaced(t)[0] != '}' && unspaced(t)[0] != ',' ==> members_from(
            t,
            false,
            names,
        ) is None,
        unspaced(t).len() > 0 && unspaced(t)[0] != '}' && unspaced(t)[0] != '"' ==> members_from(
            t,
            true,
            names,
        ) is None,
        unspaced(t).len() == 0 || unspaced(t)[0] != '{' ==> record_read(t, names) == json_read(t),
{
}

} // verus!
