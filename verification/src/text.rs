//! Text as sequences of characters.
//!
//! Contracts throughout the crate speak of a string by its view, a `Seq<char>`. This module holds
//! the operations on such sequences that the rest of the crate is written with, each with an
//! executable counterpart that is proved to compute it.

use vstd::prelude::*;

verus! {

broadcast use vstd::string::group_string_axioms;

/// `String::push` appends one character.
pub assume_specification[ String::push ](s: &mut String, ch: char)
    ensures
        final(s)@ == old(s)@.push(ch),
;

/// Whether `c` has the Unicode `White_Space` property.
pub open spec fn is_white(c: char) -> bool {
    ||| '\u{9}' <= c <= '\u{d}'
    ||| c == '\u{20}'
    ||| c == '\u{85}'
    ||| c == '\u{a0}'
    ||| c == '\u{1680}'
    ||| '\u{2000}' <= c <= '\u{200a}'
    ||| c == '\u{2028}'
    ||| c == '\u{2029}'
    ||| c == '\u{202f}'
    ||| c == '\u{205f}'
    ||| c == '\u{3000}'
}

/// Tells whether `c` is white space.
pub fn is_white_char(c: char) -> (r: bool)
    ensures
        r == is_white(c),
{
    ('\u{9}' <= c && c <= '\u{d}') || c == '\u{20}' || c == '\u{85}' || c == '\u{a0}' || c
        == '\u{1680}' || ('\u{2000}' <= c && c <= '\u{200a}') || c == '\u{2028}' || c == '\u{2029}'
        || c == '\u{202f}' || c == '\u{205f}' || c == '\u{3000}'
}

/// Whether two strings hold the same characters.
pub fn same(a: &str, b: &str) -> (r: bool)
    ensures
        r == (a@ == b@),
{
    a.to_owned() == b.to_owned()
}

/// The characters of `s`, in order.
pub fn chars_of(s: &str) -> (r: Vec<char>)
    ensures
        r@ == s@,
{
    let mut out: Vec<char> = Vec::new();
    for c in it: s.chars()
        invariant
            it.seq() == s@,
            out@ == s@.take(it.index() as int),
    {
        out.push(c);
    }
    out
}

/// The string made of `chars`.
pub fn string_of(chars: &Vec<char>) -> (r: String)
    ensures
        r@ == chars@,
{
    string_range(chars, 0, chars.len())
}

/// The string made of the characters of `chars` from `from` up to `to`.
pub fn string_range(chars: &Vec<char>, from: usize, to: usize) -> (r: String)
    requires
        from <= to <= chars@.len(),
    ensures
        r@ == chars@.subrange(from as int, to as int),
{
    let mut out = String::new();
    let mut i: usize = from;
    while i < to
        invariant
            from <= i <= to <= chars@.len(),
            out@ == chars@.subrange(from as int, i as int),
        decreases to - i,
    {
        out.push(chars[i]);
        i = i + 1;
        assert(chars@.subrange(from as int, i as int) =~= chars@.subrange(
            from as int,
            i - 1,
        ).push(chars@[i - 1]));
    }
    out
}

/// How many characters at the front of `s` satisfy `f`.
pub open spec fn prefix_len(s: Seq<char>, f: spec_fn(char) -> bool) -> nat
    decreases s.len(),
{
    if s.len() > 0 && f(s[0]) {
        1 + prefix_len(s.skip(1), f)
    } else {
        0
    }
}

/// How many characters at the back of `s` satisfy `f`.
pub open spec fn suffix_len(s: Seq<char>, f: spec_fn(char) -> bool) -> nat
    decreases s.len(),
{
    if s.len() > 0 && f(s.last()) {
        1 + suffix_len(s.drop_last(), f)
    } else {
        0
    }
}

/// The front run is the one number that bounds it: all before it satisfy `f`, the next does not.
pub proof fn lemma_prefix_len(s: Seq<char>, f: spec_fn(char) -> bool, n: nat)
    requires
        n <= s.len(),
        forall|i: int| 0 <= i < n ==> f(#[trigger] s[i]),
        n < s.len() ==> !f(s[n as int]),
    ensures
        prefix_len(s, f) == n,
    decreases s.len(),
{
    if n > 0 {
        assert(f(s[0]));
        let t = s.skip(1);
        assert forall|i: int| 0 <= i < n - 1 implies f(#[trigger] t[i]) by {
            assert(t[i] == s[i + 1]);
        }
        if n < s.len() {
            assert(t[n - 1] == s[n as int]);
        }
        lemma_prefix_len(t, f, (n - 1) as nat);
    }
}

/// What holds of the front run: all of it satisfies `f`, and the next character does not.
pub proof fn lemma_prefix_len_holds(s: Seq<char>, f: spec_fn(char) -> bool)
    ensures
        prefix_len(s, f) <= s.len(),
        forall|i: int| 0 <= i < prefix_len(s, f) ==> f(#[trigger] s[i]),
        prefix_len(s, f) < s.len() ==> !f(s[prefix_len(s, f) as int]),
    decreases s.len(),
{
    if s.len() > 0 && f(s[0]) {
        let t = s.skip(1);
        lemma_prefix_len_holds(t, f);
        assert forall|i: int| 0 <= i < prefix_len(s, f) implies f(#[trigger] s[i]) by {
            if i > 0 {
                assert(s[i] == t[i - 1]);
            }
        }
        if prefix_len(s, f) < s.len() {
            assert(s[prefix_len(s, f) as int] == t[prefix_len(t, f) as int]);
        }
    }
}

/// The back run is the one number that bounds it: all after it satisfy `f`, the one before does
/// not.
pub proof fn lemma_suffix_len(s: Seq<char>, f: spec_fn(char) -> bool, n: nat)
    requires
        n <= s.len(),
        forall|i: int| s.len() - n <= i < s.len() ==> f(#[trigger] s[i]),
        n < s.len() ==> !f(s[s.len() - n - 1]),
    ensures
        suffix_len(s, f) == n,
    decreases s.len(),
{
    if n > 0 {
        assert(f(s[s.len() - 1]));
        let t = s.drop_last();
        assert forall|i: int| t.len() - (n - 1) <= i < t.len() implies f(#[trigger] t[i]) by {
            assert(t[i] == s[i]);
        }
        lemma_suffix_len(t, f, (n - 1) as nat);
    }
}

/// What holds of the back run: all of it satisfies `f`, and the character before does not.
pub proof fn lemma_suffix_len_holds(s: Seq<char>, f: spec_fn(char) -> bool)
    ensures
        suffix_len(s, f) <= s.len(),
        forall|i: int| s.len() - suffix_len(s, f) <= i < s.len() ==> f(#[trigger] s[i]),
        suffix_len(s, f) < s.len() ==> !f(s[s.len() - suffix_len(s, f) - 1]),
    decreases s.len(),
{
    if s.len() > 0 && f(s.last()) {
        let t = s.drop_last();
        lemma_suffix_len_holds(t, f);
        assert forall|i: int| s.len() - suffix_len(s, f) <= i < s.len() implies f(
            #[trigger] s[i],
        ) by {
            if i < s.len() - 1 {
                assert(s[i] == t[i]);
            }
        }
    }
}

/// White space, as a predicate.
pub open spec fn white() -> spec_fn(char) -> bool {
    |c: char| is_white(c)
}

/// `s` without the white space at its front.
pub open spec fn trim_start(s: Seq<char>) -> Seq<char> {
    s.skip(prefix_len(s, white()) as int)
}

/// `s` without the white space at its back.
pub open spec fn trim_end(s: Seq<char>) -> Seq<char> {
    s.take(s.len() - suffix_len(s, white()))
}

/// `s` without the white space at either end.
pub open spec fn trim(s: Seq<char>) -> Seq<char> {
    trim_end(trim_start(s))
}

/// Whether `s` is made of white space alone.
pub open spec fn blank(s: Seq<char>) -> bool {
    forall|i: int| 0 <= i < s.len() ==> is_white(#[trigger] s[i])
}

/// Text trims to nothing exactly when it is blank.
pub proof fn lemma_trim_blank(s: Seq<char>)
    ensures
        (trim(s).len() == 0) == blank(s),
{
    lemma_prefix_len_holds(s, white());
    let t = trim_start(s);
    lemma_suffix_len_holds(t, white());
    if blank(s) {
        assert forall|i: int| 0 <= i < s.len() implies white()(#[trigger] s[i]) by {}
        lemma_prefix_len(s, white(), s.len());
    } else {
        let k = choose|i: int| 0 <= i < s.len() && !is_white(#[trigger] s[i]);
        let n = prefix_len(s, white()) as int;
        if k < n {
            assert(white()(s[k]));
        }
        assert(n < s.len());
        assert(t[0] == s[n]);
        if suffix_len(t, white()) == t.len() {
            assert(white()(t[0]));
        }
    }
}

/// What is left after trimming neither starts nor ends with white space.
pub proof fn lemma_trim_ends(s: Seq<char>)
    ensures
        trim(s).len() <= s.len(),
        trim(s).len() > 0 ==> !is_white(trim(s)[0]) && !is_white(trim(s).last()),
{
    lemma_prefix_len_holds(s, white());
    let t = trim_start(s);
    lemma_suffix_len_holds(t, white());
    if trim(s).len() > 0 {
        assert(t[0] == s[prefix_len(s, white()) as int]);
        assert(trim(s)[0] == t[0]);
        assert(trim(s).last() == t[t.len() - suffix_len(t, white()) - 1]);
    }
}

/// Trimming twice is trimming once.
pub proof fn lemma_trim_idempotent(s: Seq<char>)
    ensures
        trim(trim(s)) == trim(s),
{
    let t = trim(s);
    lemma_trim_ends(s);
    if t.len() > 0 {
        lemma_prefix_len(t, white(), 0);
        assert(t.skip(0) =~= t);
        lemma_suffix_len(t, white(), 0);
        assert(t.take(t.len() as int) =~= t);
    } else {
        assert(trim(t) =~= t) by {
            lemma_trim_ends(t);
        }
    }
}

/// The bounds of the trimmed part of `chars[from..to]`.
pub fn trim_bounds(chars: &Vec<char>, from: usize, to: usize) -> (r: (usize, usize))
    requires
        from <= to <= chars@.len(),
    ensures
        from <= r.0 <= r.1 <= to,
        chars@.subrange(r.0 as int, r.1 as int) == trim(chars@.subrange(from as int, to as int)),
{
    let ghost s = chars@.subrange(from as int, to as int);
    let mut a: usize = from;
    while a < to && is_white_char(chars[a])
        invariant
            from <= a <= to <= chars@.len(),
            forall|i: int| from <= i < a ==> is_white(#[trigger] chars@[i]),
        decreases to - a,
    {
        a = a + 1;
    }
    proof {
        assert forall|i: int| 0 <= i < a - from implies white()(#[trigger] s[i]) by {
            assert(s[i] == chars@[from + i]);
        }
        if a < to {
            assert(s[a - from] == chars@[a as int]);
        }
        lemma_prefix_len(s, white(), (a - from) as nat);
    }
    let ghost t = trim_start(s);
    assert(t =~= chars@.subrange(a as int, to as int));
    let mut b: usize = to;
    while b > a && is_white_char(chars[b - 1])
        invariant
            a <= b <= to <= chars@.len(),
            forall|i: int| b <= i < to ==> is_white(#[trigger] chars@[i]),
        decreases b,
    {
        b = b - 1;
    }
    proof {
        assert forall|i: int| t.len() - (to - b) <= i < t.len() implies white()(
            #[trigger] t[i],
        ) by {
            assert(t[i] == chars@[a + i]);
        }
        if b > a {
            assert(t[t.len() - (to - b) - 1] == chars@[b - 1]);
        }
        lemma_suffix_len(t, white(), (to - b) as nat);
        assert(chars@.subrange(a as int, b as int) =~= trim_end(t));
    }
    (a, b)
}

/// `s` without the white space at either end.
pub fn trimmed(s: &str) -> (r: String)
    ensures
        r@ == trim(s@),
{
    let chars = chars_of(s);
    let (a, b) = trim_bounds(&chars, 0, chars.len());
    assert(chars@.subrange(0, chars@.len() as int) =~= s@);
    string_range(&chars, a, b)
}

/// Tells whether `s` is empty or all white space.
pub fn is_blank(s: &str) -> (r: bool)
    ensures
        r == blank(s@),
        r == (trim(s@).len() == 0),
{
    proof {
        lemma_trim_blank(s@);
    }
    let chars = chars_of(s);
    let mut i: usize = 0;
    while i < chars.len()
        invariant
            i <= chars@.len(),
            chars@ == s@,
            (trim(s@).len() == 0) == blank(s@),
            forall|k: int| 0 <= k < i ==> is_white(#[trigger] s@[k]),
        decreases chars@.len() - i,
    {
        if !is_white_char(chars[i]) {
            assert(!is_white(s@[i as int]));
            return false;
        }
        i = i + 1;
    }
    true
}

/// Tells whether `s` begins with `p`.
pub fn starts_with(s: &str, p: &str) -> (r: bool)
    ensures
        r == p@.is_prefix_of(s@),
{
    let a = chars_of(s);
    let b = chars_of(p);
    occurs(&a, &b, 0)
}

/// Tells whether `s` ends with `p`.
pub fn ends_with(s: &str, p: &str) -> (r: bool)
    ensures
        r == p@.is_suffix_of(s@),
{
    let a = chars_of(s);
    let b = chars_of(p);
    if b.len() > a.len() {
        false
    } else {
        proof {
            let k = (a@.len() - b@.len()) as int;
            assert(occurs_at(s@, p@, k) == p@.is_suffix_of(s@));
        }
        occurs(&a, &b, a.len() - b.len())
    }
}

/// Whether `p` stands in `s` at position `i`.
pub open spec fn occurs_at(s: Seq<char>, p: Seq<char>, i: int) -> bool {
    0 <= i && i + p.len() <= s.len() && s.subrange(i, i + p.len()) == p
}

/// Tells whether `p` stands in `s` at position `i`.
pub fn occurs(s: &Vec<char>, p: &Vec<char>, i: usize) -> (r: bool)
    ensures
        r == occurs_at(s@, p@, i as int),
        i == 0 ==> r == p@.is_prefix_of(s@),
{
    if i > s.len() || p.len() > s.len() - i {
        return false;
    }
    let mut k: usize = 0;
    while k < p.len()
        invariant
            k <= p@.len(),
            i + p.len() <= s.len(),
            s@.subrange(i as int, i + k) =~= p@.take(k as int),
        decreases p@.len() - k,
    {
        if s[i + k] != p[k] {
            assert(s@.subrange(i as int, i + p@.len())[k as int] != p@[k as int]);
            return false;
        }
        assert(s@.subrange(i as int, i + k + 1) =~= s@.subrange(i as int, i + k).push(
            s@[i + k],
        ));
        assert(p@.take(k + 1) =~= p@.take(k as int).push(p@[k as int]));
        k = k + 1;
    }
    assert(p@.take(p@.len() as int) =~= p@);
    true
}

/// Where `p` first stands in `s`, at or after position `from`.
pub open spec fn find_from(s: Seq<char>, p: Seq<char>, from: int) -> Option<int>
    decreases s.len() + 1 - from,
{
    if from < 0 || from + p.len() > s.len() {
        None
    } else if occurs_at(s, p, from) {
        Some(from)
    } else {
        find_from(s, p, from + 1)
    }
}

/// Finds the first place of `p` in `s` at or after `from`.
pub fn find_chars(s: &Vec<char>, p: &Vec<char>, from: usize) -> (r: Option<usize>)
    ensures
        match r {
            Some(i) => find_from(s@, p@, from as int) == Some(i as int),
            None => find_from(s@, p@, from as int) is None,
        },
        r matches Some(i) ==> from <= i && occurs_at(s@, p@, i as int),
{
    let mut i: usize = from;
    while i <= s.len() && p.len() <= s.len() - i
        invariant
            from <= i,
            i <= s@.len() + 1 || i == from,
            find_from(s@, p@, from as int) == find_from(s@, p@, i as int),
        decreases s@.len() + 1 - i,
    {
        if occurs(s, p, i) {
            return Some(i);
        }
        if i == s.len() {
            assert(find_from(s@, p@, i + 1) is None);
            return None;
        }
        i = i + 1;
    }
    None
}

/// Whether `p` stands anywhere in `s`.
pub open spec fn contains(s: Seq<char>, p: Seq<char>) -> bool {
    find_from(s, p, 0) is Some
}

/// Tells whether `p` stands anywhere in `s`.
pub fn contains_str(s: &str, p: &str) -> (r: bool)
    ensures
        r == contains(s@, p@),
{
    let a = chars_of(s);
    let b = chars_of(p);
    find_chars(&a, &b, 0).is_some()
}

/// A place found is the first one: `p` stands there, and at no earlier place from `from` on.
pub proof fn lemma_find_from(s: Seq<char>, p: Seq<char>, from: int)
    requires
        0 <= from,
    ensures
        match find_from(s, p, from) {
            Some(i) => from <= i && occurs_at(s, p, i) && forall|k: int|
                from <= k < i ==> !#[trigger] occurs_at(s, p, k),
            None => forall|k: int| from <= k ==> !#[trigger] occurs_at(s, p, k),
        },
    decreases s.len() + 1 - from,
{
    if from + p.len() <= s.len() && !occurs_at(s, p, from) {
        lemma_find_from(s, p, from + 1);
        match find_from(s, p, from) {
            Some(i) => {
                assert forall|k: int| from <= k < i implies !#[trigger] occurs_at(s, p, k) by {}
            },
            None => {
                assert forall|k: int| from <= k implies !#[trigger] occurs_at(s, p, k) by {}
            },
        }
    }
}

/// Every character but `c`, as a predicate.
pub open spec fn other_than(c: char) -> spec_fn(char) -> bool {
    |x: char| x != c
}

/// How many characters stand before the first `c` in `s` (all of them where there is none).
pub open spec fn before_char(s: Seq<char>, c: char) -> nat {
    prefix_len(s, other_than(c))
}

/// The position of the first `c` at or after `from`, or the length.
pub fn index_of_char(s: &Vec<char>, c: char, from: usize) -> (r: usize)
    requires
        from <= s@.len(),
    ensures
        from <= r <= s@.len(),
        r - from == before_char(s@.skip(from as int), c),
        r < s@.len() ==> s@[r as int] == c,
        forall|k: int| from <= k < r ==> #[trigger] s@[k] != c,
{
    let mut i: usize = from;
    while i < s.len() && s[i] != c
        invariant
            from <= i <= s@.len(),
            forall|k: int| from <= k < i ==> #[trigger] s@[k] != c,
        decreases s@.len() - i,
    {
        i = i + 1;
    }
    proof {
        let t = s@.skip(from as int);
        assert forall|k: int| 0 <= k < i - from implies other_than(c)(#[trigger] t[k]) by {
            assert(t[k] == s@[from + k]);
        }
        if i < s@.len() {
            assert(t[i - from] == s@[i as int]);
        }
        lemma_prefix_len(t, other_than(c), (i - from) as nat);
    }
    i
}

/// The parts of `s` between the characters `c`: one more part than there are such characters.
pub open spec fn split(s: Seq<char>, c: char) -> Seq<Seq<char>>
    decreases s.len(),
{
    let n = before_char(s, c);
    if n >= s.len() {
        seq![s]
    } else {
        seq![s.take(n as int)] + split(s.skip(n as int + 1), c)
    }
}

/// The views of a list of strings.
pub open spec fn views(v: Seq<String>) -> Seq<Seq<char>> {
    v.map_values(|s: String| s@)
}

/// The parts of `s` between the characters `c`.
pub fn split_at_char(s: &str, c: char) -> (r: Vec<String>)
    ensures
        views(r@) == split(s@, c),
{
    let chars = chars_of(s);
    let mut out: Vec<String> = Vec::new();
    let mut start: usize = 0;
    proof {
        assert(chars@.skip(0) =~= s@);
        assert(views(out@) =~= Seq::empty());
    }
    loop
        invariant
            start <= chars@.len(),
            chars@ == s@,
            views(out@) + split(chars@.skip(start as int), c) =~= split(s@, c),
        decreases chars@.len() - start,
    {
        let end = index_of_char(&chars, c, start);
        let part = string_range(&chars, start, end);
        let ghost before = views(out@);
        let ghost rest = chars@.skip(start as int);
        out.push(part);
        assert(views(out@) =~= before.push(part@));
        if end == chars.len() {
            assert(part@ =~= rest);
            assert(before + seq![rest] =~= before.push(rest));
            return out;
        }
        assert(part@ =~= rest.take(end - start));
        assert(rest.skip(end - start + 1) =~= chars@.skip(end + 1));
        assert(before + (seq![part@] + split(chars@.skip(end + 1), c)) =~= before.push(part@)
            + split(chars@.skip(end + 1), c));
        start = end + 1;
    }
}

/// `parts` one after another with `sep` between each two.
pub open spec fn join(parts: Seq<Seq<char>>, sep: Seq<char>) -> Seq<char>
    decreases parts.len(),
{
    if parts.len() == 0 {
        Seq::empty()
    } else if parts.len() == 1 {
        parts[0]
    } else {
        join(parts.drop_last(), sep) + sep + parts.last()
    }
}

/// Joins `parts` with `sep` between each two.
pub fn join_strings(parts: &Vec<String>, sep: &str) -> (r: String)
    ensures
        r@ == join(views(parts@), sep@),
{
    let mut out = String::new();
    let mut i: usize = 0;
    let ghost all = views(parts@);
    while i < parts.len()
        invariant
            i <= parts@.len(),
            all == views(parts@),
            out@ == join(all.take(i as int), sep@),
        decreases parts@.len() - i,
    {
        let ghost done = all.take(i as int);
        if i > 0 {
            out.append(sep);
        }
        out.append(parts[i].as_str());
        i = i + 1;
        proof {
            let next = all.take(i as int);
            assert(next.drop_last() =~= done);
            assert(next.last() == parts@[i - 1]@);
            if i == 1 {
                assert(out@ =~= next[0]);
            }
        }
    }
    assert(all.take(all.len() as int) =~= all);
    out
}

/// Whether `c`, written in lower case, is the ASCII character `w`.
pub open spec fn folds_to(c: char, w: char) -> bool {
    ||| c == w && !('A' <= c <= 'Z')
    ||| 'A' <= c <= 'Z' && w as u32 == c as u32 + 32
    ||| c == '\u{212a}' && w == 'k'
}

/// Whether `s`, written in lower case, is the ASCII word `w`.
pub open spec fn folds_to_word(s: Seq<char>, w: Seq<char>) -> bool {
    s.len() == w.len() && forall|i: int| 0 <= i < s.len() ==> folds_to(#[trigger] s[i], w[i])
}

/// Tells whether `s`, written in lower case, is the ASCII word `w`.
pub fn is_word(s: &str, w: &str) -> (r: bool)
    ensures
        r == folds_to_word(s@, w@),
{
    let a = chars_of(s);
    let b = chars_of(w);
    if a.len() != b.len() {
        return false;
    }
    let mut i: usize = 0;
    while i < a.len()
        invariant
            i <= a@.len(),
            a@ == s@,
            b@ == w@,
            a@.len() == b@.len(),
            forall|k: int| 0 <= k < i ==> folds_to(#[trigger] s@[k], w@[k]),
        decreases a@.len() - i,
    {
        let c = a[i];
        let upper = 'A' <= c && c <= 'Z';
        let fits = (c == b[i] && !upper) || (upper && b[i] as u32 == c as u32 + 32) || (c
            == '\u{212a}' && b[i] == 'k');
        if !fits {
            assert(!folds_to(s@[i as int], w@[i as int]));
            return false;
        }
        i = i + 1;
    }
    true
}

/// The character `c` alone, as a predicate.
pub open spec fn just(c: char) -> spec_fn(char) -> bool {
    |x: char| x == c
}

/// `s` without the characters `c` at its back.
pub open spec fn trim_end_char(s: Seq<char>, c: char) -> Seq<char> {
    s.take(s.len() - suffix_len(s, just(c)))
}

/// `s` without the characters `c` at its back.
pub fn without_trailing(s: &str, c: char) -> (r: String)
    ensures
        r@ == trim_end_char(s@, c),
{
    let chars = chars_of(s);
    let mut b: usize = chars.len();
    while b > 0 && chars[b - 1] == c
        invariant
            b <= chars@.len(),
            forall|i: int| b <= i < chars@.len() ==> #[trigger] chars@[i] == c,
        decreases b,
    {
        b = b - 1;
    }
    proof {
        assert forall|i: int| b <= i < s@.len() implies just(c)(#[trigger] s@[i]) by {}
        lemma_suffix_len(s@, just(c), (chars@.len() - b) as nat);
        assert(chars@.subrange(0, b as int) =~= s@.take(b as int));
    }
    string_range(&chars, 0, b)
}

} // verus!
