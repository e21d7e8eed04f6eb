//! Texts: what is cut off, what is kept, and what is put together again.

use crate::agent_loop::{
    decided_status, listed_items, trimmed_parts, unfenced, without_fences, AgentLoopStatus,
};
use crate::json::JsonView;
use crate::laws::parts::{around, holds, lemma_holds, lemma_holds_within, lemma_joined};
use crate::llm_text::{
    hint_lines, is_sender, listed_name, preview, prompts, tool_hint, tool_line, tool_lines,
    utf8_len,
};
use crate::session_text::{compact, truncated, words};
use crate::text::{
    before_char, blank, contains, folds_to_word, is_white, join, lemma_find_from, lemma_prefix_len,
    lemma_prefix_len_holds, lemma_suffix_len, lemma_suffix_len_holds, lemma_trim_blank,
    lemma_trim_ends, occurs_at, other_than, prefix_len, split, suffix_len, trim, trim_start, white,
};
use vstd::prelude::*;

verus! {

broadcast use vstd::string::group_string_axioms;

/// Whether a text neither begins nor ends with white space.
pub open spec fn is_clean(s: Seq<char>) -> bool {
    s.len() > 0 ==> !is_white(s[0]) && !is_white(s.last())
}

/// Spaces, tabs and ends of lines are white space, in Chinese text too; what can be seen of ASCII is
/// not.
pub proof fn white_space_is_what_is_not_seen(c: char)
    ensures
        is_white(' '),
        is_white('\n'),
        is_white('\t'),
        is_white('\r'),
        is_white('\u{3000}'),
        '!' <= c <= '~' ==> !is_white(c),
{
}

/// Whether a text is another one between two that are white space alone.
pub open spec fn is_within(s: Seq<char>, a: Seq<char>, middle: Seq<char>, b: Seq<char>) -> bool {
    s == a + middle + b && blank(a) && blank(b)
}

/// Trimming takes off white space, from both ends, and nothing else.
pub proof fn trim_takes_white_space_off(s: Seq<char>)
    ensures
        is_clean(trim(s)),
        exists|a: Seq<char>, b: Seq<char>| #[trigger] is_within(s, a, trim(s), b),
{
    lemma_trim_ends(s);
    let w = white();
    let n = prefix_len(s, w) as int;
    lemma_prefix_len_holds(s, w);
    let t = trim_start(s);
    lemma_suffix_len_holds(t, w);
    let k = suffix_len(t, w) as int;
    let a = s.take(n);
    let b = t.skip(t.len() - k);
    assert(blank(a)) by {
        assert forall|i: int| 0 <= i < a.len() implies is_white(#[trigger] a[i]) by {
            assert(w(s[i]));
        }
    }
    assert(blank(b)) by {
        assert forall|i: int| 0 <= i < b.len() implies is_white(#[trigger] b[i]) by {
            assert(w(t[t.len() - k + i]));
        }
    }
    assert(s =~= a + trim(s) + b);
    assert(is_within(s, a, trim(s), b));
}

/// What stands between white space is what is left of it.
pub proof fn trim_leaves_the_middle(s: Seq<char>, a: Seq<char>, middle: Seq<char>, b: Seq<char>)
    requires
        is_within(s, a, middle, b),
        is_clean(middle),
    ensures
        trim(s) == middle,
{
    let w = white();
    if middle.len() == 0 {
        assert(blank(s));
        lemma_trim_blank(s);
        assert(trim(s) =~= middle);
    } else {
        let n = a.len();
        assert forall|i: int| 0 <= i < n implies w(#[trigger] s[i]) by {
            assert(s[i] == a[i]);
        }
        assert(s[n as int] == middle[0]);
        lemma_prefix_len(s, w, n);
        let t = trim_start(s);
        assert(t =~= middle + b);
        assert forall|i: int| t.len() - b.len() <= i < t.len() implies w(#[trigger] t[i]) by {
            assert(t[i] == b[i - middle.len()]);
        }
        assert(t[t.len() - b.len() - 1] == middle.last());
        lemma_suffix_len(t, w, b.len());
        assert(trim(s) =~= middle);
    }
}

/// A text stands in another where it can be found there.
pub proof fn found_text_stands_there(s: Seq<char>, p: Seq<char>)
    ensures
        contains(s, p) <==> holds(s, p),
{
    lemma_find_from(s, p, 0);
    if contains(s, p) {
        let i = crate::text::find_from(s, p, 0)->0;
        assert(occurs_at(s, p, i));
        lemma_holds(s.take(i), p, s.skip(i + p.len()));
        assert(s.take(i) + p + s.skip(i + p.len()) =~= s);
    }
    if holds(s, p) {
        let (a, b) = choose|a: Seq<char>, b: Seq<char>| #[trigger] around(a, p, b) == s;
        assert(s.subrange(a.len() as int, (a.len() + p.len()) as int) =~= p);
        assert(occurs_at(s, p, a.len() as int));
    }
}

/// A text that is short enough stays; one that is cut keeps its front, and three dots show it where
/// there is room.
pub proof fn cut_text_keeps_its_front(s: Seq<char>, max: nat)
    ensures
        s.len() <= max ==> truncated(s, max) == s,
        s.len() > max ==> truncated(s, max).len() == max,
        s.len() > max && max > 3 ==> s.take(max - 3).is_prefix_of(truncated(s, max))
            && "..."@.is_suffix_of(truncated(s, max)),
        s.len() > max && max <= 3 ==> truncated(s, max).is_prefix_of(s),
{
    reveal_strlit("...");
    let t = truncated(s, max);
    if s.len() > max && max > 3 {
        assert(s.take(max - 3).is_prefix_of(t));
        assert("..."@.is_suffix_of(t));
    } else if s.len() > max {
        assert(t.is_prefix_of(s));
    }
}

/// What can be seen, as a predicate.
pub open spec fn seen() -> spec_fn(char) -> bool {
    |c: char| !is_white(c)
}

proof fn lemma_filter_add(a: Seq<char>, b: Seq<char>)
    ensures
        (a + b).filter(seen()) == a.filter(seen()) + b.filter(seen()),
    decreases b.len(),
{
    reveal(Seq::filter);
    if b.len() == 0 {
        assert(a + b =~= a);
        assert(a.filter(seen()) + b.filter(seen()) =~= a.filter(seen()));
    } else {
        assert((a + b).drop_last() =~= a + b.drop_last());
        lemma_filter_add(a, b.drop_last());
        assert((a + b).filter(seen()) =~= a.filter(seen()) + b.filter(seen()));
    }
}

proof fn lemma_filter_all(s: Seq<char>)
    requires
        forall|i: int| 0 <= i < s.len() ==> !is_white(#[trigger] s[i]),
    ensures
        s.filter(seen()) == s,
    decreases s.len(),
{
    reveal(Seq::filter);
    if s.len() > 0 {
        assert(!is_white(s[s.len() - 1]));
        lemma_filter_all(s.drop_last());
        assert(s.filter(seen()) =~= s);
    } else {
        assert(s.filter(seen()) =~= s);
    }
}

proof fn lemma_filter_none(s: Seq<char>)
    requires
        blank(s),
    ensures
        s.filter(seen()).len() == 0,
    decreases s.len(),
{
    reveal(Seq::filter);
    if s.len() > 0 {
        assert(is_white(s[s.len() - 1]));
        assert(blank(s.drop_last()));
        lemma_filter_none(s.drop_last());
    }
}

/// All characters of some texts, one text behind the other.
pub open spec fn run_together(parts: Seq<Seq<char>>) -> Seq<char>
    decreases parts.len(),
{
    if parts.len() == 0 {
        Seq::empty()
    } else {
        parts[0] + run_together(parts.skip(1))
    }
}

/// The words of a text are what can be seen of it, in order; each has something to be seen in it and
/// nothing else.
pub proof fn words_are_what_is_seen(s: Seq<char>)
    ensures
        run_together(words(s)) == s.filter(seen()),
        forall|i: int|
            0 <= i < words(s).len() ==> (#[trigger] words(s)[i]).len() > 0 && forall|k: int|
                0 <= k < words(s)[i].len() ==> !is_white(#[trigger] words(s)[i][k]),
    decreases s.len(),
{
    let w = white();
    let f = crate::session_text::not_white();
    lemma_prefix_len_holds(s, w);
    let t = trim_start(s);
    let gone = s.take(prefix_len(s, w) as int);
    assert(blank(gone)) by {
        assert forall|i: int| 0 <= i < gone.len() implies is_white(#[trigger] gone[i]) by {
            assert(w(s[i]));
        }
    }
    assert(s =~= gone + t);
    lemma_filter_add(gone, t);
    lemma_filter_none(gone);
    assert(s.filter(seen()) =~= t.filter(seen()));
    if t.len() == 0 {
        lemma_filter_none(t);
        assert(run_together(words(s)) =~= s.filter(seen()));
    } else {
        lemma_prefix_len_holds(t, f);
        let n = prefix_len(t, f) as int;
        assert(t[0] == s[prefix_len(s, w) as int]);
        assert(f(t[0]));
        if n == 0 {
            assert(!f(t[0]));
        }
        let word = t.take(n);
        let rest = t.skip(n);
        assert forall|i: int| 0 <= i < word.len() implies !is_white(#[trigger] word[i]) by {
            assert(f(t[i]));
        }
        lemma_filter_all(word);
        assert(t =~= word + rest);
        lemma_filter_add(word, rest);
        words_are_what_is_seen(rest);
        let all = words(s);
        assert(all == seq![word] + words(rest));
        assert(all.skip(1) =~= words(rest));
        assert(all[0] == word);
        assert forall|i: int| 0 <= i < all.len() implies (#[trigger] all[i]).len() > 0
            && forall|k: int| 0 <= k < all[i].len() ==> !is_white(#[trigger] all[i][k]) by {
            if i > 0 {
                assert(all[i] == words(rest)[i - 1]);
            }
        }
    }
}

/// A text without white space is one word, and stays as it is.
pub proof fn single_word_is_itself(word: Seq<char>)
    requires
        word.len() > 0,
        forall|i: int| 0 <= i < word.len() ==> !is_white(#[trigger] word[i]),
    ensures
        words(word) == seq![word],
        compact(word) == word,
{
    let w = white();
    let f = crate::session_text::not_white();
    assert(!is_white(word[0]));
    lemma_prefix_len(word, w, 0);
    assert(trim_start(word) =~= word);
    assert forall|i: int| 0 <= i < word.len() implies f(#[trigger] word[i]) by {}
    lemma_prefix_len(word, f, word.len());
    let rest = word.skip(word.len() as int);
    assert(rest.len() == 0);
    lemma_prefix_len_holds(rest, w);
    assert(words(rest) =~= Seq::empty());
    assert(word.take(word.len() as int) =~= word);
    assert(words(word) =~= seq![word]);
}

/// White space between a word and the rest of a text, and before the word, counts as one space.
pub proof fn compacting_leaves_one_space(gap: Seq<char>, word: Seq<char>, space: char, rest: Seq<char>)
    requires
        blank(gap),
        word.len() > 0,
        forall|i: int| 0 <= i < word.len() ==> !is_white(#[trigger] word[i]),
        is_white(space),
    ensures
        words(gap + word + seq![space] + rest) == seq![word] + words(seq![space] + rest),
        words(seq![space] + rest) == words(rest),
{
    let w = white();
    let f = crate::session_text::not_white();
    let s = gap + word + seq![space] + rest;
    assert forall|i: int| 0 <= i < gap.len() implies w(#[trigger] s[i]) by {
        assert(s[i] == gap[i]);
    }
    assert(s[gap.len() as int] == word[0]);
    assert(!is_white(word[0]));
    lemma_prefix_len(s, w, gap.len());
    let t = trim_start(s);
    assert(t =~= word + seq![space] + rest);
    assert forall|i: int| 0 <= i < word.len() implies f(#[trigger] t[i]) by {
        assert(t[i] == word[i]);
    }
    assert(t[word.len() as int] == space);
    lemma_prefix_len(t, f, word.len());
    assert(t.take(word.len() as int) =~= word);
    assert(t.skip(word.len() as int) =~= seq![space] + rest);
    let u = seq![space] + rest;
    let n = prefix_len(rest, w);
    lemma_prefix_len_holds(rest, w);
    assert forall|i: int| 0 <= i < n + 1 implies w(#[trigger] u[i]) by {
        if i > 0 {
            assert(u[i] == rest[i - 1]);
        } else {
            assert(u[0] == space);
        }
    }
    if n < rest.len() {
        assert(u[n as int + 1] == rest[n as int]);
    }
    lemma_prefix_len(u, w, n + 1);
    assert(trim_start(u) =~= trim_start(rest));
}

/// A preview is the front of a text, and all of it where the text has no more bytes than that.
pub proof fn preview_is_the_front(s: Seq<char>, max: nat, used: nat)
    ensures
        preview(s, max, used).is_prefix_of(s),
        used + bytes_of(s) <= max ==> preview(s, max, used) == s,
        used < max && s.len() > 0 ==> preview(s, max, used).len() > 0,
        used + bytes_of(preview(s, max, used)) < max + 4 || preview(s, max, used).len() == 0,
    decreases s.len(),
{
    if s.len() > 0 && used < max {
        let rest = s.skip(1);
        let next = used + utf8_len(s[0]);
        preview_is_the_front(rest, max, next);
        let p = preview(s, max, used);
        let q = preview(rest, max, next);
        assert(p[0] == s[0]);
        assert(p.skip(1) =~= q);
        assert(p =~= s.take(p.len() as int)) by {
            assert forall|i: int| 0 <= i < p.len() implies p[i] == s[i] by {
                if i > 0 {
                    assert(p[i] == q[i - 1]);
                    assert(q[i - 1] == rest[i - 1]);
                }
            }
        }
        if used + bytes_of(s) <= max {
            assert(p =~= s);
        }
    } else {
        assert(preview(s, max, used) =~= s.take(0));
    }
}

/// How many bytes a text takes in UTF-8.
pub open spec fn bytes_of(s: Seq<char>) -> nat
    decreases s.len(),
{
    if s.len() == 0 {
        0
    } else {
        utf8_len(s[0]) + bytes_of(s.skip(1))
    }
}

/// Every prompt of a table is taken, in order: the third field of its row, without the white space
/// around it.
pub proof fn prompts_are_taken(
    rows: Seq<Option<Seq<Seq<char>>>>,
    fields: Seq<Seq<char>>,
)
    ensures
        fields.len() >= 3 && !blank(fields[2]) ==> prompts(rows.push(Some(fields))) == prompts(
            rows,
        ).push(trim(fields[2])),
        fields.len() < 3 || blank(fields[2]) ==> prompts(rows.push(Some(fields))) == prompts(rows),
        prompts(rows.push(None)) == prompts(rows),
        prompts(Seq::empty()).len() == 0,
{
    assert(rows.push(Some(fields)).drop_last() =~= rows);
    assert(rows.push(None).drop_last() =~= rows);
    if fields.len() >= 3 {
        lemma_trim_blank(fields[2]);
    }
}

/// Whether a text does not hold a character.
pub open spec fn is_without(s: Seq<char>, c: char) -> bool {
    forall|i: int| 0 <= i < s.len() ==> #[trigger] s[i] != c
}

proof fn lemma_split_one(s: Seq<char>, c: char)
    requires
        is_without(s, c),
    ensures
        split(s, c) == seq![s],
{
    let f = other_than(c);
    assert forall|i: int| 0 <= i < s.len() implies f(#[trigger] s[i]) by {}
    lemma_prefix_len(s, f, s.len());
}

proof fn lemma_split_add(a: Seq<char>, c: char, b: Seq<char>)
    ensures
        split(a + seq![c] + b, c) == split(a, c) + split(b, c),
    decreases a.len(),
{
    let f = other_than(c);
    let s = a + seq![c] + b;
    let n = before_char(a, c) as int;
    lemma_prefix_len_holds(a, f);
    if n >= a.len() {
        assert forall|i: int| 0 <= i < a.len() implies f(#[trigger] s[i]) by {
            assert(f(a[i]));
        }
        assert(s[a.len() as int] == c);
        lemma_prefix_len(s, f, a.len());
        assert(s.take(a.len() as int) =~= a);
        assert(s.skip(a.len() as int + 1) =~= b);
    } else {
        assert forall|i: int| 0 <= i < n implies f(#[trigger] s[i]) by {
            assert(f(a[i]));
        }
        assert(s[n] == a[n]);
        assert(!f(a[n]));
        lemma_prefix_len(s, f, n as nat);
        assert(s.take(n) =~= a.take(n));
        let rest = a.skip(n + 1);
        assert(s.skip(n + 1) =~= rest + seq![c] + b);
        lemma_split_add(rest, c, b);
        assert(seq![a.take(n)] + (split(rest, c) + split(b, c)) =~= split(a, c) + split(b, c));
    }
}

/// What is joined with a character that stands in none of the parts is split into them again.
pub proof fn split_undoes_join(parts: Seq<Seq<char>>, c: char)
    requires
        parts.len() > 0,
        forall|i: int| 0 <= i < parts.len() ==> is_without(#[trigger] parts[i], c),
    ensures
        split(join(parts, seq![c]), c) == parts,
    decreases parts.len(),
{
    let n = parts.len() - 1;
    assert(is_without(parts[n], c));
    if n == 0 {
        lemma_split_one(parts[0], c);
        assert(seq![parts[0]] =~= parts);
    } else {
        let rest = parts.drop_last();
        assert forall|i: int| 0 <= i < rest.len() implies is_without(#[trigger] rest[i], c) by {
            assert(rest[i] == parts[i]);
        }
        split_undoes_join(rest, c);
        lemma_split_add(join(rest, seq![c]), c, parts[n]);
        lemma_split_one(parts[n], c);
        assert(rest + seq![parts[n]] =~= parts);
    }
}

/// A list is read as the items it was written from.
pub proof fn list_is_read_back(items: Seq<Seq<char>>)
    requires
        items.len() > 0,
        forall|i: int|
            0 <= i < items.len() ==> is_without(#[trigger] items[i], ',') && items[i].len() > 0
                && is_clean(items[i]),
    ensures
        listed_items(join(items, ","@)) == items,
{
    reveal_strlit(",");
    assert(","@ =~= seq![',']);
    split_undoes_join(items, ',');
    lemma_trimmed_parts(items);
}

proof fn lemma_trimmed_parts(items: Seq<Seq<char>>)
    requires
        forall|i: int|
            0 <= i < items.len() ==> (#[trigger] items[i]).len() > 0 && is_clean(items[i]),
    ensures
        trimmed_parts(items) == items,
    decreases items.len(),
{
    if items.len() > 0 {
        let rest = items.drop_last();
        assert forall|i: int| 0 <= i < rest.len() implies (#[trigger] rest[i]).len() > 0
            && is_clean(rest[i]) by {
            assert(rest[i] == items[i]);
        }
        lemma_trimmed_parts(rest);
        let last = items[items.len() - 1];
        let e = Seq::<char>::empty();
        assert(last =~= e + last + e);
        assert(is_within(last, e, last, e));
        trim_leaves_the_middle(last, e, last, e);
        assert(rest.push(last) =~= items);
    }
}

/// Items of a list count without the white space around them; blank ones do not.
pub proof fn list_items_are_trimmed(items: Seq<Seq<char>>, item: Seq<char>)
    ensures
        !blank(item) ==> trimmed_parts(items.push(item)) == trimmed_parts(items).push(trim(item)),
        blank(item) ==> trimmed_parts(items.push(item)) == trimmed_parts(items),
{
    assert(items.push(item).drop_last() =~= items);
    lemma_trim_blank(item);
}

/// What stands in a code block is read without the marks of the block.
pub proof fn block_is_read_without_its_marks(t: Seq<char>)
    requires
        t.len() > 0,
        is_clean(t),
        !"```"@.is_suffix_of(t),
    ensures
        unfenced("```json\n"@ + t + "\n```"@) == t,
{
    reveal_strlit("```json\n");
    reveal_strlit("```json");
    reveal_strlit("\n```");
    reveal_strlit("```");
    let e = Seq::<char>::empty();
    let s = "```json\n"@ + t + "\n```"@;
    assert(s[0] == '`');
    assert(s.last() == '`');
    assert(s =~= e + s + e);
    assert(is_within(s, e, s, e));
    trim_leaves_the_middle(s, e, s, e);
    assert("```json"@ =~= s.subrange(0, 7));
    assert("```json"@.is_prefix_of(s));
    let u = s.skip(7);
    let v = t + "\n```"@;
    assert(u =~= seq!['\n'] + v + e);
    assert(blank(seq!['\n']));
    assert(v[0] == t[0] && v.last() == '`');
    assert(is_within(u, seq!['\n'], v, e));
    trim_leaves_the_middle(u, seq!['\n'], v, e);
    let w = t + seq!['\n'];
    assert("```"@ =~= v.subrange(v.len() - 3, v.len() as int));
    assert("```"@.is_suffix_of(v));
    assert(v.take(v.len() - 3) =~= w);
    assert(w.last() == '\n');
    assert(!"```"@.is_suffix_of(w)) by {
        if "```"@.is_suffix_of(w) {
            assert(w.subrange(w.len() - 3, w.len() as int)[2] == w.last());
            assert("```"@[2] == '`');
        }
    }
    assert(without_fences(w) == w);
    assert(without_fences(v) == w);
    assert(w =~= e + t + seq!['\n']);
    assert(is_within(w, e, t, seq!['\n']));
    trim_leaves_the_middle(w, e, t, seq!['\n']);
}

/// A word in small letters is the word, whatever letters it is written in.
pub proof fn words_are_read_in_any_letters(w: Seq<char>, s: Seq<char>)
    requires
        forall|i: int| 0 <= i < w.len() ==> !('A' <= #[trigger] w[i] <= 'Z'),
        s.len() == w.len(),
        forall|i: int|
            0 <= i < s.len() ==> #[trigger] s[i] == w[i] || ('A' <= s[i] <= 'Z' && w[i] as u32
                == s[i] as u32 + 32),
    ensures
        folds_to_word(s, w),
{
    assert forall|i: int| 0 <= i < s.len() implies crate::text::folds_to(
        #[trigger] s[i],
        w[i],
    ) by {
        assert(!('A' <= w[i] <= 'Z'));
    }
}

/// The words for the end of a loop mean it; any other word means that it goes on.
pub proof fn words_decide(word: Seq<char>)
    ensures
        ({
            let w = trim(word);
            let s = decided_status(word);
            let done = folds_to_word(w, "done"@) || folds_to_word(w, "completed"@)
                || folds_to_word(w, "complete"@);
            let waits = folds_to_word(w, "ask_user"@) || folds_to_word(w, "waiting_for_user"@)
                || folds_to_word(w, "need_user"@);
            let failed = folds_to_word(w, "failed"@) || folds_to_word(w, "error"@);
            &&& done ==> s == AgentLoopStatus::Completed
            &&& !done && waits ==> s == AgentLoopStatus::WaitingForUser
            &&& !done && !waits && failed ==> s == AgentLoopStatus::Failed
            &&& !done && !waits && !failed && folds_to_word(w, "stopped"@) ==> s
                == AgentLoopStatus::Stopped
            &&& !done && !waits && !failed && !folds_to_word(w, "stopped"@) ==> s
                == AgentLoopStatus::Running
        }),
{
}

proof fn lemma_tool_lines_hold(tools: Seq<JsonView>, senders: bool, i: int)
    requires
        0 <= i < tools.len(),
        listed_name(tools[i]).len() > 0,
        is_sender(listed_name(tools[i])) == senders,
    ensures
        tool_lines(tools, senders).contains(tool_line(tools[i])),
    decreases tools.len(),
{
    let all = tool_lines(tools, senders);
    if i == tools.len() - 1 {
        assert(all[all.len() - 1] == tool_line(tools[i]));
    } else {
        lemma_tool_lines_hold(tools.drop_last(), senders, i);
        let rest = tool_lines(tools.drop_last(), senders);
        let k = choose|k: int| 0 <= k < rest.len() && rest[k] == tool_line(tools[i]);
        assert(all[k] == tool_line(tools[i]));
    }
}

/// The instructions name every tool that has a name, with what it does.
pub proof fn hint_names_every_tool(tools: Seq<JsonView>, i: int, name: Seq<char>)
    requires
        0 <= i < tools.len(),
        tools[i].at("function"@).str_at("name"@) == Some(name),
        name.len() > 0,
    ensures
        holds(tool_hint(tools), name),
        tools[i].at("function"@).str_at("description"@) matches Some(d) ==> holds(
            tool_hint(tools),
            d,
        ),
{
    let line = tool_line(tools[i]);
    let d = crate::llm_text::listed_description(tools[i]);
    let senders = is_sender(name);
    lemma_tool_lines_hold(tools, senders, i);
    let mine = tool_lines(tools, senders);
    let others = tool_lines(tools, !senders);
    let k = choose|k: int| 0 <= k < mine.len() && mine[k] == line;
    let all = hint_lines(tools);
    let at: int = if senders {
        5 + k
    } else if others.len() == 0 {
        5 + k
    } else {
        4 + 1 + others.len() + 1 + 1 + k
    };
    assert(all[at] == line);
    lemma_joined(all, "\n"@, at);
    lemma_holds("- "@, name, "："@ + d);
    assert("- "@ + name + ("："@ + d) =~= line);
    lemma_holds("- "@ + name + "："@, d, Seq::empty());
    assert("- "@ + name + "："@ + d + Seq::<char>::empty() =~= line);
    lemma_holds_within(tool_hint(tools), line, name);
    lemma_holds_within(tool_hint(tools), line, d);
}

/// Pictures and films are sent where text is unless they have settings of their own; every setting
/// is taken as it is given.
pub proof fn settings_are_taken(
    s: crate::llm_config::LlmSettings,
    key: Seq<char>,
)
    ensures
        ({
            let c = crate::llm_config::settings_config(s, key);
            &&& c.api_key == key
            &&& s.model matches Some(m) ==> c.model == m@
            &&& s.base_url matches Some(u) ==> c.base_url == u@
            &&& s.image_model matches Some(m) ==> c.image_model == m@
            &&& s.image_base_url matches Some(u) ==> c.image_base_url == u@
            &&& s.image_base_url is None ==> c.image_base_url == c.base_url
            &&& s.image_api_key matches Some(k) ==> c.image_api_key == k@
            &&& s.image_api_key is None ==> c.image_api_key == key
            &&& s.video_model matches Some(m) ==> c.video_model == m@
            &&& s.video_base_url matches Some(u) ==> c.video_base_url == u@
            &&& s.video_base_url is None ==> c.video_base_url == c.base_url
            &&& s.video_api_key matches Some(k) ==> c.video_api_key == k@
            &&& s.video_api_key is None ==> c.video_api_key == key
            &&& s.persona matches Some(p) ==> (!blank(p@) ==> c.system_prompt == trim(p@))
            &&& s.max_history is None ==> c.max_history_turns == 20
            &&& s.thinking is None ==> !c.thinking
            &&& c.jailbreak_prompts.len() == s.jailbreak_prompts@.len()
        }),
        s.llm_api_key matches Some(k) ==> crate::llm_config::settings_key(s) == Some(k@),
        s.llm_api_key is None ==> crate::llm_config::settings_key(s) == crate::tool::opt_text(
            s.openai_api_key,
        ),
{
    if let Some(p) = s.persona {
        lemma_trim_blank(p@);
    }
}

} // verus!
