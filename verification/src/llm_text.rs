//! Text around the language model: the hint that lists the tools, previews, and the extra prompts.

use crate::json::{json_views, Json, JsonView};
use crate::text::{chars_of, contains, contains_str, join, join_strings, trim, trimmed, views};
use vstd::prelude::*;

verus! {

broadcast use vstd::string::group_string_axioms;

/// The name that a tool is listed under: none where the value does not describe a function with a
/// name.
pub open spec fn listed_name(tool: JsonView) -> Seq<char> {
    match tool.at("function"@).str_at("name"@) {
        Some(s) => s,
        None => Seq::empty(),
    }
}

/// The description that a tool is listed with.
pub open spec fn listed_description(tool: JsonView) -> Seq<char> {
    match tool.at("function"@).str_at("description"@) {
        Some(s) => s,
        None => Seq::empty(),
    }
}

/// The line that a tool is listed with.
pub open spec fn tool_line(tool: JsonView) -> Seq<char> {
    "- "@ + listed_name(tool) + "：" @ + listed_description(tool)
}

/// Whether a tool with this name is taken to send something to the user.
pub open spec fn is_sender(name: Seq<char>) -> bool {
    contains(name, "send"@) || contains(name, "message"@) || contains(name, "voice"@)
}

/// The lines of the tools that are (or are not) senders, in order.
pub open spec fn tool_lines(tools: Seq<JsonView>, senders: bool) -> Seq<Seq<char>>
    decreases tools.len(),
{
    if tools.len() == 0 {
        Seq::empty()
    } else {
        let rest = tool_lines(tools.drop_last(), senders);
        let name = listed_name(tools.last());
        if name.len() > 0 && is_sender(name) == senders {
            rest.push(tool_line(tools.last()))
        } else {
            rest
        }
    }
}

/// The lines of the hint: the rules, the tools that send, the others.
pub open spec fn hint_lines(tools: Seq<JsonView>) -> Seq<Seq<char>> {
    let head = seq![
        "【Core Rules】"@,
        "You have tools. User requests (send msg, generate image, query info, process files, etc.) MUST use tools. Never describe operations in text."@,
        "Do NOT send confirmation text after calling tools — the system handles delivery automatically."@,
        ""@,
    ];
    let senders = tool_lines(tools, true);
    let others = tool_lines(tools, false);
    let with_senders = if senders.len() == 0 {
        head
    } else {
        head.push("【Send Tools (direct to user chat)】"@) + senders.push(""@)
    };
    if others.len() == 0 {
        with_senders
    } else {
        with_senders.push("【Other Tools (query / generate / process)】"@) + others
    }
}

/// The hint that tells the model of its tools.
pub open spec fn tool_hint(tools: Seq<JsonView>) -> Seq<char> {
    join(hint_lines(tools), "\n"@)
}

fn push_line(lines: &mut Vec<String>, line: String)
    ensures
        views(final(lines)@) == views(old(lines)@).push(line@),
{
    let ghost before = lines@;
    lines.push(line);
    assert(views(before.push(line)) =~= views(before).push(line@));
}

fn push_lines(lines: &mut Vec<String>, more: Vec<String>)
    ensures
        views(final(lines)@) == views(old(lines)@) + views(more@),
{
    let ghost before = lines@;
    let mut more = more;
    let ghost added = more@;
    lines.append(&mut more);
    assert(views(before + added) =~= views(before) + views(added));
}

fn lines_of(tools: &Vec<Json>, senders: bool) -> (r: Vec<String>)
    ensures
        views(r@) == tool_lines(json_views(tools@), senders),
{
    let ghost all = json_views(tools@);
    let mut out: Vec<String> = Vec::new();
    let mut i: usize = 0;
    assert(all.take(0) =~= Seq::empty());
    assert(views(out@) =~= Seq::empty());
    while i < tools.len()
        invariant
            i <= tools@.len(),
            all == json_views(tools@),
            views(out@) == tool_lines(all.take(i as int), senders),
        decreases tools@.len() - i,
    {
        proof {
            let t = all.take(i + 1);
            assert(t.drop_last() =~= all.take(i as int));
            assert(t.last() == tools@[i as int]@);
        }
        let ghost tool = tools@[i as int]@;
        let mut name = String::new();
        let mut desc = String::new();
        match tools[i].get("function") {
            Some(f) => {
                match f.str_at("name") {
                    Some(s) => {
                        name = s.to_owned();
                    },
                    None => {},
                }
                match f.str_at("description") {
                    Some(s) => {
                        desc = s.to_owned();
                    },
                    None => {},
                }
            },
            None => {},
        }
        assert(name@ == listed_name(tool));
        assert(desc@ == listed_description(tool));
        let sender = contains_str(name.as_str(), "send") || contains_str(name.as_str(), "message")
            || contains_str(name.as_str(), "voice");
        if !name.as_str().is_empty() && sender == senders {
            let mut line = "- ".to_owned();
            line.append(name.as_str());
            line.append("：");
            line.append(desc.as_str());
            push_line(&mut out, line);
        }
        i = i + 1;
    }
    assert(all.take(all.len() as int) =~= all);
    out
}

/// The hint that tells the model of its tools.
pub fn build_tool_hint(tools: &Vec<Json>) -> (r: String)
    ensures
        r@ == tool_hint(json_views(tools@)),
{
    let senders = lines_of(tools, true);
    let others = lines_of(tools, false);
    let mut lines: Vec<String> = Vec::new();
    assert(views(lines@) =~= Seq::empty());
    push_line(&mut lines, "【Core Rules】".to_owned());
    push_line(
        &mut lines,
        "You have tools. User requests (send msg, generate image, query info, process files, etc.) MUST use tools. Never describe operations in text.".to_owned(),
    );
    push_line(
        &mut lines,
        "Do NOT send confirmation text after calling tools — the system handles delivery automatically.".to_owned(),
    );
    push_line(&mut lines, "".to_owned());
    let ghost head = views(lines@);
    assert(head =~= seq![
        "【Core Rules】"@,
        "You have tools. User requests (send msg, generate image, query info, process files, etc.) MUST use tools. Never describe operations in text."@,
        "Do NOT send confirmation text after calling tools — the system handles delivery automatically."@,
        ""@,
    ]);
    if senders.len() > 0 {
        let ghost s = views(senders@);
        push_line(&mut lines, "【Send Tools (direct to user chat)】".to_owned());
        push_lines(&mut lines, senders);
        push_line(&mut lines, "".to_owned());
        assert(views(lines@) =~= head.push("【Send Tools (direct to user chat)】"@) + s.push(""@));
    }
    if others.len() > 0 {
        push_line(&mut lines, "【Other Tools (query / generate / process)】".to_owned());
        push_lines(&mut lines, others);
    }
    assert(views(lines@) =~= hint_lines(json_views(tools@)));
    join_strings(&lines, "\n")
}

/// How many bytes a character takes in UTF-8.
pub open spec fn utf8_len(c: char) -> nat {
    if c <= '\u{7f}' {
        1
    } else if c <= '\u{7ff}' {
        2
    } else if c <= '\u{ffff}' {
        3
    } else {
        4
    }
}

fn char_bytes(c: char) -> (r: usize)
    ensures
        r == utf8_len(c),
{
    if c <= '\u{7f}' {
        1
    } else if c <= '\u{7ff}' {
        2
    } else if c <= '\u{ffff}' {
        3
    } else {
        4
    }
}

/// The characters of `s` that begin within its first `max` bytes, `used` bytes being before it.
pub open spec fn preview(s: Seq<char>, max: nat, used: nat) -> Seq<char>
    decreases s.len(),
{
    if s.len() == 0 || used >= max {
        Seq::empty()
    } else {
        seq![s[0]] + preview(s.skip(1), max, used + utf8_len(s[0]))
    }
}

/// The characters of `s` that begin within its first `max` bytes.
pub fn truncate_preview(s: &str, max: usize) -> (r: String)
    ensures
        r@ == preview(s@, max as nat, 0),
{
    let chars = chars_of(s);
    let mut out = String::new();
    let mut used: usize = 0;
    let mut i: usize = 0;
    assert(chars@.skip(0) =~= s@);
    assert(out@ + preview(s@, max as nat, 0) =~= preview(s@, max as nat, 0));
    while i < chars.len() && used < max
        invariant
            i <= chars@.len(),
            used < max + 4,
            out@ + preview(chars@.skip(i as int), max as nat, used as nat) =~= preview(
                s@,
                max as nat,
                0,
            ),
        decreases chars@.len() - i,
    {
        let c = chars[i];
        let ghost rest = chars@.skip(i as int);
        let ghost before = out@;
        assert(rest.skip(1) =~= chars@.skip(i + 1));
        out.push(c);
        let n = char_bytes(c);
        if used > usize::MAX - n {
            proof {
                assert(preview(rest.skip(1), max as nat, used as nat + n as nat) =~= Seq::empty());
                assert(before + (seq![c] + Seq::empty()) =~= out@);
            }
            return out;
        }
        assert(before + (seq![c] + preview(rest.skip(1), max as nat, (used + n) as nat)) =~= out@
            + preview(rest.skip(1), max as nat, (used + n) as nat));
        used = used + n;
        i = i + 1;
    }
    assert(preview(chars@.skip(i as int), max as nat, used as nat) =~= Seq::empty());
    assert(out@ + Seq::<char>::empty() =~= out@);
    out
}

/// What the `csv` crate reads from a table: for each record after the header its fields, none
/// where the record is malformed.
pub uninterp spec fn csv_rows(data: Seq<u8>) -> Seq<Option<Seq<Seq<char>>>>;

/// The view of a record.
pub open spec fn row_view(row: Option<Vec<String>>) -> Option<Seq<Seq<char>>> {
    match row {
        Some(fields) => Some(views(fields@)),
        None => None,
    }
}

/// The views of a list of records.
pub open spec fn row_views(rows: Seq<Option<Vec<String>>>) -> Seq<Option<Seq<Seq<char>>>> {
    rows.map_values(|r: Option<Vec<String>>| row_view(r))
}

/// `csv::Reader` with its default settings, over bytes: each record is handed out as its fields,
/// one that cannot be read as none. The result is a function of the bytes and is named
/// [`csv_rows`].
#[verifier::external_body]
fn read_csv(data: &[u8]) -> (r: Vec<Option<Vec<String>>>)
    ensures
        row_views(r@) == csv_rows(data@),
{
    csv::Reader::from_reader(data)
        .into_records()
        .map(|record| record.ok().map(|fields| fields.iter().map(String::from).collect()))
        .collect()
}

/// The prompts that a table holds: the third field of each record, trimmed, where it is not blank.
pub open spec fn prompts(rows: Seq<Option<Seq<Seq<char>>>>) -> Seq<Seq<char>>
    decreases rows.len(),
{
    if rows.len() == 0 {
        Seq::empty()
    } else {
        let rest = prompts(rows.drop_last());
        match rows.last() {
            Some(fields) => if fields.len() > 2 && trim(fields[2]).len() > 0 {
                rest.push(trim(fields[2]))
            } else {
                rest
            },
            None => rest,
        }
    }
}

/// The prompts that the records of a table hold.
pub fn prompts_of_rows(rows: &Vec<Option<Vec<String>>>) -> (r: Vec<String>)
    ensures
        views(r@) == prompts(row_views(rows@)),
{
    let ghost all = row_views(rows@);
    let mut out: Vec<String> = Vec::new();
    let mut i: usize = 0;
    assert(all.take(0) =~= Seq::empty());
    assert(views(out@) =~= Seq::empty());
    while i < rows.len()
        invariant
            i <= rows@.len(),
            all == row_views(rows@),
            views(out@) == prompts(all.take(i as int)),
        decreases rows@.len() - i,
    {
        proof {
            let t = all.take(i + 1);
            assert(t.drop_last() =~= all.take(i as int));
            assert(t.last() == row_view(rows@[i as int]));
        }
        match &rows[i] {
            Some(fields) => {
                if fields.len() > 2 {
                    let field = trimmed(fields[2].as_str());
                    assert(views(fields@)[2] == fields@[2]@);
                    if !field.as_str().is_empty() {
                        push_line(&mut out, field);
                    }
                }
            },
            None => {},
        }
        i = i + 1;
    }
    assert(all.take(all.len() as int) =~= all);
    out
}

/// The prompts that a table in CSV form holds.
pub fn load_jailbreak_prompts(data: &[u8]) -> (r: Vec<String>)
    ensures
        views(r@) == prompts(csv_rows(data@)),
{
    let rows = read_csv(data);
    prompts_of_rows(&rows)
}

/// Every prompt that a table gives is trimmed and not empty.
pub proof fn prompts_are_not_blank(rows: Seq<Option<Seq<Seq<char>>>>, i: int)
    requires
        0 <= i < prompts(rows).len(),
    ensures
        prompts(rows)[i].len() > 0,
        trim(prompts(rows)[i]) == prompts(rows)[i],
    decreases rows.len(),
{
    if rows.len() > 0 {
        let rest = prompts(rows.drop_last());
        if i < rest.len() {
            prompts_are_not_blank(rows.drop_last(), i);
        } else {
            crate::text::lemma_trim_idempotent(rows.last()->0[2]);
        }
    }
}

} // verus!
