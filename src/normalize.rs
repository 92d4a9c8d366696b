//! The event normalizer: turns one JSON record of the agent's output into
//! display items (assistant text, user echo, tool or action invocation).
use vstd::prelude::*;
use crate::json::{
    Json, as_text, either, get, get_member, member_is, member_text, or_null, or_ref, deref_opt, render, str_of, to_compact,
};
use crate::text::{chars_of, concat, opt_view, same_text, text_of, trim, trim_text};

verus! {

/// What a display item shows: assistant text, the user's own request, or a
/// tool or action invocation.
#[derive(Debug, Clone, Copy, PartialEq, Eq, Hash, Structural)]
pub enum DisplayKind {
    Assistant,
    User,
    Action,
}

/// One normalized unit of the agent's output; two items are the same when
/// kind and text are.
#[derive(Debug, Clone)]
pub struct DisplayItem {
    pub kind: DisplayKind,
    pub message: String,
}

impl View for DisplayItem {
    type V = (DisplayKind, Seq<char>);

    open spec fn view(&self) -> (DisplayKind, Seq<char>) {
        (self.kind, self.message@)
    }
}

impl PartialEq for DisplayItem {
    fn eq(&self, o: &DisplayItem) -> (r: bool) {
        self.kind == o.kind && self.message == o.message
    }
}

impl vstd::std_specs::cmp::PartialEqSpecImpl for DisplayItem {
    open spec fn obeys_eq_spec() -> bool {
        true
    }

    open spec fn eq_spec(&self, o: &DisplayItem) -> bool {
        self@ == o@
    }
}

impl Eq for DisplayItem {
}

/// What a list of items shows: each item's kind and text.
pub open spec fn views(s: Seq<DisplayItem>) -> Seq<(DisplayKind, Seq<char>)> {
    s.map_values(|i: DisplayItem| i@)
}

/// One item of `kind` for each text, in order.
pub open spec fn as_items(kind: DisplayKind, texts: Seq<Seq<char>>) -> Seq<(DisplayKind, Seq<char>)> {
    texts.map_values(|t: Seq<char>| (kind, t))
}

/// The content-part types that carry text.
pub open spec fn is_text_part(t: Seq<char>) -> bool {
    t == "output_text"@ || t == "output_markdown"@ || t == "text"@ || t == "input_text"@
}

/// The text that one element of a content array contributes.
pub open spec fn part_texts(part: Json) -> Seq<Seq<char>> {
    match part {
        Json::Object(_) => match str_of(get(part, "type"@)) {
            Some(ty) => if is_text_part(ty) {
                match str_of(either(get(part, "text"@), get(part, "content"@))) {
                    Some(t) => if t.len() > 0 {
                        seq![t]
                    } else {
                        Seq::empty()
                    },
                    None => Seq::empty(),
                }
            } else {
                Seq::empty()
            },
            None => Seq::empty(),
        },
        Json::Str(s) => if s@.len() > 0 {
            seq![s@]
        } else {
            Seq::empty()
        },
        _ => Seq::empty(),
    }
}

pub open spec fn parts_texts(parts: Seq<Json>) -> Seq<Seq<char>>
    decreases parts.len(),
{
    if parts.len() == 0 {
        Seq::empty()
    } else {
        parts_texts(parts.drop_last()) + part_texts(parts.last())
    }
}

/// The non-empty texts of a `content` field: a string, or an array of
/// typed parts.
pub open spec fn content_texts(content: Json) -> Seq<Seq<char>> {
    match content {
        Json::Array(parts) => parts_texts(parts@),
        Json::Str(s) => if s@.len() > 0 {
            seq![s@]
        } else {
            Seq::empty()
        },
        _ => Seq::empty(),
    }
}

/// One item of `kind` when `msg` is a non-empty string.
pub open spec fn item_if_text(kind: DisplayKind, msg: Json) -> Seq<(DisplayKind, Seq<char>)> {
    match msg {
        Json::Str(s) => if s@.len() > 0 {
            seq![(kind, s@)]
        } else {
            Seq::empty()
        },
        _ => Seq::empty(),
    }
}

/// The items of a `message` record with an `assistant` or `user` role.
pub open spec fn message_items(p: Json) -> Seq<(DisplayKind, Seq<char>)> {
    let role = str_of(get(p, "role"@));
    if str_of(get(p, "type"@)) != Some("message"@) {
        Seq::empty()
    } else if role != Some("assistant"@) && role != Some("user"@) {
        Seq::empty()
    } else {
        let kind = if role == Some("assistant"@) {
            DisplayKind::Assistant
        } else {
            DisplayKind::User
        };
        let texts = content_texts(or_null(get(p, "content"@)));
        if texts.len() > 0 {
            as_items(kind, texts)
        } else {
            item_if_text(kind, or_null(get(p, "message"@)))
        }
    }
}

/// Items of one kind from a record's `content`, `text` and `message` fields.
pub open spec fn spoken_items(kind: DisplayKind, it: Json) -> Seq<(DisplayKind, Seq<char>)> {
    as_items(kind, content_texts(or_null(get(it, "content"@)))) + item_if_text(
        kind,
        or_null(get(it, "text"@)),
    ) + item_if_text(kind, or_null(get(it, "message"@)))
}

/// The items of an `item` record.
pub open spec fn item_items(it: Json) -> Seq<(DisplayKind, Seq<char>)> {
    let ty = str_of(get(it, "type"@));
    if ty == Some("message"@) {
        message_items(it)
    } else if ty == Some("agent_message"@) || ty == Some("assistant_message"@) {
        spoken_items(DisplayKind::Assistant, it)
    } else if ty == Some("user_message"@) || ty == Some("user"@) {
        spoken_items(DisplayKind::User, it)
    } else {
        Seq::empty()
    }
}

pub open spec fn ascii_lower_char(c: char) -> char {
    if 'A' <= c && c <= 'Z' {
        ((c as u8) + 32) as char
    } else {
        c
    }
}

pub open spec fn ascii_lower(s: Seq<char>) -> Seq<char> {
    s.map_values(|c: char| ascii_lower_char(c))
}

/// The record types that name a tool call. Case is ignored; ASCII folding
/// decides this exactly as full Unicode lowercasing would, since no other
/// character lowercases to a letter of these words.
pub open spec fn is_action_type(t: Seq<char>) -> bool {
    let l = ascii_lower(t);
    l == "tool_call"@ || l == "function_call"@ || l == "action"@ || l == "tool"@
}

pub open spec fn strip_quotes_start(s: Seq<char>) -> Seq<char>
    decreases s.len(),
{
    if s.len() > 0 && s[0] == '"' {
        strip_quotes_start(s.drop_first())
    } else {
        s
    }
}

pub open spec fn strip_quotes_end(s: Seq<char>) -> Seq<char>
    decreases s.len(),
{
    if s.len() > 0 && s.last() == '"' {
        strip_quotes_end(s.drop_last())
    } else {
        s
    }
}

/// `s` without its leading and trailing double quotes.
pub open spec fn strip_quotes(s: Seq<char>) -> Seq<char> {
    strip_quotes_end(strip_quotes_start(s))
}

/// How an argument value is shown: containers as compact JSON, scalars
/// as their JSON text without the surrounding quotes.
pub open spec fn arg_text(a: Json) -> Seq<char> {
    if a is Object || a is Array {
        render(a)
    } else {
        strip_quotes(render(a))
    }
}

pub open spec fn tool_name(p: Json) -> Option<Json> {
    either(either(either(get(p, "name"@), get(p, "tool"@)), get(p, "tool_name"@)), get(p, "id"@))
}

pub open spec fn tool_args(p: Json) -> Option<Json> {
    either(either(either(get(p, "arguments"@), get(p, "args"@)), get(p, "input"@)), get(p, "parameters"@))
}

pub open spec fn looks_like_call(p: Json) -> bool {
    let has_name = get(p, "name"@) is Some || get(p, "tool"@) is Some || get(p, "tool_name"@) is Some;
    let has_args = get(p, "arguments"@) is Some || get(p, "args"@) is Some || get(p, "input"@) is Some
        || get(p, "parameters"@) is Some;
    has_name && has_args
}

/// The one-line rendering of a tool/function/action record, if it is one:
/// `name: arguments`, the name alone, the arguments alone, or a bare
/// description.
pub open spec fn action_text(p: Json) -> Option<Seq<char>> {
    let raw_type = match str_of(get(p, "type"@)) {
        Some(t) => t,
        None => Seq::empty(),
    };
    let name = tool_name(p);
    let args = tool_args(p);
    let desc = str_of(either(get(p, "message"@), get(p, "description"@)));
    let sep = seq![':', ' '];
    if !is_action_type(raw_type) && !looks_like_call(p) {
        None
    } else if desc is Some && trim(desc->0).len() > 0 && name is None && args is None {
        Some(trim(desc->0))
    } else {
        match (name, args) {
            (Some(n), Some(a)) => match n {
                Json::Str(s) => if s@.len() > 0 {
                    Some(s@ + sep + arg_text(a))
                } else {
                    Some(strip_quotes(render(n)) + sep + arg_text(a))
                },
                _ => Some(strip_quotes(render(n)) + sep + arg_text(a)),
            },
            (Some(n), None) => match n {
                Json::Str(s) => if s@.len() > 0 {
                    Some(s@)
                } else {
                    Some(strip_quotes(render(n)))
                },
                _ => Some(strip_quotes(render(n))),
            },
            (None, Some(a)) => if arg_text(a).len() > 0 {
                Some(arg_text(a))
            } else {
                None
            },
            (None, None) => None,
        }
    }
}

pub open spec fn action_items(p: Json) -> Seq<(DisplayKind, Seq<char>)> {
    match action_text(p) {
        Some(a) => seq![(DisplayKind::Action, a)],
        None => Seq::empty(),
    }
}

/// Actions of the objects in a list, in order.
pub open spec fn list_actions(list: Seq<Json>) -> Seq<(DisplayKind, Seq<char>)>
    decreases list.len(),
{
    if list.len() == 0 {
        Seq::empty()
    } else {
        let last = list.last();
        list_actions(list.drop_last()) + if last is Object {
            action_items(last)
        } else {
            Seq::empty()
        }
    }
}

/// Actions of the tool calls embedded in a container: its `tool_call`
/// object, then the objects of its `tool_calls` (or else `tools`) array.
pub open spec fn embedded_actions(c: Json) -> Seq<(DisplayKind, Seq<char>)> {
    if !(c is Object) {
        Seq::empty()
    } else {
        let single = match get(c, "tool_call"@) {
            Some(t) => if t is Object {
                action_items(t)
            } else {
                Seq::empty()
            },
            None => Seq::empty(),
        };
        let listed = match either(get(c, "tool_calls"@), get(c, "tools"@)) {
            Some(Json::Array(l)) => list_actions(l@),
            _ => Seq::empty(),
        };
        single + listed
    }
}

/// Items of an `event_msg` record's payload.
pub open spec fn event_msg_items(payload: Json) -> Seq<(DisplayKind, Seq<char>)> {
    let pt = str_of(get(payload, "type"@));
    let msg = or_null(either(get(payload, "message"@), get(payload, "text"@)));
    if pt == Some("agent_message"@) || pt == Some("assistant_message"@) {
        item_if_text(DisplayKind::Assistant, msg)
    } else if pt == Some("user_message"@) || pt == Some("user"@) {
        item_if_text(DisplayKind::User, msg)
    } else {
        action_items(payload)
    }
}

/// Every item that the recognition rules find in one record, in rule order,
/// before duplicates are removed: the event payload, the response item, a
/// finished text, the record itself when it is shaped like a tool call, its
/// `item`, then the tool calls embedded in the record, its payload and item.
pub open spec fn raw_items(obj: Json) -> Seq<(DisplayKind, Seq<char>)> {
    let et = str_of(get(obj, "type"@));
    let payload = or_null(get(obj, "payload"@));
    let item = or_null(get(obj, "item"@));
    let from_event = if et == Some("event_msg"@) && payload is Object {
        event_msg_items(payload)
    } else {
        Seq::empty()
    };
    let from_response = if et == Some("response_item"@) {
        message_items(payload) + action_items(payload)
    } else {
        Seq::empty()
    };
    let from_text = if et == Some("response.output_text.done"@) || et == Some(
        "response.output_text"@,
    ) {
        item_if_text(DisplayKind::Assistant, or_null(get(obj, "text"@)))
    } else {
        Seq::empty()
    };
    let from_item = if item is Object {
        item_items(item) + action_items(item)
    } else {
        Seq::empty()
    };
    from_event + from_response + from_text + action_items(obj) + from_item + embedded_actions(obj)
        + embedded_actions(payload) + embedded_actions(item)
}

/// `s` with each element kept only at its first occurrence.
pub open spec fn dedup<T>(s: Seq<T>) -> Seq<T>
    decreases s.len(),
{
    if s.len() == 0 {
        Seq::empty()
    } else {
        let d = dedup(s.drop_last());
        if d.contains(s.last()) {
            d
        } else {
            d.push(s.last())
        }
    }
}

/// The display items of one record.
pub open spec fn display_items(obj: Json) -> Seq<(DisplayKind, Seq<char>)> {
    dedup(raw_items(obj))
}

fn new_item(kind: DisplayKind, text: &String) -> (r: DisplayItem)
    ensures
        r@ == (kind, text@),
{
    DisplayItem { kind, message: text.clone() }
}

fn push_new(items: &mut Vec<DisplayItem>, kind: DisplayKind, text: &String)
    ensures
        views(final(items)@) == views(old(items)@).push((kind, text@)),
{
    let it = new_item(kind, text);
    items.push(it);
    assert(views(items@) =~= views(old(items)@).push((kind, text@)));
}

/// Pushes one item of `kind` when `msg` is a non-empty string.
fn push_if_text(items: &mut Vec<DisplayItem>, kind: DisplayKind, msg: Option<&Json>)
    ensures
        views(final(items)@) == views(old(items)@) + item_if_text(kind, or_null(deref_opt(msg))),
{
    match msg {
        Some(Json::Str(s)) => {
            if s.as_str().is_empty() {
                assert(views(items@) =~= views(items@) + item_if_text(kind, or_null(deref_opt(msg))));
            } else {
                push_new(items, kind, s);
                assert(views(items@) =~= views(old(items)@) + item_if_text(kind, or_null(deref_opt(msg))));
            }
        },
        _ => {
            assert(views(items@) =~= views(items@) + item_if_text(kind, or_null(deref_opt(msg))));
        },
    }
}

fn is_text_part_exec(t: &str) -> (r: bool)
    ensures
        r == is_text_part(t@),
{
    same_text(t, "output_text") || same_text(t, "output_markdown") || same_text(t, "text")
        || same_text(t, "input_text")
}

/// The text that one element of a content array contributes.
fn part_text<'a>(part: &'a Json) -> (r: Option<&'a String>)
    ensures
        part_texts(*part) == match r {
            Some(s) => seq![s@],
            None => Seq::<Seq<char>>::empty(),
        },
{
    match part {
        Json::Object(_) => {
            match member_text(part, "type") {
                Some(ty) => {
                    if is_text_part_exec(ty.as_str()) {
                        match as_text(or_ref(get_member(part, "text"), get_member(part, "content"))) {
                            Some(t) => {
                                if t.as_str().is_empty() {
                                    None
                                } else {
                                    Some(t)
                                }
                            },
                            None => None,
                        }
                    } else {
                        None
                    }
                },
                None => None,
            }
        },
        Json::Str(s) => {
            if s.as_str().is_empty() {
                None
            } else {
                Some(s)
            }
        },
        _ => None,
    }
}

proof fn lemma_as_items_append(kind: DisplayKind, a: Seq<Seq<char>>, b: Seq<Seq<char>>)
    ensures
        as_items(kind, a + b) == as_items(kind, a) + as_items(kind, b),
{
    assert(as_items(kind, a + b) =~= as_items(kind, a) + as_items(kind, b));
}

/// Pushes one item of `kind` for each text of `content`.
fn push_content_texts(items: &mut Vec<DisplayItem>, kind: DisplayKind, content: Option<&Json>)
    ensures
        views(final(items)@) == views(old(items)@) + as_items(
            kind,
            content_texts(or_null(deref_opt(content))),
        ),
{
    match content {
        Some(Json::Array(parts)) => {
            let ghost start = views(items@);
            let mut k: usize = 0;
            assert(as_items(kind, parts_texts(parts@.subrange(0, 0))) =~= Seq::empty());
            assert(start =~= start + as_items(kind, parts_texts(parts@.subrange(0, 0))));
            while k < parts.len()
                invariant
                    k <= parts.len(),
                    views(items@) == start + as_items(kind, parts_texts(parts@.subrange(0, k as int))),
                decreases parts.len() - k,
            {
                let ghost pre = parts@.subrange(0, k + 1);
                assert(pre.drop_last() =~= parts@.subrange(0, k as int));
                assert(pre.last() == parts@[k as int]);
                proof {
                    lemma_as_items_append(kind, parts_texts(pre.drop_last()), part_texts(pre.last()));
                }
                match part_text(&parts[k]) {
                    Some(t) => {
                        push_new(items, kind, t);
                        assert(as_items(kind, seq![t@]) =~= seq![(kind, t@)]);
                    },
                    None => {
                        assert(as_items(kind, Seq::<Seq<char>>::empty()) =~= Seq::empty());
                    },
                }
                k = k + 1;
                assert(views(items@) =~= start + as_items(kind, parts_texts(parts@.subrange(0, k as int))));
            }
            assert(parts@.subrange(0, parts.len() as int) =~= parts@);
        },
        Some(Json::Str(s)) => {
            if s.as_str().is_empty() {
                assert(views(items@) =~= views(items@) + as_items(kind, Seq::<Seq<char>>::empty()));
            } else {
                push_new(items, kind, s);
                assert(as_items(kind, seq![s@]) =~= seq![(kind, s@)]);
            }
        },
        _ => {
            assert(views(items@) =~= views(items@) + as_items(kind, Seq::<Seq<char>>::empty()));
        },
    }
}

/// The non-empty texts of a `content` field: a string, or the text-bearing
/// parts of an array of typed parts.
pub fn extract_text_from_content(content: &Json) -> (r: Vec<String>)
    ensures
        r@.map_values(|s: String| s@) == content_texts(*content),
{
    let mut items: Vec<DisplayItem> = Vec::new();
    push_content_texts(&mut items, DisplayKind::Assistant, Some(content));
    let mut out: Vec<String> = Vec::new();
    let mut k: usize = 0;
    let ghost texts = content_texts(*content);
    assert(views(items@) =~= as_items(DisplayKind::Assistant, texts));
    assert(views(items@).len() == items@.len());
    while k < items.len()
        invariant
            k <= items.len(),
            texts.len() == items.len(),
            out.len() == k,
            views(items@) == as_items(DisplayKind::Assistant, texts),
            out@.map_values(|s: String| s@) == texts.subrange(0, k as int),
        decreases items.len() - k,
    {
        assert(views(items@)[k as int] == items@[k as int]@);
        assert(as_items(DisplayKind::Assistant, texts)[k as int] == (DisplayKind::Assistant, texts[k as int]));
        let m = items[k].message.clone();
        assert(m@ == texts[k as int]);
        let ghost old_out = out@;
        out.push(m);
        assert(out@ == old_out.push(m));
        k = k + 1;
        assert(out@.map_values(|s: String| s@) =~= texts.subrange(0, k as int)) by {
            assert(old_out.map_values(|s: String| s@) =~= texts.subrange(0, k - 1));
        }
    }
    assert(texts.subrange(0, texts.len() as int) =~= texts);
    out
}

/// Pushes the items of a `message` record.
fn push_message_items(items: &mut Vec<DisplayItem>, p: &Json)
    ensures
        views(final(items)@) == views(old(items)@) + message_items(*p),
{
    if !member_is(p, "type", "message") {
        assert(views(items@) =~= views(items@) + message_items(*p));
        return;
    }
    let assistant = member_is(p, "role", "assistant");
    let user = member_is(p, "role", "user");
    if !assistant && !user {
        assert(views(items@) =~= views(items@) + message_items(*p));
        return;
    }
    let kind = if assistant {
        DisplayKind::Assistant
    } else {
        DisplayKind::User
    };
    let before = items.len();
    let ghost start = views(items@);
    push_content_texts(items, kind, get_member(p, "content"));
    let ghost texts = content_texts(or_null(get(*p, "content"@)));
    assert(views(items@).len() == items@.len());
    if items.len() == before {
        assert(texts.len() == 0);
        push_if_text(items, kind, get_member(p, "message"));
        assert(views(items@) =~= start + message_items(*p));
    } else {
        assert(views(items@) =~= start + message_items(*p));
    }
}

/// Pushes the items of one `item` record.
fn push_item_items(items: &mut Vec<DisplayItem>, it: &Json)
    ensures
        views(final(items)@) == views(old(items)@) + item_items(*it),
{
    let ghost start = views(items@);
    if member_is(it, "type", "message") {
        push_message_items(items, it);
        return;
    }
    let kind;
    if member_is(it, "type", "agent_message") || member_is(it, "type", "assistant_message") {
        kind = DisplayKind::Assistant;
    } else if member_is(it, "type", "user_message") || member_is(it, "type", "user") {
        kind = DisplayKind::User;
    } else {
        assert(views(items@) =~= start + item_items(*it));
        return;
    }
    push_content_texts(items, kind, get_member(it, "content"));
    push_if_text(items, kind, get_member(it, "text"));
    push_if_text(items, kind, get_member(it, "message"));
    assert(views(items@) =~= start + item_items(*it));
}

pub fn ascii_lower_chars(v: &Vec<char>) -> (r: Vec<char>)
    ensures
        r@ == ascii_lower(v@),
{
    let mut r: Vec<char> = Vec::new();
    let mut k: usize = 0;
    while k < v.len()
        invariant
            k <= v.len(),
            r@ == ascii_lower(v@.subrange(0, k as int)),
        decreases v.len() - k,
    {
        let c = v[k];
        let l = if 'A' <= c && c <= 'Z' {
            ((c as u8) + 32) as char
        } else {
            c
        };
        r.push(l);
        k = k + 1;
        assert(r@ =~= ascii_lower(v@.subrange(0, k as int)));
    }
    assert(v@.subrange(0, v.len() as int) =~= v@);
    r
}

fn is_action_type_exec(t: &str) -> (r: bool)
    ensures
        r == is_action_type(t@),
{
    let l = text_of(ascii_lower_chars(&chars_of(t)).as_slice());
    same_text(l.as_str(), "tool_call") || same_text(l.as_str(), "function_call") || same_text(
        l.as_str(),
        "action",
    ) || same_text(l.as_str(), "tool")
}

/// `str::trim_matches('"')`: drops the leading and trailing double quotes.
pub fn strip_quotes_exec(s: &str) -> (r: String)
    ensures
        r@ == strip_quotes(s@),
{
    let v = chars_of(s);
    let mut i: usize = 0;
    assert(v@.subrange(0, v.len() as int) =~= v@);
    while i < v.len() && v[i] == '"'
        invariant
            i <= v.len(),
            strip_quotes_start(v@) == strip_quotes_start(v@.subrange(i as int, v.len() as int)),
        decreases v.len() - i,
    {
        assert(v@.subrange(i as int, v.len() as int).drop_first() =~= v@.subrange(
            i + 1,
            v.len() as int,
        ));
        i = i + 1;
    }
    let mut j: usize = v.len();
    let ghost t = v@.subrange(i as int, v.len() as int);
    assert(t.subrange(0, t.len() as int) =~= t);
    while j > i && v[j - 1] == '"'
        invariant
            i <= j <= v.len(),
            t == v@.subrange(i as int, v.len() as int),
            strip_quotes_end(t) == strip_quotes_end(v@.subrange(i as int, j as int)),
        decreases j,
    {
        assert(v@.subrange(i as int, j as int).drop_last() =~= v@.subrange(i as int, j - 1));
        j = j - 1;
    }
    let w = crate::text::slice_chars(&v, i, j);
    text_of(w.as_slice())
}

fn arg_text_exec(a: &Json) -> (r: String)
    ensures
        r@ == arg_text(*a),
{
    let c = to_compact(a);
    match a {
        Json::Object(_) => c,
        Json::Array(_) => c,
        _ => strip_quotes_exec(c.as_str()),
    }
}

fn name_text_exec(n: &Json) -> (r: String)
    ensures
        r@ == match *n {
            Json::Str(s) => if s@.len() > 0 {
                s@
            } else {
                strip_quotes(render(*n))
            },
            _ => strip_quotes(render(*n)),
        },
{
    match n {
        Json::Str(s) => {
            if !s.as_str().is_empty() {
                return s.clone();
            }
        },
        _ => {},
    }
    strip_quotes_exec(to_compact(n).as_str())
}

/// The one-line rendering of a tool/function/action record: `name: arguments`,
/// the name alone, the arguments alone, or a bare description; nothing when
/// the record is not shaped like a call.
pub fn format_action(p: &Json) -> (r: Option<String>)
    ensures
        opt_view(r) == action_text(*p),
{
    let is_action = match member_text(p, "type") {
        Some(t) => is_action_type_exec(t.as_str()),
        None => {
            assert(ascii_lower(Seq::<char>::empty()) =~= Seq::<char>::empty());
            proof {
                reveal_strlit("tool_call");
                reveal_strlit("function_call");
                reveal_strlit("action");
                reveal_strlit("tool");
            }
            false
        },
    };
    if !is_action {
        let has_name = get_member(p, "name").is_some() || get_member(p, "tool").is_some()
            || get_member(p, "tool_name").is_some();
        let has_args = get_member(p, "arguments").is_some() || get_member(p, "args").is_some()
            || get_member(p, "input").is_some() || get_member(p, "parameters").is_some();
        if !(has_name && has_args) {
            return None;
        }
    }
    let name = or_ref(
        or_ref(or_ref(get_member(p, "name"), get_member(p, "tool")), get_member(p, "tool_name")),
        get_member(p, "id"),
    );
    let args = or_ref(
        or_ref(or_ref(get_member(p, "arguments"), get_member(p, "args")), get_member(p, "input")),
        get_member(p, "parameters"),
    );
    let desc = as_text(or_ref(get_member(p, "message"), get_member(p, "description")));
    match desc {
        Some(d) => {
            let t = trim_text(d.as_str());
            if !t.as_str().is_empty() && name.is_none() && args.is_none() {
                return Some(t);
            }
        },
        None => {},
    }
    match (name, args) {
        (Some(n), Some(a)) => {
            let nt = name_text_exec(n);
            let with_sep = concat(nt.as_str(), ": ");
            proof {
                reveal_strlit(": ");
            }
            assert(": "@ =~= seq![':', ' ']);
            Some(concat(with_sep.as_str(), arg_text_exec(a).as_str()))
        },
        (Some(n), None) => Some(name_text_exec(n)),
        (None, Some(a)) => {
            let at = arg_text_exec(a);
            if at.as_str().is_empty() {
                None
            } else {
                Some(at)
            }
        },
        (None, None) => None,
    }
}

/// Pushes the action item of `p`, if it has one.
fn push_action(items: &mut Vec<DisplayItem>, p: &Json)
    ensures
        views(final(items)@) == views(old(items)@) + action_items(*p),
{
    match format_action(p) {
        Some(a) => {
            push_new(items, DisplayKind::Action, &a);
            assert(views(items@) =~= views(old(items)@) + action_items(*p));
        },
        None => {
            assert(views(items@) =~= views(items@) + action_items(*p));
        },
    }
}

/// Pushes the actions of the tool calls embedded in `c`.
fn push_embedded_actions(items: &mut Vec<DisplayItem>, c: &Json)
    ensures
        views(final(items)@) == views(old(items)@) + embedded_actions(*c),
{
    let ghost start = views(items@);
    if !matches!(c, Json::Object(_)) {
        assert(views(items@) =~= start + embedded_actions(*c));
        return;
    }
    match get_member(c, "tool_call") {
        Some(t) => {
            if matches!(t, Json::Object(_)) {
                push_action(items, t);
            }
        },
        None => {},
    }
    let ghost mid = views(items@);
    match or_ref(get_member(c, "tool_calls"), get_member(c, "tools")) {
        Some(Json::Array(list)) => {
            let mut k: usize = 0;
            assert(mid =~= mid + list_actions(list@.subrange(0, 0)));
            while k < list.len()
                invariant
                    k <= list.len(),
                    views(items@) == mid + list_actions(list@.subrange(0, k as int)),
                decreases list.len() - k,
            {
                let ghost pre = list@.subrange(0, k + 1);
                assert(pre.drop_last() =~= list@.subrange(0, k as int));
                assert(pre.last() == list@[k as int]);
                if matches!(&list[k], Json::Object(_)) {
                    push_action(items, &list[k]);
                }
                k = k + 1;
                assert(views(items@) =~= mid + list_actions(list@.subrange(0, k as int)));
            }
            assert(list@.subrange(0, list.len() as int) =~= list@);
        },
        _ => {},
    }
    assert(views(items@) =~= start + embedded_actions(*c));
}

fn push_event_items(items: &mut Vec<DisplayItem>, obj: &Json, payload: &Json)
    ensures
        views(final(items)@) == views(old(items)@) + if str_of(get(*obj, "type"@)) == Some(
            "event_msg"@,
        ) && payload is Object {
            event_msg_items(*payload)
        } else {
            Seq::empty()
        },
{
    if member_is(obj, "type", "event_msg") && matches!(payload, Json::Object(_)) {
        let msg = or_ref(get_member(payload, "message"), get_member(payload, "text"));
        if member_is(payload, "type", "agent_message") || member_is(payload, "type", "assistant_message") {
            push_if_text(items, DisplayKind::Assistant, msg);
        } else if member_is(payload, "type", "user_message") || member_is(payload, "type", "user") {
            push_if_text(items, DisplayKind::User, msg);
        } else {
            push_action(items, payload);
        }
    } else {
        assert(views(items@) =~= views(items@) + Seq::empty());
    }
}

fn push_response_items(items: &mut Vec<DisplayItem>, obj: &Json, payload: &Json)
    ensures
        views(final(items)@) == views(old(items)@) + if str_of(get(*obj, "type"@)) == Some(
            "response_item"@,
        ) {
            message_items(*payload) + action_items(*payload)
        } else {
            Seq::empty()
        },
{
    if member_is(obj, "type", "response_item") {
        push_message_items(items, payload);
        push_action(items, payload);
        assert(views(items@) =~= views(old(items)@) + (message_items(*payload) + action_items(*payload)));
    } else {
        assert(views(items@) =~= views(items@) + Seq::empty());
    }
}

fn push_text_items(items: &mut Vec<DisplayItem>, obj: &Json)
    ensures
        views(final(items)@) == views(old(items)@) + if str_of(get(*obj, "type"@)) == Some(
            "response.output_text.done"@,
        ) || str_of(get(*obj, "type"@)) == Some("response.output_text"@) {
            item_if_text(DisplayKind::Assistant, or_null(get(*obj, "text"@)))
        } else {
            Seq::empty()
        },
{
    if member_is(obj, "type", "response.output_text.done") || member_is(
        obj,
        "type",
        "response.output_text",
    ) {
        push_if_text(items, DisplayKind::Assistant, get_member(obj, "text"));
    } else {
        assert(views(items@) =~= views(items@) + Seq::empty());
    }
}

/// Every item that the recognition rules find in `obj`, duplicates included.
fn collect_raw_items(obj: &Json) -> (r: Vec<DisplayItem>)
    ensures
        views(r@) == raw_items(*obj),
{
    let mut items: Vec<DisplayItem> = Vec::new();
    let null = Json::Null;
    let payload: &Json = match get_member(obj, "payload") {
        Some(v) => v,
        None => &null,
    };
    let item: &Json = match get_member(obj, "item") {
        Some(v) => v,
        None => &null,
    };
    assert(*payload == or_null(get(*obj, "payload"@)));
    assert(*item == or_null(get(*obj, "item"@)));
    assert(views(items@) =~= Seq::empty());
    push_event_items(&mut items, obj, payload);
    push_response_items(&mut items, obj, payload);
    push_text_items(&mut items, obj);
    push_action(&mut items, obj);
    if matches!(item, Json::Object(_)) {
        push_item_items(&mut items, item);
        push_action(&mut items, item);
    }
    push_embedded_actions(&mut items, obj);
    push_embedded_actions(&mut items, payload);
    push_embedded_actions(&mut items, item);
    assert(views(items@) =~= raw_items(*obj));
    items
}

/// Keeps each item only at its first occurrence.
fn dedup_items(v: &Vec<DisplayItem>) -> (r: Vec<DisplayItem>)
    ensures
        views(r@) == dedup(views(v@)),
{
    let mut out: Vec<DisplayItem> = Vec::new();
    let mut k: usize = 0;
    assert(views(v@).subrange(0, 0) =~= Seq::<(DisplayKind, Seq<char>)>::empty());
    assert(views(out@) =~= Seq::empty());
    while k < v.len()
        invariant
            k <= v.len(),
            views(out@) == dedup(views(v@).subrange(0, k as int)),
        decreases v.len() - k,
    {
        let ghost pre = views(v@).subrange(0, k + 1);
        assert(pre.drop_last() =~= views(v@).subrange(0, k as int));
        assert(pre.last() == v@[k as int]@);
        let mut seen = false;
        let mut j: usize = 0;
        while j < out.len()
            invariant
                k < v.len(),
                j <= out.len(),
                seen == exists|m: int| 0 <= m < j && views(out@)[m] == v@[k as int]@,
            decreases out.len() - j,
        {
            assert(views(out@)[j as int] == out@[j as int]@);
            if out[j].kind == v[k].kind && out[j].message == v[k].message {
                seen = true;
            }
            j = j + 1;
        }
        if !seen {
            push_new(&mut out, v[k].kind, &v[k].message);
        }
        k = k + 1;
    }
    assert(views(v@).subrange(0, v.len() as int) =~= views(v@));
    out
}

/// The display items of one record of the agent's output, in rule order,
/// each `(kind, text)` pair kept at its first occurrence only.
pub fn extract_display_items(obj: &Json) -> (r: Vec<DisplayItem>)
    ensures
        views(r@) == display_items(*obj),
{
    let raw = collect_raw_items(obj);
    dedup_items(&raw)
}

/// The texts of the assistant items among `s`, in order.
pub open spec fn assistant_texts(s: Seq<(DisplayKind, Seq<char>)>) -> Seq<Seq<char>>
    decreases s.len(),
{
    if s.len() == 0 {
        Seq::empty()
    } else {
        assistant_texts(s.drop_last()) + if s.last().0 == DisplayKind::Assistant {
            seq![s.last().1]
        } else {
            Seq::empty()
        }
    }
}

/// The assistant texts among the display items of `obj`.
pub fn extract_assistant_messages(obj: &Json) -> (r: Vec<String>)
    ensures
        r@.map_values(|s: String| s@) == assistant_texts(display_items(*obj)),
{
    let items = extract_display_items(obj);
    let ghost all = views(items@);
    let mut out: Vec<String> = Vec::new();
    let mut k: usize = 0;
    assert(out@.map_values(|s: String| s@) =~= assistant_texts(all.subrange(0, 0)));
    while k < items.len()
        invariant
            k <= items.len(),
            all == views(items@),
            out@.map_values(|s: String| s@) == assistant_texts(all.subrange(0, k as int)),
        decreases items.len() - k,
    {
        let ghost pre = all.subrange(0, k + 1);
        assert(pre.drop_last() =~= all.subrange(0, k as int));
        assert(pre.last() == items@[k as int]@);
        if items[k].kind == DisplayKind::Assistant {
            out.push(items[k].message.clone());
        }
        k = k + 1;
        assert(out@.map_values(|s: String| s@) =~= assistant_texts(all.subrange(0, k as int)));
    }
    assert(all.subrange(0, items.len() as int) =~= all);
    out
}

} // verus!
