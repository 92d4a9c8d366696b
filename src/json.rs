//! A JSON value held as plain data, as the agent's records are read by the
//! normalizer, and its compact text form.
use vstd::prelude::*;

verus! {

/// One JSON value. Numbers keep the text that the parser gave them; object
/// members keep their order.
pub enum Json {
    Null,
    Bool(bool),
    Number(String),
    Str(String),
    Array(Vec<Json>),
    Object(Vec<JsonField>),
}

/// One member of a JSON object.
pub struct JsonField {
    pub key: String,
    pub value: Json,
}

/// The value of the first member of `fields` named `key`.
pub open spec fn field_lookup(fields: Seq<JsonField>, key: Seq<char>) -> Option<Json>
    decreases fields.len(),
{
    if fields.len() == 0 {
        None
    } else if fields[0].key@ == key {
        Some(fields[0].value)
    } else {
        field_lookup(fields.drop_first(), key)
    }
}

/// `j[key]`: the member `key` of an object, nothing for any other value.
pub open spec fn get(j: Json, key: Seq<char>) -> Option<Json> {
    match j {
        Json::Object(fields) => field_lookup(fields@, key),
        _ => None,
    }
}

/// The text of a string value.
pub open spec fn str_of(j: Option<Json>) -> Option<Seq<char>> {
    match j {
        Some(Json::Str(s)) => Some(s@),
        _ => None,
    }
}

/// `a.or(b)` on looked-up members.
pub open spec fn either(a: Option<Json>, b: Option<Json>) -> Option<Json> {
    if a is Some {
        a
    } else {
        b
    }
}

pub open spec fn or_null(a: Option<Json>) -> Json {
    match a {
        Some(v) => v,
        None => Json::Null,
    }
}

/// The value behind an optional reference.
pub open spec fn deref_opt(r: Option<&Json>) -> Option<Json> {
    match r {
        Some(a) => Some(*a),
        None => None,
    }
}

pub open spec fn hex_digit(n: int) -> char {
    seq!['0', '1', '2', '3', '4', '5', '6', '7', '8', '9', 'a', 'b', 'c', 'd', 'e', 'f'][n]
}

/// How one character is written inside a JSON string.
pub open spec fn escape_char(c: char) -> Seq<char> {
    let u = c as u32;
    if c == '"' {
        seq!['\\', '"']
    } else if c == '\\' {
        seq!['\\', '\\']
    } else if u == 0x08 {
        seq!['\\', 'b']
    } else if u == 0x09 {
        seq!['\\', 't']
    } else if u == 0x0a {
        seq!['\\', 'n']
    } else if u == 0x0c {
        seq!['\\', 'f']
    } else if u == 0x0d {
        seq!['\\', 'r']
    } else if u < 0x20 {
        seq!['\\', 'u', '0', '0', hex_digit(u as int / 16), hex_digit(u as int % 16)]
    } else {
        seq![c]
    }
}

pub open spec fn escape(s: Seq<char>) -> Seq<char>
    decreases s.len(),
{
    if s.len() == 0 {
        Seq::empty()
    } else {
        escape(s.drop_last()) + escape_char(s.last())
    }
}

pub open spec fn quoted(s: Seq<char>) -> Seq<char> {
    seq!['"'] + escape(s) + seq!['"']
}

/// The compact JSON text of `j`: no white space, members in their order.
pub open spec fn render(j: Json) -> Seq<char>
    decreases j,
{
    match j {
        Json::Null => seq!['n', 'u', 'l', 'l'],
        Json::Bool(b) => if b {
            seq!['t', 'r', 'u', 'e']
        } else {
            seq!['f', 'a', 'l', 's', 'e']
        },
        Json::Number(n) => n@,
        Json::Str(s) => quoted(s@),
        Json::Array(items) => seq!['['] + render_items(items@) + seq![']'],
        Json::Object(fields) => seq!['{'] + render_fields(fields@) + seq!['}'],
    }
}

pub open spec fn render_items(items: Seq<Json>) -> Seq<char>
    decreases items,
{
    if items.len() == 0 {
        Seq::empty()
    } else if items.len() == 1 {
        render(items[0])
    } else {
        render_items(items.drop_last()) + seq![','] + render(items.last())
    }
}

pub open spec fn render_field(f: JsonField) -> Seq<char>
    decreases f,
{
    quoted(f.key@) + seq![':'] + render(f.value)
}

pub open spec fn render_fields(fields: Seq<JsonField>) -> Seq<char>
    decreases fields,
{
    if fields.len() == 0 {
        Seq::empty()
    } else if fields.len() == 1 {
        render_field(fields[0])
    } else {
        render_fields(fields.drop_last()) + seq![','] + render_field(fields.last())
    }
}

/// The member `key` of `j`, when `j` is an object that has one.
pub fn get_member<'a>(j: &'a Json, key: &str) -> (r: Option<&'a Json>)
    ensures
        deref_opt(r) == get(*j, key@),
{
    match j {
        Json::Object(fields) => {
            let mut i: usize = 0;
            assert(fields@.subrange(0, fields.len() as int) =~= fields@);
            while i < fields.len()
                invariant
                    *j == Json::Object(*fields),
                    i <= fields.len(),
                    field_lookup(fields@, key@) == field_lookup(
                        fields@.subrange(i as int, fields.len() as int),
                        key@,
                    ),
                decreases fields.len() - i,
            {
                let ghost rest = fields@.subrange(i as int, fields.len() as int);
                assert(rest.drop_first() =~= fields@.subrange(i + 1, fields.len() as int));
                assert(rest[0] == fields@[i as int]);
                if crate::text::same_text(fields[i].key.as_str(), key) {
                    return Some(&fields[i].value);
                }
                i = i + 1;
            }
            None
        },
        _ => None,
    }
}

/// The text of member `key` of `j`, when it is a string.
pub fn member_text<'a>(j: &'a Json, key: &str) -> (r: Option<&'a String>)
    ensures
        match str_of(get(*j, key@)) {
            Some(t) => r is Some && r->0@ == t,
            None => r is None,
        },
{
    as_text(get_member(j, key))
}

/// Whether member `key` of `j` is the string `lit`.
pub fn member_is(j: &Json, key: &str, lit: &str) -> (r: bool)
    ensures
        r == (str_of(get(*j, key@)) == Some(lit@)),
{
    match member_text(j, key) {
        Some(t) => crate::text::same_text(t.as_str(), lit),
        None => false,
    }
}

/// `a.or(b)` on optional references.
pub fn or_ref<'a>(a: Option<&'a Json>, b: Option<&'a Json>) -> (r: Option<&'a Json>)
    ensures
        deref_opt(r) == either(deref_opt(a), deref_opt(b)),
{
    if a.is_some() {
        a
    } else {
        b
    }
}

/// The text of `j` when it is a string.
pub fn as_text(j: Option<&Json>) -> (r: Option<&String>)
    ensures
        match j {
            Some(Json::Str(s)) => r == Some(s),
            _ => r is None,
        },
{
    match j {
        Some(Json::Str(s)) => Some(s),
        _ => None,
    }
}

fn hex_digit_exec(n: u32) -> (c: char)
    requires
        n < 16,
    ensures
        c == hex_digit(n as int),
{
    let digits: [char; 16] = [
        '0', '1', '2', '3', '4', '5', '6', '7', '8', '9', 'a', 'b', 'c', 'd', 'e', 'f',
    ];
    let c = digits[n as usize];
    assert(digits@ == seq!['0', '1', '2', '3', '4', '5', '6', '7', '8', '9', 'a', 'b', 'c', 'd', 'e', 'f']);
    c
}

fn push_escaped_char(out: &mut Vec<char>, c: char)
    ensures
        final(out)@ == old(out)@ + escape_char(c),
{
    let u = c as u32;
    let ghost start = out@;
    if c == '"' {
        out.push('\\');
        out.push('"');
    } else if c == '\\' {
        out.push('\\');
        out.push('\\');
    } else if u == 0x08 {
        out.push('\\');
        out.push('b');
    } else if u == 0x09 {
        out.push('\\');
        out.push('t');
    } else if u == 0x0a {
        out.push('\\');
        out.push('n');
    } else if u == 0x0c {
        out.push('\\');
        out.push('f');
    } else if u == 0x0d {
        out.push('\\');
        out.push('r');
    } else if u < 0x20 {
        out.push('\\');
        out.push('u');
        out.push('0');
        out.push('0');
        out.push(hex_digit_exec(u / 16));
        out.push(hex_digit_exec(u % 16));
    } else {
        out.push(c);
    }
    assert(out@ =~= start + escape_char(c));
}

fn push_quoted(out: &mut Vec<char>, s: &str)
    ensures
        final(out)@ == old(out)@ + quoted(s@),
{
    let v = crate::text::chars_of(s);
    let ghost start = out@;
    out.push('"');
    let mut k: usize = 0;
    while k < v.len()
        invariant
            k <= v.len(),
            v@ == s@,
            out@ == start + seq!['"'] + escape(v@.subrange(0, k as int)),
        decreases v.len() - k,
    {
        let ghost before = out@;
        push_escaped_char(out, v[k]);
        k = k + 1;
        assert(v@.subrange(0, k as int).drop_last() =~= v@.subrange(0, k - 1));
    }
    out.push('"');
    assert(v@.subrange(0, v.len() as int) =~= v@);
    assert(out@ =~= start + quoted(s@));
}

proof fn lemma_array_decreases(j: Json, k: int)
    requires
        j is Array,
        0 <= k < j->Array_0.len(),
    ensures
        decreases_to!(j => j->Array_0@[k]),
{
    let v = j->Array_0;
    assert(decreases_to!(j => j->Array_0));
    assert(decreases_to!(v => v@));
    assert(decreases_to!(v@ => v@[k]));
}

proof fn lemma_object_decreases(j: Json, k: int)
    requires
        j is Object,
        0 <= k < j->Object_0.len(),
    ensures
        decreases_to!(j => j->Object_0@[k].value),
{
    let v = j->Object_0;
    let f = v@[k];
    assert(decreases_to!(j => j->Object_0));
    assert(decreases_to!(v => v@));
    assert(decreases_to!(v@ => v@[k]));
    assert(decreases_to!(f => f.value));
}

/// Appends the compact text of `j` to `out`.
pub fn render_into(j: &Json, out: &mut Vec<char>)
    ensures
        final(out)@ == old(out)@ + render(*j),
    decreases j,
{
    let ghost start = out@;
    match j {
        Json::Null => {
            out.push('n');
            out.push('u');
            out.push('l');
            out.push('l');
        },
        Json::Bool(b) => {
            if *b {
                out.push('t');
                out.push('r');
                out.push('u');
                out.push('e');
            } else {
                out.push('f');
                out.push('a');
                out.push('l');
                out.push('s');
                out.push('e');
            }
        },
        Json::Number(n) => {
            let v = crate::text::chars_of(n.as_str());
            crate::text::push_all(out, &v);
        },
        Json::Str(s) => {
            push_quoted(out, s.as_str());
        },
        Json::Array(items) => {
            out.push('[');
            let mut k: usize = 0;
            while k < items.len()
                invariant
                    *j == Json::Array(*items),
                    k <= items.len(),
                    out@ == start + seq!['['] + render_items(items@.subrange(0, k as int)),
                decreases items.len() - k,
            {
                let ghost before = out@;
                if k > 0 {
                    out.push(',');
                }
                proof {
                    lemma_array_decreases(*j, k as int);
                }
                render_into(&items[k], out);
                k = k + 1;
                let ghost pre = items@.subrange(0, k as int);
                assert(pre.drop_last() =~= items@.subrange(0, k - 1));
                assert(out@ =~= start + seq!['['] + render_items(pre));
            }
            out.push(']');
            assert(items@.subrange(0, items.len() as int) =~= items@);
        },
        Json::Object(fields) => {
            out.push('{');
            let mut k: usize = 0;
            while k < fields.len()
                invariant
                    *j == Json::Object(*fields),
                    k <= fields.len(),
                    out@ == start + seq!['{'] + render_fields(fields@.subrange(0, k as int)),
                decreases fields.len() - k,
            {
                let ghost before = out@;
                if k > 0 {
                    out.push(',');
                }
                let ghost mid = out@;
                push_quoted(out, fields[k].key.as_str());
                out.push(':');
                proof {
                    lemma_object_decreases(*j, k as int);
                }
                render_into(&fields[k].value, out);
                proof {
                    let f = fields@[k as int];
                    assert(out@ =~= mid + render_field(f));
                }
                k = k + 1;
                let ghost pre = fields@.subrange(0, k as int);
                assert(pre.drop_last() =~= fields@.subrange(0, k - 1));
                assert(pre.last() == fields@[k - 1]);
                assert(out@ =~= start + seq!['{'] + render_fields(pre));
            }
            out.push('}');
            assert(fields@.subrange(0, fields.len() as int) =~= fields@);
        },
    }
    assert(out@ =~= start + render(*j));
}

/// The compact JSON text of `j`, as `serde_json::to_string` writes it.
pub fn to_compact(j: &Json) -> (r: String)
    ensures
        r@ == render(*j),
{
    let mut out: Vec<char> = Vec::new();
    render_into(j, &mut out);
    assert(out@ =~= render(*j));
    crate::text::text_of(out.as_slice())
}

} // verus!
