//! The document model of the adapter: a JSON tree whose numbers are
//! carried as their decimal rendering, together with a verified
//! serializer and a trusted parser.

use vstd::prelude::*;

verus! {

use crate::text::{push_chars, string_from_chars, str_eq};
use vstd::string::StrSliceExecFns;

/// A JSON document. Numbers are held as their canonical decimal
/// rendering; objects are ordered key/value lists.
pub enum Json {
    Null,
    Bool(bool),
    Num(String),
    Str(String),
    Arr(Vec<Json>),
    Obj(Vec<(String, Json)>),
}

/// The mathematical shape of a JSON document.
#[verifier::ext_equal]
pub ghost enum JsonData {
    Null,
    Bool(bool),
    Num(Seq<char>),
    Str(Seq<char>),
    Arr(Seq<JsonData>),
    Obj(Seq<(Seq<char>, JsonData)>),
}

/// The shape of a document value.
pub open spec fn json_view(j: Json) -> JsonData
    decreases j,
{
    match j {
        Json::Null => JsonData::Null,
        Json::Bool(b) => JsonData::Bool(b),
        Json::Num(s) => JsonData::Num(s@),
        Json::Str(s) => JsonData::Str(s@),
        Json::Arr(items) => JsonData::Arr(seq_view(items@)),
        Json::Obj(members) => JsonData::Obj(members_view(members@)),
    }
}

/// The shapes of a sequence of document values.
pub open spec fn seq_view(items: Seq<Json>) -> Seq<JsonData>
    decreases items,
{
    if items.len() == 0 {
        Seq::empty()
    } else {
        seq_view(items.drop_last()).push(json_view(items.last()))
    }
}

/// The shapes of a sequence of object members.
pub open spec fn members_view(members: Seq<(String, Json)>) -> Seq<(Seq<char>, JsonData)>
    decreases members,
{
    if members.len() == 0 {
        Seq::empty()
    } else {
        members_view(members.drop_last()).push(
            (members.last().0@, json_view(members.last().1)),
        )
    }
}

impl View for Json {
    type V = JsonData;

    open spec fn view(&self) -> JsonData {
        json_view(*self)
    }
}

pub proof fn lemma_seq_view(items: Seq<Json>)
    ensures
        seq_view(items).len() == items.len(),
        forall|i: int| 0 <= i < items.len() ==> seq_view(items)[i] == items[i]@,
    decreases items.len(),
{
    if items.len() > 0 {
        lemma_seq_view(items.drop_last());
        assert forall|i: int| 0 <= i < items.len() implies seq_view(items)[i] == items[i]@ by {
            if i < items.len() - 1 {
                assert(items.drop_last()[i] == items[i]);
            }
        }
    }
}

pub proof fn lemma_members_view(members: Seq<(String, Json)>)
    ensures
        members_view(members).len() == members.len(),
        forall|i: int|
            0 <= i < members.len() ==> members_view(members)[i] == (
                members[i].0@,
                members[i].1@,
            ),
    decreases members.len(),
{
    if members.len() > 0 {
        lemma_members_view(members.drop_last());
        assert forall|i: int|
            0 <= i < members.len() implies members_view(members)[i] == (
            members[i].0@,
            members[i].1@,
        ) by {
            if i < members.len() - 1 {
                assert(members.drop_last()[i] == members[i]);
            }
        }
    }
}

/// The hexadecimal digit for a value below sixteen, lower case.
pub open spec fn spec_hex_digit(n: u32) -> char {
    if n == 0 {
        '0'
    } else if n == 1 {
        '1'
    } else if n == 2 {
        '2'
    } else if n == 3 {
        '3'
    } else if n == 4 {
        '4'
    } else if n == 5 {
        '5'
    } else if n == 6 {
        '6'
    } else if n == 7 {
        '7'
    } else if n == 8 {
        '8'
    } else if n == 9 {
        '9'
    } else if n == 10 {
        'a'
    } else if n == 11 {
        'b'
    } else if n == 12 {
        'c'
    } else if n == 13 {
        'd'
    } else if n == 14 {
        'e'
    } else {
        'f'
    }
}

/// How one character is written inside a JSON string: quote and
/// backslash get a backslash, the named control characters their short
/// escape, other control characters a `\u00XX` escape, and every other
/// character stands as itself.
pub open spec fn escape_char(c: char) -> Seq<char> {
    if c == '"' {
        seq!['\\', '"']
    } else if c == '\\' {
        seq!['\\', '\\']
    } else if c == '\u{0008}' {
        seq!['\\', 'b']
    } else if c == '\t' {
        seq!['\\', 't']
    } else if c == '\n' {
        seq!['\\', 'n']
    } else if c == '\u{000C}' {
        seq!['\\', 'f']
    } else if c == '\r' {
        seq!['\\', 'r']
    } else if (c as u32) < 0x20 {
        seq!['\\', 'u', '0', '0', spec_hex_digit((c as u32) / 16), spec_hex_digit(
            (c as u32) % 16,
        )]
    } else {
        seq![c]
    }
}

/// How a whole string body is written inside a JSON string.
pub open spec fn escape_seq(s: Seq<char>) -> Seq<char>
    decreases s.len(),
{
    if s.len() == 0 {
        Seq::empty()
    } else {
        escape_seq(s.drop_last()) + escape_char(s.last())
    }
}

/// The serialized text of a document.
pub open spec fn json_text(d: JsonData) -> Seq<char>
    decreases d,
{
    match d {
        JsonData::Null => "null"@,
        JsonData::Bool(b) => if b {
            "true"@
        } else {
            "false"@
        },
        JsonData::Num(s) => s,
        JsonData::Str(s) => seq!['"'] + escape_seq(s) + seq!['"'],
        JsonData::Arr(items) => seq!['['] + items_text(items) + seq![']'],
        JsonData::Obj(members) => seq!['{'] + members_text(members) + seq!['}'],
    }
}

/// The serialized text of the elements of an array, comma separated.
pub open spec fn items_text(items: Seq<JsonData>) -> Seq<char>
    decreases items,
{
    if items.len() == 0 {
        Seq::empty()
    } else if items.len() == 1 {
        json_text(items[0])
    } else {
        items_text(items.drop_last()) + seq![','] + json_text(items.last())
    }
}

/// The serialized text of one object member.
pub open spec fn member_text(m: (Seq<char>, JsonData)) -> Seq<char>
    decreases m,
{
    seq!['"'] + escape_seq(m.0) + seq!['"', ':'] + json_text(m.1)
}

/// The serialized text of the members of an object, comma separated.
pub open spec fn members_text(members: Seq<(Seq<char>, JsonData)>) -> Seq<char>
    decreases members,
{
    if members.len() == 0 {
        Seq::empty()
    } else if members.len() == 1 {
        member_text(members[0])
    } else {
        members_text(members.drop_last()) + seq![','] + member_text(members.last())
    }
}

proof fn lemma_items_text_take_step(t: Seq<JsonData>, i: int)
    requires
        0 <= i < t.len(),
    ensures
        items_text(t.take(i + 1)) == if i == 0 {
            json_text(t[0])
        } else {
            items_text(t.take(i)) + seq![','] + json_text(t[i])
        },
{
    let u = t.take(i + 1);
    assert(u.len() == i + 1);
    if i == 0 {
        assert(u[0] == t[0]);
    } else {
        assert(u.drop_last() =~= t.take(i));
        assert(u.last() == t[i]);
    }
}

proof fn lemma_members_text_take_step(t: Seq<(Seq<char>, JsonData)>, i: int)
    requires
        0 <= i < t.len(),
    ensures
        members_text(t.take(i + 1)) == if i == 0 {
            member_text(t[0])
        } else {
            members_text(t.take(i)) + seq![','] + member_text(t[i])
        },
{
    let u = t.take(i + 1);
    assert(u.len() == i + 1);
    if i == 0 {
        assert(u[0] == t[0]);
    } else {
        assert(u.drop_last() =~= t.take(i));
        assert(u.last() == t[i]);
    }
}

proof fn lemma_escape_take_step(s: Seq<char>, i: int)
    requires
        0 <= i < s.len(),
    ensures
        escape_seq(s.take(i + 1)) == escape_seq(s.take(i)) + escape_char(s[i]),
{
    let u = s.take(i + 1);
    assert(u.len() == i + 1);
    assert(u.drop_last() =~= s.take(i));
    assert(u.last() == s[i]);
}

fn hex_digit_char(n: u32) -> (r: char)
    requires
        n < 16,
    ensures
        r == spec_hex_digit(n),
{
    if n == 0 {
        '0'
    } else if n == 1 {
        '1'
    } else if n == 2 {
        '2'
    } else if n == 3 {
        '3'
    } else if n == 4 {
        '4'
    } else if n == 5 {
        '5'
    } else if n == 6 {
        '6'
    } else if n == 7 {
        '7'
    } else if n == 8 {
        '8'
    } else if n == 9 {
        '9'
    } else if n == 10 {
        'a'
    } else if n == 11 {
        'b'
    } else if n == 12 {
        'c'
    } else if n == 13 {
        'd'
    } else if n == 14 {
        'e'
    } else {
        'f'
    }
}

fn push_escaped_char(c: char, out: &mut Vec<char>)
    ensures
        final(out)@ == old(out)@ + escape_char(c),
{
    if c == '"' {
        out.push('\\');
        out.push('"');
    } else if c == '\\' {
        out.push('\\');
        out.push('\\');
    } else if c == '\u{0008}' {
        out.push('\\');
        out.push('b');
    } else if c == '\t' {
        out.push('\\');
        out.push('t');
    } else if c == '\n' {
        out.push('\\');
        out.push('n');
    } else if c == '\u{000C}' {
        out.push('\\');
        out.push('f');
    } else if c == '\r' {
        out.push('\\');
        out.push('r');
    } else if (c as u32) < 0x20 {
        out.push('\\');
        out.push('u');
        out.push('0');
        out.push('0');
        out.push(hex_digit_char((c as u32) / 16));
        out.push(hex_digit_char((c as u32) % 16));
    } else {
        out.push(c);
    }
    proof {
        assert(out@ =~= old(out)@ + escape_char(c));
    }
}

fn write_string_escaped(s: &str, out: &mut Vec<char>)
    ensures
        final(out)@ == old(out)@ + seq!['"'] + escape_seq(s@) + seq!['"'],
{
    out.push('"');
    let n = s.unicode_len();
    let mut i: usize = 0;
    while i < n
        invariant
            n == s@.len(),
            i <= n,
            out@ == old(out)@ + seq!['"'] + escape_seq(s@.take(i as int)),
        decreases n - i,
    {
        let c = s.get_char(i);
        push_escaped_char(c, out);
        proof {
            lemma_escape_take_step(s@, i as int);
            assert(out@ =~= old(out)@ + seq!['"'] + escape_seq(s@.take(i as int + 1)));
        }
        i = i + 1;
    }
    proof {
        assert(s@.take(n as int) =~= s@);
    }
    out.push('"');
    proof {
        assert(out@ =~= old(out)@ + seq!['"'] + escape_seq(s@) + seq!['"']);
    }
}

/// Appends the serialized text of `j` to `out`.
#[verifier::loop_isolation(false)]
pub fn write_json(j: &Json, out: &mut Vec<char>)
    ensures
        final(out)@ == old(out)@ + json_text(j@),
    decreases *j,
{
    match j {
        Json::Null => {
            push_chars(out, "null");
        },
        Json::Bool(b) => {
            if *b {
                push_chars(out, "true");
            } else {
                push_chars(out, "false");
            }
        },
        Json::Num(s) => {
            push_chars(out, s.as_str());
        },
        Json::Str(s) => {
            write_string_escaped(s.as_str(), out);
        },
        Json::Arr(items) => {
            proof {
                lemma_seq_view(items@);
            }
            let ghost t = seq_view(items@);
            out.push('[');
            let n = items.len();
            let mut i: usize = 0;
            while i < n
                invariant
                    t == seq_view(items@),
                    t.len() == items@.len(),
                    forall|k: int| 0 <= k < items@.len() ==> t[k] == items@[k]@,
                    n == items@.len(),
                    i <= n,
                    out@ == old(out)@ + seq!['['] + items_text(t.take(i as int)),
                decreases n - i,
            {
                if i > 0 {
                    out.push(',');
                }
                proof {
                    assert(decreases_to!(*j => *items));
                    assert(decreases_to!(*items => (*items)[i as int]));
                }
                write_json(&items[i], out);
                proof {
                    lemma_items_text_take_step(t, i as int);
                    assert(out@ =~= old(out)@ + seq!['['] + items_text(t.take(i as int + 1)));
                }
                i = i + 1;
            }
            proof {
                assert(t.take(n as int) =~= t);
            }
            out.push(']');
            proof {
                assert(out@ =~= old(out)@ + json_text(j@));
            }
        },
        Json::Obj(members) => {
            proof {
                lemma_members_view(members@);
            }
            let ghost t = members_view(members@);
            out.push('{');
            let n = members.len();
            let mut i: usize = 0;
            while i < n
                invariant
                    t == members_view(members@),
                    t.len() == members@.len(),
                    forall|k: int|
                        0 <= k < members@.len() ==> t[k] == (members@[k].0@, members@[k].1@),
                    n == members@.len(),
                    i <= n,
                    out@ == old(out)@ + seq!['{'] + members_text(t.take(i as int)),
                decreases n - i,
            {
                if i > 0 {
                    out.push(',');
                }
                let m = &members[i];
                write_string_escaped(m.0.as_str(), out);
                out.push(':');
                proof {
                    assert(decreases_to!(*j => *members));
                    assert(decreases_to!(*members => (*members)[i as int]));
                    assert(decreases_to!((*members)[i as int] => (*members)[i as int].1));
                }
                write_json(&m.1, out);
                proof {
                    lemma_members_text_take_step(t, i as int);
                    assert(out@ =~= old(out)@ + seq!['{'] + members_text(t.take(i as int + 1)));
                }
                i = i + 1;
            }
            proof {
                assert(t.take(n as int) =~= t);
            }
            out.push('}');
            proof {
                assert(out@ =~= old(out)@ + json_text(j@));
            }
        },
    }
}

/// The serialized text of a document, as a string.
pub fn to_json_string(j: &Json) -> (r: String)
    ensures
        r@ == json_text(j@),
{
    let mut out: Vec<char> = Vec::new();
    write_json(j, &mut out);
    proof {
        assert(out@ =~= json_text(j@));
    }
    string_from_chars(&out)
}

/// The member of an object stored under `key`: the first entry with that
/// key, if any.
pub open spec fn spec_lookup(members: Seq<(Seq<char>, JsonData)>, key: Seq<char>) -> Option<
    JsonData,
>
    decreases members.len(),
{
    if members.len() == 0 {
        None
    } else if members[0].0 == key {
        Some(members[0].1)
    } else {
        spec_lookup(members.drop_first(), key)
    }
}

/// Index semantics of a document: the member under `key` of an object,
/// and `Null` when the key is absent or the document is no object.
pub open spec fn spec_index_of(d: JsonData, key: Seq<char>) -> JsonData {
    match d {
        JsonData::Obj(members) => match spec_lookup(members, key) {
            Some(v) => v,
            None => JsonData::Null,
        },
        _ => JsonData::Null,
    }
}

/// The document is an object that carries `key`, whatever the value.
pub open spec fn spec_has(d: JsonData, key: Seq<char>) -> bool {
    match d {
        JsonData::Obj(members) => spec_lookup(members, key) is Some,
        _ => false,
    }
}

pub proof fn lemma_lookup_found(members: Seq<(Seq<char>, JsonData)>, key: Seq<char>, i: int)
    requires
        0 <= i < members.len(),
        forall|k: int| 0 <= k < i ==> members[k].0 != key,
        members[i].0 == key,
    ensures
        spec_lookup(members, key) == Some(members[i].1),
    decreases i,
{
    if i == 0 {
    } else {
        assert(members[0].0 != key);
        let rest = members.drop_first();
        assert(forall|k: int| 0 <= k < i - 1 ==> rest[k] == members[k + 1]);
        lemma_lookup_found(rest, key, i - 1);
    }
}

proof fn lemma_lookup_missing(members: Seq<(Seq<char>, JsonData)>, key: Seq<char>)
    requires
        forall|k: int| 0 <= k < members.len() ==> members[k].0 != key,
    ensures
        spec_lookup(members, key) is None,
    decreases members.len(),
{
    if members.len() > 0 {
        let rest = members.drop_first();
        assert(forall|k: int| 0 <= k < rest.len() ==> rest[k] == members[k + 1]);
        lemma_lookup_missing(rest, key);
    }
}

/// The member of `j` under `key`, when `j` is an object that carries it
/// with a value other than `null`; `None` as serde's index operator
/// answers `Null`.
#[verifier::loop_isolation(false)]
pub fn obj_get<'a>(j: &'a Json, key: &str) -> (r: Option<&'a Json>)
    ensures
        match r {
            Some(v) => v@ == spec_index_of(j@, key@),
            None => spec_index_of(j@, key@) == JsonData::Null,
        },
{
    match j {
        Json::Obj(members) => {
            proof {
                lemma_members_view(members@);
            }
            let ghost t = members_view(members@);
            let n = members.len();
            let mut i: usize = 0;
            while i < n
                invariant
                    t == members_view(members@),
                    t.len() == members@.len(),
                    forall|k: int|
                        0 <= k < members@.len() ==> t[k] == (members@[k].0@, members@[k].1@),
                    n == members@.len(),
                    i <= n,
                    forall|k: int| 0 <= k < i ==> t[k].0 != key@,
                decreases n - i,
            {
                let m = &members[i];
                if str_eq(m.0.as_str(), key) {
                    proof {
                        assert(t[i as int].0 == key@);
                        lemma_lookup_found(t, key@, i as int);
                        assert(j@ == JsonData::Obj(t));
                        assert(spec_index_of(j@, key@) == t[i as int].1);
                    }
                    return Some(&m.1);
                }
                i = i + 1;
            }
            proof {
                lemma_lookup_missing(t, key@);
            }
            None
        },
        _ => None,
    }
}

/// The object `j` carries `key`, whatever the value stored under it.
#[verifier::loop_isolation(false)]
pub fn json_has(j: &Json, key: &str) -> (r: bool)
    ensures
        r == spec_has(j@, key@),
{
    match j {
        Json::Obj(members) => {
            proof {
                lemma_members_view(members@);
            }
            let ghost t = members_view(members@);
            let n = members.len();
            let mut i: usize = 0;
            while i < n
                invariant
                    t == members_view(members@),
                    t.len() == members@.len(),
                    forall|k: int|
                        0 <= k < members@.len() ==> t[k] == (members@[k].0@, members@[k].1@),
                    n == members@.len(),
                    i <= n,
                    forall|k: int| 0 <= k < i ==> t[k].0 != key@,
                decreases n - i,
            {
                let m = &members[i];
                if str_eq(m.0.as_str(), key) {
                    proof {
                        assert(t[i as int].0 == key@);
                        lemma_lookup_found(t, key@, i as int);
                        assert(j@ == JsonData::Obj(t));
                    }
                    return true;
                }
                i = i + 1;
            }
            proof {
                lemma_lookup_missing(t, key@);
            }
            false
        },
        _ => false,
    }
}

/// What `serde_json::from_str` parses a given text to: the shape of the
/// document, or `None` exactly when the text is not valid JSON.
pub uninterp spec fn json_of(s: Seq<char>) -> Option<JsonData>;

#[verifier::external_type_specification]
#[verifier::external_body]
pub struct ExValue(serde_json::Value);

/// Relies on the variant shape of `serde_json::Value`: rebinds each
/// variant of a parsed tree as the library's own document type, one arm
/// per variant, numbers by their canonical decimal rendering.
#[verifier::external_body]
fn value_to_json(v: serde_json::Value) -> Json {
    match v {
        serde_json::Value::Null => Json::Null,
        serde_json::Value::Bool(b) => Json::Bool(b),
        serde_json::Value::Number(n) => Json::Num(n.to_string()),
        serde_json::Value::String(s) => Json::Str(s),
        serde_json::Value::Array(a) => Json::Arr(a.into_iter().map(value_to_json).collect()),
        serde_json::Value::Object(o) => Json::Obj(
            o.into_iter().map(|kv| (kv.0, value_to_json(kv.1))).collect(),
        ),
    }
}

/// Relies on `serde_json::from_str`: parses JSON text into its document
/// tree, and fails exactly when the text is not valid JSON; the error
/// carries serde's own description.
#[verifier::external_body]
pub fn parse_json(s: &str) -> (r: Result<Json, String>)
    ensures
        match r {
            Ok(d) => json_of(s@) == Some(d@),
            Err(_) => json_of(s@) is None,
        },
{
    match serde_json::from_str::<serde_json::Value>(s) {
        Ok(v) => Ok(value_to_json(v)),
        Err(e) => Err(e.to_string()),
    }
}

} // verus!
