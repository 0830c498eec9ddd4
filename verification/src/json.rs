//! JSON values as the store handles them (entity data, relation properties, generated JSON
//! Schemas), their mathematical model, and their compact text form.
use vstd::prelude::*;

use crate::text::{hex_digit, push_char};

verus! {

/// A JSON value. Object members are kept in the order they were given, which for values
/// read from the database is ascending key order, each key once.
#[derive(Debug, PartialEq, Eq)]
pub enum JsonValue {
    Null,
    Bool(bool),
    /// A number, held as its JSON literal text (for example `42` or `1.5`).
    Number(String),
    String(String),
    Array(Vec<JsonValue>),
    Object(Vec<(String, JsonValue)>),
}

/// The mathematical model of a [`JsonValue`].
pub enum Json {
    Null,
    Bool(bool),
    Number(Seq<char>),
    String(Seq<char>),
    Array(Seq<Json>),
    Object(Seq<(Seq<char>, Json)>),
}

pub open spec fn json_model(v: JsonValue) -> Json
    decreases v,
{
    match v {
        JsonValue::Null => Json::Null,
        JsonValue::Bool(b) => Json::Bool(b),
        JsonValue::Number(n) => Json::Number(n@),
        JsonValue::String(s) => Json::String(s@),
        JsonValue::Array(items) => Json::Array(json_model_items(items@)),
        JsonValue::Object(members) => Json::Object(json_model_members(members@)),
    }
}

pub open spec fn json_model_items(s: Seq<JsonValue>) -> Seq<Json>
    decreases s,
{
    if s.len() == 0 {
        Seq::empty()
    } else {
        json_model_items(s.drop_last()).push(json_model(s.last()))
    }
}

pub open spec fn json_model_members(s: Seq<(String, JsonValue)>) -> Seq<(Seq<char>, Json)>
    decreases s,
{
    if s.len() == 0 {
        Seq::empty()
    } else {
        json_model_members(s.drop_last()).push((s.last().0@, json_model(s.last().1)))
    }
}

impl Clone for JsonValue {
    fn clone(&self) -> (r: JsonValue)
        ensures
            r@ == self@,
    {
        self.copy()
    }
}

impl View for JsonValue {
    type V = Json;

    open spec fn view(&self) -> Json {
        json_model(*self)
    }
}

/// The escape sequence JSON text uses for one character inside a string literal.
pub open spec fn json_escape_char(c: char) -> Seq<char> {
    if c == '"' {
        seq!['\\', '"']
    } else if c == '\\' {
        seq!['\\', '\\']
    } else if c == '\n' {
        seq!['\\', 'n']
    } else if c == '\r' {
        seq!['\\', 'r']
    } else if c == '\t' {
        seq!['\\', 't']
    } else if c == '\u{8}' {
        seq!['\\', 'b']
    } else if c == '\u{c}' {
        seq!['\\', 'f']
    } else if (c as int) < 0x20 {
        seq!['\\', 'u', '0', '0', hex_digit((c as int / 16) as nat), hex_digit((c as int % 16) as nat)]
    } else {
        seq![c]
    }
}

pub open spec fn json_escape(s: Seq<char>) -> Seq<char>
    decreases s.len(),
{
    if s.len() == 0 {
        Seq::empty()
    } else {
        json_escape(s.drop_last()) + json_escape_char(s.last())
    }
}

/// A JSON string literal holding `s`.
pub open spec fn json_quote(s: Seq<char>) -> Seq<char> {
    seq!['"'] + json_escape(s) + seq!['"']
}

/// Compact JSON text of a value: no whitespace, members in their stored order.
pub open spec fn json_text(j: Json) -> Seq<char>
    decreases j,
{
    match j {
        Json::Null => "null"@,
        Json::Bool(b) => if b {
            "true"@
        } else {
            "false"@
        },
        Json::Number(n) => n,
        Json::String(s) => json_quote(s),
        Json::Array(items) => seq!['['] + json_list_text(items) + seq![']'],
        Json::Object(members) => seq!['{'] + json_members_text(members) + seq!['}'],
    }
}

pub open spec fn json_list_text(s: Seq<Json>) -> Seq<char>
    decreases s,
{
    if s.len() == 0 {
        Seq::empty()
    } else if s.len() == 1 {
        json_text(s[0])
    } else {
        json_list_text(s.drop_last()) + seq![','] + json_text(s.last())
    }
}

pub open spec fn json_members_text(s: Seq<(Seq<char>, Json)>) -> Seq<char>
    decreases s,
{
    if s.len() == 0 {
        Seq::empty()
    } else if s.len() == 1 {
        json_quote(s[0].0) + seq![':'] + json_text(s[0].1)
    } else {
        json_members_text(s.drop_last()) + seq![','] + json_quote(s.last().0) + seq![':']
            + json_text(s.last().1)
    }
}

/// The value of a hexadecimal digit character, in either case.
pub open spec fn hex_value(ch: char) -> Option<int> {
    if 48 <= (ch as int) <= 57 {
        Some(ch as int - 48)
    } else if 97 <= (ch as int) <= 102 {
        Some(ch as int - 87)
    } else if 65 <= (ch as int) <= 70 {
        Some(ch as int - 55)
    } else {
        None
    }
}

/// The character a two-character escape `\x` stands for inside a JSON string literal.
pub open spec fn short_escape(x: char) -> Option<char> {
    if x == '"' {
        Some('"')
    } else if x == '\\' {
        Some('\\')
    } else if x == '/' {
        Some('/')
    } else if x == 'n' {
        Some('\n')
    } else if x == 'r' {
        Some('\r')
    } else if x == 't' {
        Some('\t')
    } else if x == 'b' {
        Some('\u{8}')
    } else if x == 'f' {
        Some('\u{c}')
    } else {
        None
    }
}

/// The code point a `\uXXXX` escape at the start of `t` names, when `t` starts with one.
pub open spec fn unicode_escape(t: Seq<char>) -> Option<int> {
    if t.len() >= 6 && t[0] == '\\' && t[1] == 'u' && hex_value(t[2]) is Some && hex_value(t[3]) is Some
        && hex_value(t[4]) is Some && hex_value(t[5]) is Some {
        Some(
            4096 * hex_value(t[2])->0 + 256 * hex_value(t[3])->0 + 16 * hex_value(t[4])->0 + hex_value(
                t[5],
            )->0,
        )
    } else {
        None
    }
}

/// Reads the text between the quotes of a JSON string literal back into the characters it
/// stands for, as RFC 8259 defines them: `None` for text no JSON reader accepts (a raw
/// quote or control character, a backslash not starting a valid escape). A `\u` escape is
/// read here only for a code point outside the surrogate range.
pub open spec fn json_unescape(t: Seq<char>) -> Option<Seq<char>>
    decreases t.len(),
{
    if t.len() == 0 {
        Some(Seq::empty())
    } else if t[0] == '\\' {
        if t.len() >= 2 && short_escape(t[1]) is Some {
            match json_unescape(t.subrange(2, t.len() as int)) {
                Some(r) => Some(seq![short_escape(t[1])->0] + r),
                None => None,
            }
        } else if unicode_escape(t) is Some && !(0xD800 <= unicode_escape(t)->0 <= 0xDFFF) {
            match json_unescape(t.subrange(6, t.len() as int)) {
                Some(r) => Some(seq![unicode_escape(t)->0 as char] + r),
                None => None,
            }
        } else {
            None
        }
    } else if t[0] == '"' || (t[0] as int) < 0x20 {
        None
    } else {
        match json_unescape(t.drop_first()) {
            Some(r) => Some(seq![t[0]] + r),
            None => None,
        }
    }
}

proof fn lemma_hex_digit_value(d: nat)
    requires
        d < 16,
    ensures
        hex_value(hex_digit(d)) == Some(d as int),
        (hex_digit(d) as int) >= 0x30,
{
}

proof fn lemma_escape_front(c: char, s: Seq<char>)
    ensures
        json_escape(seq![c] + s) == json_escape_char(c) + json_escape(s),
    decreases s.len(),
{
    let t = seq![c] + s;
    if s.len() == 0 {
        assert(t =~= seq![c]);
        assert(t.drop_last() =~= Seq::<char>::empty());
        assert(json_escape(t) == json_escape(t.drop_last()) + json_escape_char(t.last()));
        assert(json_escape(t) =~= json_escape_char(c));
        assert(json_escape_char(c) + json_escape(s) =~= json_escape_char(c));
    } else {
        lemma_escape_front(c, s.drop_last());
        assert(t.drop_last() =~= seq![c] + s.drop_last());
        assert(t.last() == s.last());
        assert(json_escape(t) == json_escape(t.drop_last()) + json_escape_char(t.last()));
        assert(json_escape_char(c) + json_escape(s) =~= json_escape_char(c) + json_escape(s.drop_last())
            + json_escape_char(s.last()));
    }
}

proof fn lemma_unescape_char(c: char, rest: Seq<char>)
    ensures
        json_unescape(json_escape_char(c) + rest) == match json_unescape(rest) {
            Some(r) => Some(seq![c] + r),
            None => None,
        },
        forall|k: int| 0 <= k < json_escape_char(c).len() ==> (#[trigger] json_escape_char(c)[k] as int) >= 0x20,
{
    let e = json_escape_char(c);
    let t = e + rest;
    if e.len() == 2 {
        assert(t.subrange(2, t.len() as int) =~= rest);
        assert(t[0] == '\\');
    } else if e.len() == 6 {
        let hi = (c as int / 16) as nat;
        let lo = (c as int % 16) as nat;
        lemma_hex_digit_value(hi);
        lemma_hex_digit_value(lo);
        assert(t[2] == '0' && t[3] == '0' && t[4] == hex_digit(hi) && t[5] == hex_digit(lo));
        assert(unicode_escape(t) == Some(c as int));
        assert((c as int) as char == c);
        assert(t.subrange(6, t.len() as int) =~= rest);
    } else {
        assert(t.drop_first() =~= rest);
    }
}

proof fn lemma_unescape_escape(s: Seq<char>)
    ensures
        json_unescape(json_escape(s)) == Some(s),
        forall|k: int| 0 <= k < json_escape(s).len() ==> (#[trigger] json_escape(s)[k] as int) >= 0x20,
    decreases s.len(),
{
    if s.len() > 0 {
        let rest = s.drop_first();
        assert(s =~= seq![s[0]] + rest);
        lemma_escape_front(s[0], rest);
        lemma_unescape_escape(rest);
        lemma_unescape_char(s[0], json_escape(rest));
        let e = json_escape_char(s[0]);
        assert forall|k: int| 0 <= k < json_escape(s).len() implies (#[trigger] json_escape(s)[k] as int)
            >= 0x20 by {
            if k < e.len() {
                assert(json_escape(s)[k] == e[k]);
            } else {
                assert(json_escape(s)[k] == json_escape(rest)[k - e.len()]);
            }
        }
    }
}

/// The JSON text of any string is a string literal that holds no raw control character
/// (every character below U+0020 is escaped) and that a JSON reader reads back as exactly
/// the same string: between its two quotes stands the escaped text, and reading the
/// escapes gives the original characters.
pub proof fn lemma_string_text_reads_back(s: Seq<char>)
    ensures
        forall|k: int| 0 <= k < json_text(Json::String(s)).len() ==> (#[trigger] json_text(
            Json::String(s),
        )[k] as int) >= 0x20,
        json_text(Json::String(s)).len() >= 2,
        json_text(Json::String(s))[0] == '"',
        json_text(Json::String(s)).last() == '"',
        json_unescape(json_text(Json::String(s)).subrange(1, json_text(Json::String(s)).len() - 1))
            == Some(s),
{
    lemma_unescape_escape(s);
    let q = json_text(Json::String(s));
    let e = json_escape(s);
    assert(q == seq!['"'] + e + seq!['"']);
    assert(q.subrange(1, q.len() - 1) =~= e);
    assert forall|k: int| 0 <= k < q.len() implies (#[trigger] q[k] as int) >= 0x20 by {
        if 0 < k < q.len() - 1 {
            assert(q[k] == e[k - 1]);
        }
    }
}

/// No character below U+0020 in `t`.
pub open spec fn printable(t: Seq<char>) -> bool {
    forall|k: int| 0 <= k < t.len() ==> (#[trigger] t[k] as int) >= 0x20
}

/// Every number literal in `j` is printable (a number's text is written as it is held).
pub open spec fn numbers_printable(j: Json) -> bool
    decreases j,
{
    match j {
        Json::Number(n) => printable(n),
        Json::Array(items) => forall|i: int| 0 <= i < items.len() ==> numbers_printable(#[trigger] items[i]),
        Json::Object(members) => forall|i: int|
            0 <= i < members.len() ==> numbers_printable(#[trigger] members[i].1),
        _ => true,
    }
}

proof fn lemma_printable_concat(a: Seq<char>, b: Seq<char>)
    requires
        printable(a),
        printable(b),
    ensures
        printable(a + b),
{
    assert forall|k: int| 0 <= k < (a + b).len() implies (#[trigger] (a + b)[k] as int) >= 0x20 by {
        if k < a.len() {
            assert((a + b)[k] == a[k]);
        } else {
            assert((a + b)[k] == b[k - a.len()]);
        }
    }
}

proof fn lemma_quote_printable(s: Seq<char>)
    ensures
        printable(json_quote(s)),
{
    lemma_string_text_reads_back(s);
}

proof fn lemma_text_printable(j: Json)
    requires
        numbers_printable(j),
    ensures
        printable(json_text(j)),
    decreases j, 0int,
{
    match j {
        Json::Null => {
            reveal_strlit("null");
        },
        Json::Bool(b) => {
            reveal_strlit("true");
            reveal_strlit("false");
        },
        Json::Number(n) => {},
        Json::String(s) => {
            lemma_quote_printable(s);
        },
        Json::Array(items) => {
            lemma_list_printable(items);
            lemma_printable_concat(seq!['['], json_list_text(items));
            lemma_printable_concat(seq!['['] + json_list_text(items), seq![']']);
        },
        Json::Object(members) => {
            lemma_members_printable(members);
            lemma_printable_concat(seq!['{'], json_members_text(members));
            lemma_printable_concat(seq!['{'] + json_members_text(members), seq!['}']);
        },
    }
}

proof fn lemma_list_printable(s: Seq<Json>)
    requires
        forall|i: int| 0 <= i < s.len() ==> numbers_printable(#[trigger] s[i]),
    ensures
        printable(json_list_text(s)),
    decreases s, s.len(),
{
    if s.len() == 1 {
        lemma_text_printable(s[0]);
    } else if s.len() > 1 {
        assert forall|i: int| 0 <= i < s.drop_last().len() implies numbers_printable(#[trigger] s.drop_last()[i]) by {
            assert(s.drop_last()[i] == s[i]);
        }
        lemma_list_printable(s.drop_last());
        lemma_text_printable(s.last());
        lemma_printable_concat(json_list_text(s.drop_last()), seq![',']);
        lemma_printable_concat(json_list_text(s.drop_last()) + seq![','], json_text(s.last()));
    }
}

proof fn lemma_members_printable(s: Seq<(Seq<char>, Json)>)
    requires
        forall|i: int| 0 <= i < s.len() ==> numbers_printable(#[trigger] s[i].1),
    ensures
        printable(json_members_text(s)),
    decreases s, s.len(),
{
    if s.len() == 1 {
        lemma_text_printable(s[0].1);
        lemma_quote_printable(s[0].0);
        lemma_printable_concat(json_quote(s[0].0), seq![':']);
        lemma_printable_concat(json_quote(s[0].0) + seq![':'], json_text(s[0].1));
    } else if s.len() > 1 {
        assert forall|i: int| 0 <= i < s.drop_last().len() implies numbers_printable(#[trigger] s.drop_last()[i].1) by {
            assert(s.drop_last()[i] == s[i]);
        }
        lemma_members_printable(s.drop_last());
        lemma_text_printable(s.last().1);
        lemma_quote_printable(s.last().0);
        let a = json_members_text(s.drop_last());
        lemma_printable_concat(a, seq![',']);
        lemma_printable_concat(a + seq![','], json_quote(s.last().0));
        lemma_printable_concat(a + seq![','] + json_quote(s.last().0), seq![':']);
        lemma_printable_concat(a + seq![','] + json_quote(s.last().0) + seq![':'], json_text(s.last().1));
    }
}

/// The compact JSON text of any value whose number literals are printable holds no raw
/// control character: every string and member name in it is written with its control
/// characters escaped.
pub proof fn lemma_json_text_has_no_control_characters(j: Json)
    requires
        numbers_printable(j),
    ensures
        forall|k: int| 0 <= k < json_text(j).len() ==> (#[trigger] json_text(j)[k] as int) >= 0x20,
{
    lemma_text_printable(j);
}

/// The value of the first member named `k` of an object; `None` for other values.
pub open spec fn json_member(j: Json, k: Seq<char>) -> Option<Json> {
    match j {
        Json::Object(members) => member_lookup(members, k),
        _ => None,
    }
}

pub open spec fn member_lookup(s: Seq<(Seq<char>, Json)>, k: Seq<char>) -> Option<Json>
    decreases s.len(),
{
    if s.len() == 0 {
        None
    } else if s[0].0 == k {
        Some(s[0].1)
    } else {
        member_lookup(s.drop_first(), k)
    }
}

pub proof fn lemma_model_items_prefix(s: Seq<JsonValue>, i: int)
    requires
        0 <= i < s.len(),
    ensures
        json_model_items(s.subrange(0, i + 1)) == json_model_items(s.subrange(0, i)).push(
            json_model(s[i]),
        ),
{
    assert(s.subrange(0, i + 1).drop_last() =~= s.subrange(0, i));
}

pub proof fn lemma_model_members_prefix(s: Seq<(String, JsonValue)>, i: int)
    requires
        0 <= i < s.len(),
    ensures
        json_model_members(s.subrange(0, i + 1)) == json_model_members(s.subrange(0, i)).push(
            (s[i].0@, json_model(s[i].1)),
        ),
{
    assert(s.subrange(0, i + 1).drop_last() =~= s.subrange(0, i));
}

pub proof fn lemma_model_items_len(s: Seq<JsonValue>)
    ensures
        json_model_items(s).len() == s.len(),
    decreases s.len(),
{
    if s.len() > 0 {
        lemma_model_items_len(s.drop_last());
    }
}

pub proof fn lemma_model_members_len(s: Seq<(String, JsonValue)>)
    ensures
        json_model_members(s).len() == s.len(),
    decreases s.len(),
{
    if s.len() > 0 {
        lemma_model_members_len(s.drop_last());
    }
}

pub proof fn lemma_model_members_index(s: Seq<(String, JsonValue)>, i: int)
    requires
        0 <= i < s.len(),
    ensures
        json_model_members(s).len() == s.len(),
        json_model_members(s)[i] == (s[i].0@, json_model(s[i].1)),
    decreases s.len(),
{
    lemma_model_members_len(s);
    if i < s.len() - 1 {
        lemma_model_members_index(s.drop_last(), i);
    }
}

/// Appends the JSON escape sequence of `c`.
fn push_escaped_char(out: &mut String, c: char)
    ensures
        final(out)@ == old(out)@ + json_escape_char(c),
{
    if c == '"' {
        push_char(out, '\\');
        push_char(out, '"');
    } else if c == '\\' {
        push_char(out, '\\');
        push_char(out, '\\');
    } else if c == '\n' {
        push_char(out, '\\');
        push_char(out, 'n');
    } else if c == '\r' {
        push_char(out, '\\');
        push_char(out, 'r');
    } else if c == '\t' {
        push_char(out, '\\');
        push_char(out, 't');
    } else if c == '\u{8}' {
        push_char(out, '\\');
        push_char(out, 'b');
    } else if c == '\u{c}' {
        push_char(out, '\\');
        push_char(out, 'f');
    } else if (c as u32) < 0x20 {
        let code: u8 = c as u8;
        push_char(out, '\\');
        push_char(out, 'u');
        push_char(out, '0');
        push_char(out, '0');
        push_char(out, crate::text::hex_digit_char(code / 16));
        push_char(out, crate::text::hex_digit_char(code % 16));
    } else {
        push_char(out, c);
    }
    proof {
        assert(final(out)@ =~= old(out)@ + json_escape_char(c));
    }
}

/// Appends `s` as a JSON string literal.
pub fn push_json_quoted(out: &mut String, s: &str)
    ensures
        final(out)@ == old(out)@ + json_quote(s@),
{
    let ghost start = out@;
    push_char(out, '"');
    let n = s.unicode_len();
    let mut i: usize = 0;
    while i < n
        invariant
            n == s@.len(),
            i <= n,
            out@ == start + seq!['"'] + json_escape(s@.subrange(0, i as int)),
        decreases n - i,
    {
        let c = s.get_char(i);
        push_escaped_char(out, c);
        proof {
            let p = s@.subrange(0, i + 1);
            assert(p.drop_last() =~= s@.subrange(0, i as int));
            assert(p.last() == c);
        }
        i = i + 1;
    }
    push_char(out, '"');
    proof {
        assert(s@.subrange(0, n as int) =~= s@);
        assert(out@ =~= start + json_quote(s@));
    }
}

/// Appends the compact JSON text of `v`.
pub fn write_json(v: &JsonValue, out: &mut String)
    ensures
        final(out)@ == old(out)@ + json_text(v@),
    decreases v,
{
    let ghost start = out@;
    match v {
        JsonValue::Null => {
            out.append("null");
        },
        JsonValue::Bool(b) => {
            if *b {
                out.append("true");
            } else {
                out.append("false");
            }
        },
        JsonValue::Number(n) => {
            out.append(n.as_str());
        },
        JsonValue::String(s) => {
            push_json_quoted(out, s.as_str());
        },
        JsonValue::Array(items) => {
            push_char(out, '[');
            let mut i: usize = 0;
            while i < items.len()
                invariant
                    *v == JsonValue::Array(*items),
                    i <= items@.len(),
                    out@ == start + seq!['['] + json_list_text(
                        json_model_items(items@.subrange(0, i as int)),
                    ),
                decreases items@.len() - i,
            {
                let ghost before = out@;
                let ghost prefix = json_model_items(items@.subrange(0, i as int));
                proof {
                    lemma_model_items_prefix(items@, i as int);
                    lemma_model_items_len(items@.subrange(0, i as int));
                    assert(prefix.push(json_model(items@[i as int])).drop_last() =~= prefix);
                }
                if i > 0 {
                    push_char(out, ',');
                }
                proof {
                    assert(decreases_to!(*v => v->Array_0));
                    assert(decreases_to!(*items => items[i as int]));
                }
                write_json(&items[i], out);
                i = i + 1;
            }
            push_char(out, ']');
            proof {
                assert(items@.subrange(0, items@.len() as int) =~= items@);
                assert(out@ =~= start + json_text(v@));
            }
        },
        JsonValue::Object(members) => {
            push_char(out, '{');
            let mut i: usize = 0;
            while i < members.len()
                invariant
                    *v == JsonValue::Object(*members),
                    i <= members@.len(),
                    out@ == start + seq!['{'] + json_members_text(
                        json_model_members(members@.subrange(0, i as int)),
                    ),
                decreases members@.len() - i,
            {
                let ghost prefix = json_model_members(members@.subrange(0, i as int));
                proof {
                    lemma_model_members_prefix(members@, i as int);
                    lemma_model_members_len(members@.subrange(0, i as int));
                    assert(prefix.push((members@[i as int].0@, json_model(members@[i as int].1))).drop_last() =~= prefix);
                }
                if i > 0 {
                    push_char(out, ',');
                }
                push_json_quoted(out, members[i].0.as_str());
                push_char(out, ':');
                proof {
                    assert(decreases_to!(*v => v->Object_0));
                    assert(decreases_to!(*members => members[i as int]));
                    assert(decreases_to!(members[i as int] => members[i as int].1));
                }
                write_json(&members[i].1, out);
                i = i + 1;
            }
            push_char(out, '}');
            proof {
                assert(members@.subrange(0, members@.len() as int) =~= members@);
                assert(out@ =~= start + json_text(v@));
            }
        },
    }
}

impl JsonValue {
    /// Compact JSON text of this value.
    pub fn to_json_text(&self) -> (r: String)
        ensures
            r@ == json_text(self@),
    {
        let mut r = String::new();
        write_json(self, &mut r);
        r
    }

    /// A copy of this value.
    pub fn copy(&self) -> (r: JsonValue)
        ensures
            r@ == self@,
        decreases self,
    {
        match self {
            JsonValue::Null => JsonValue::Null,
            JsonValue::Bool(b) => JsonValue::Bool(*b),
            JsonValue::Number(n) => JsonValue::Number(n.clone()),
            JsonValue::String(s) => JsonValue::String(s.clone()),
            JsonValue::Array(items) => {
                let mut out: Vec<JsonValue> = Vec::new();
                let mut i: usize = 0;
                while i < items.len()
                    invariant
                        *self == JsonValue::Array(*items),
                        i <= items@.len(),
                        json_model_items(out@) == json_model_items(items@.subrange(0, i as int)),
                    decreases items@.len() - i,
                {
                    proof {
                        assert(decreases_to!(*self => self->Array_0));
                        assert(decreases_to!(*items => items[i as int]));
                    }
                    let c = items[i].copy();
                    proof {
                        lemma_model_items_prefix(items@, i as int);
                        assert(out@.push(c).drop_last() =~= out@);
                    }
                    out.push(c);
                    i = i + 1;
                }
                proof {
                    assert(items@.subrange(0, items@.len() as int) =~= items@);
                }
                JsonValue::Array(out)
            },
            JsonValue::Object(members) => {
                let mut out: Vec<(String, JsonValue)> = Vec::new();
                let mut i: usize = 0;
                while i < members.len()
                    invariant
                        *self == JsonValue::Object(*members),
                        i <= members@.len(),
                        json_model_members(out@) == json_model_members(
                            members@.subrange(0, i as int),
                        ),
                    decreases members@.len() - i,
                {
                    let k = members[i].0.clone();
                    proof {
                        assert(decreases_to!(*self => self->Object_0));
                        assert(decreases_to!(*members => members[i as int]));
                        assert(decreases_to!(members[i as int] => members[i as int].1));
                    }
                    let c = members[i].1.copy();
                    proof {
                        lemma_model_members_prefix(members@, i as int);
                        assert(out@.push((k, c)).drop_last() =~= out@);
                    }
                    out.push((k, c));
                    i = i + 1;
                }
                proof {
                    assert(members@.subrange(0, members@.len() as int) =~= members@);
                }
                JsonValue::Object(out)
            },
        }
    }

    /// Whether this is the JSON `null`.
    pub fn is_null(&self) -> (r: bool)
        ensures
            r == (self@ == Json::Null),
    {
        match self {
            JsonValue::Null => true,
            _ => false,
        }
    }

    /// The first member named `key`, when this is an object.
    pub fn get(&self, key: &str) -> (r: Option<&JsonValue>)
        ensures
            r is None <==> json_member(self@, key@) is None,
            r matches Some(x) ==> json_member(self@, key@) == Some(x@),
    {
        match self {
            JsonValue::Object(members) => {
                let mut i: usize = 0;
                proof {
                    lemma_model_members_len(members@);
                    assert(json_model_members(members@).subrange(0, members@.len() as int)
                        =~= json_model_members(members@));
                }
                while i < members.len()
                    invariant
                        *self == JsonValue::Object(*members),
                        i <= members@.len(),
                        json_model_members(members@).len() == members@.len(),
                        member_lookup(json_model_members(members@), key@) == member_lookup(
                            json_model_members(members@).subrange(i as int, members@.len() as int),
                            key@,
                        ),
                    decreases members@.len() - i,
                {
                    let ghost ms = json_model_members(members@);
                    proof {
                        lemma_model_members_index(members@, i as int);
                        assert(ms.subrange(i as int, ms.len() as int).drop_first() =~= ms.subrange(
                            i + 1,
                            ms.len() as int,
                        ));
                    }
                    if crate::name_map::str_eq(members[i].0.as_str(), key) {
                        proof {
                            assert(ms.subrange(i as int, ms.len() as int)[0] == ms[i as int]);
                        }
                        return Some(&members[i].1);
                    }
                    i = i + 1;
                }
                proof {
                    let ms = json_model_members(members@);
                    assert(ms.subrange(members@.len() as int, ms.len() as int).len() == 0);
                }
                None
            },
            _ => None,
        }
    }
}

} // verus!
