//! Canonical JSON text: objects with their keys in sorted order, no
//! insignificant whitespace, strings escaped as `serde_json` escapes them.
use vstd::prelude::*;
use crate::text::{decimal, push_char, push_decimal, owned};

verus! {

pub open spec fn hex_nibble(n: int) -> char {
    if n < 10 {
        crate::text::digit_char(n as nat)
    } else if n == 10 { 'a' } else if n == 11 { 'b' } else if n == 12 { 'c' } else if n == 13 { 'd' }
    else if n == 14 { 'e' } else { 'f' }
}

/// The escape of one character inside a JSON string.
pub open spec fn escape_char(c: char) -> Seq<char> {
    if c == '"' {
        seq!['\\', '"']
    } else if c == '\\' {
        seq!['\\', '\\']
    } else if c == '\n' {
        seq!['\\', 'n']
    } else if c == '\r' {
        seq!['\\', 'r']
    } else if c == '\t' {
        seq!['\\', 't']
    } else if (c as u32) == 8 {
        seq!['\\', 'b']
    } else if (c as u32) == 12 {
        seq!['\\', 'f']
    } else if (c as u32) < 32 {
        seq!['\\', 'u', '0', '0', hex_nibble((c as u32) as int / 16), hex_nibble((c as u32) as int % 16)]
    } else {
        seq![c]
    }
}

pub open spec fn escape(s: Seq<char>) -> Seq<char>
    decreases s.len(),
{
    if s.len() == 0 {
        seq![]
    } else {
        escape(s.drop_last()) + escape_char(s.last())
    }
}

/// A JSON string literal holding `s`.
pub open spec fn json_string(s: Seq<char>) -> Seq<char> {
    seq!['"'] + escape(s) + seq!['"']
}

/// The items joined with `sep` between neighbours.
pub open spec fn join(items: Seq<Seq<char>>, sep: Seq<char>) -> Seq<char>
    decreases items.len(),
{
    if items.len() == 0 {
        seq![]
    } else if items.len() == 1 {
        items[0]
    } else {
        join(items.drop_last(), sep) + sep + items.last()
    }
}

/// A JSON object from its `"key":value` members, in the given order.
pub open spec fn json_object(members: Seq<Seq<char>>) -> Seq<char> {
    seq!['{'] + join(members, seq![',']) + seq!['}']
}

/// A JSON array from its item texts.
pub open spec fn json_array(items: Seq<Seq<char>>) -> Seq<char> {
    seq!['['] + join(items, seq![',']) + seq![']']
}

/// One object member.
pub open spec fn member(key: Seq<char>, value: Seq<char>) -> Seq<char> {
    json_string(key) + seq![':'] + value
}

/// A member that is present only when the value is.
pub open spec fn opt_member(key: Seq<char>, value: Option<Seq<char>>) -> Seq<Seq<char>> {
    match value {
        Some(v) => seq![member(key, v)],
        None => seq![],
    }
}

pub open spec fn json_bool(b: bool) -> Seq<char> {
    if b { "true"@ } else { "false"@ }
}

pub open spec fn json_number(n: nat) -> Seq<char> {
    decimal(n)
}

pub open spec fn opt_string(s: Option<String>) -> Option<Seq<char>> {
    match s {
        Some(v) => Some(json_string(v@)),
        None => None,
    }
}

/// The JSON array of the strings.
pub open spec fn string_array(items: Seq<String>) -> Seq<char> {
    json_array(items.map_values(|s: String| json_string(s@)))
}

/// A JSON object of string values, members in the entries' order.
pub open spec fn string_map(entries: Seq<(String, String)>) -> Seq<char> {
    json_object(entries.map_values(|e: (String, String)| member(e.0@, json_string(e.1@))))
}

fn push_escaped(out: &mut String, c: char)
    ensures
        final(out)@ == old(out)@ + escape_char(c),
{
    let code = c as u32;
    if c == '"' {
        push_char(out, '\\');
        push_char(out, '"');
    } else if c == '\\' {
        push_char(out, '\\');
        push_char(out, '\\');
    } else if c == '\n' {
        push_char(out, '\\');
        push_char(out, 'n');
    } else if c == '\r' {
        push_char(out, '\\');
        push_char(out, 'r');
    } else if c == '\t' {
        push_char(out, '\\');
        push_char(out, 't');
    } else if code == 8 {
        push_char(out, '\\');
        push_char(out, 'b');
    } else if code == 12 {
        push_char(out, '\\');
        push_char(out, 'f');
    } else if code < 32 {
        push_char(out, '\\');
        push_char(out, 'u');
        push_char(out, '0');
        push_char(out, '0');
        push_char(out, nibble(code / 16));
        push_char(out, nibble(code % 16));
    } else {
        push_char(out, c);
    }
    assert(out@ =~= old(out)@ + escape_char(c));
}

fn nibble(n: u32) -> (c: char)
    requires
        n < 16,
    ensures
        c == hex_nibble(n as int),
{
    if n == 0 { '0' } else if n == 1 { '1' } else if n == 2 { '2' } else if n == 3 { '3' }
    else if n == 4 { '4' } else if n == 5 { '5' } else if n == 6 { '6' } else if n == 7 { '7' }
    else if n == 8 { '8' } else if n == 9 { '9' } else if n == 10 { 'a' } else if n == 11 { 'b' }
    else if n == 12 { 'c' } else if n == 13 { 'd' } else if n == 14 { 'e' } else { 'f' }
}

/// Appends the JSON string literal holding `s`.
pub fn push_json_string(out: &mut String, s: &str)
    ensures
        final(out)@ == old(out)@ + json_string(s@),
{
    let ghost start = out@;
    push_char(out, '"');
    let n = s.unicode_len();
    let mut i: usize = 0;
    proof {
        assert(s@.take(0) =~= Seq::<char>::empty());
        assert(out@ =~= start + seq!['"'] + escape(s@.take(0)));
    }
    while i < n
        invariant
            n == s@.len(),
            i <= n,
            out@ == start + seq!['"'] + escape(s@.take(i as int)),
        decreases n - i,
    {
        let c = s.get_char(i);
        push_escaped(out, c);
        proof {
            let next = s@.take(i + 1);
            assert(next.drop_last() =~= s@.take(i as int));
            assert(next.last() == c);
            assert(out@ =~= start + seq!['"'] + escape(next));
        }
        i = i + 1;
    }
    push_char(out, '"');
    proof {
        assert(s@.take(n as int) =~= s@);
        assert(out@ =~= start + json_string(s@));
    }
}

/// The JSON string literal holding `s`.
pub fn string_value(s: &str) -> (r: String)
    ensures
        r@ == json_string(s@),
{
    let mut r = String::new();
    push_json_string(&mut r, s);
    assert(r@ =~= json_string(s@));
    r
}

pub fn number_value(n: u64) -> (r: String)
    ensures
        r@ == json_number(n as nat),
{
    let mut r = String::new();
    push_decimal(&mut r, n);
    assert(r@ =~= json_number(n as nat));
    r
}

pub fn bool_value(b: bool) -> (r: String)
    ensures
        r@ == json_bool(b),
{
    if b {
        owned("true")
    } else {
        owned("false")
    }
}

/// Joins texts with `sep`.
pub fn join_texts(items: &Vec<String>, sep: char) -> (r: String)
    ensures
        r@ == join(crate::ordering::views(items@), seq![sep]),
{
    let ghost v = crate::ordering::views(items@);
    let mut r = String::new();
    let mut i: usize = 0;
    proof {
        assert(v.take(0) =~= Seq::<Seq<char>>::empty());
    }
    while i < items.len()
        invariant
            i <= items.len(),
            v == crate::ordering::views(items@),
            r@ == join(v.take(i as int), seq![sep]),
        decreases items.len() - i,
    {
        let ghost before = r@;
        if i > 0 {
            push_char(&mut r, sep);
        }
        r.append(items[i].as_str());
        proof {
            let next = v.take(i + 1);
            assert(next.drop_last() =~= v.take(i as int));
            assert(next.last() == items@[i as int]@);
            if i == 0 {
                assert(next.len() == 1);
                assert(r@ =~= next[0]);
            } else {
                assert(r@ =~= join(v.take(i as int), seq![sep]) + seq![sep] + next.last());
            }
        }
        i = i + 1;
    }
    assert(v.take(items.len() as int) =~= v);
    r
}

/// A JSON object from member texts.
pub fn object_value(members: &Vec<String>) -> (r: String)
    ensures
        r@ == json_object(crate::ordering::views(members@)),
{
    let mut r = String::new();
    push_char(&mut r, '{');
    let inner = join_texts(members, ',');
    r.append(inner.as_str());
    push_char(&mut r, '}');
    assert(r@ =~= json_object(crate::ordering::views(members@)));
    r
}

/// A JSON array from item texts.
pub fn array_value(items: &Vec<String>) -> (r: String)
    ensures
        r@ == json_array(crate::ordering::views(items@)),
{
    let mut r = String::new();
    push_char(&mut r, '[');
    let inner = join_texts(items, ',');
    r.append(inner.as_str());
    push_char(&mut r, ']');
    assert(r@ =~= json_array(crate::ordering::views(items@)));
    r
}

/// Appends the member `"key":value` to a member list.
pub fn push_member(members: &mut Vec<String>, key: &str, value: String)
    ensures
        crate::ordering::views(final(members)@) == crate::ordering::views(old(members)@).push(member(key@, value@)),
{
    let mut m = string_value(key);
    push_char(&mut m, ':');
    m.append(value.as_str());
    assert(m@ =~= member(key@, value@));
    members.push(m);
    assert(crate::ordering::views(members@) =~= crate::ordering::views(old(members)@).push(member(key@, value@)));
}

/// Appends a member when its value is present.
pub fn push_opt_member(members: &mut Vec<String>, key: &str, value: Option<String>)
    ensures
        crate::ordering::views(final(members)@) == crate::ordering::views(old(members)@) + opt_member(key@, match value {
            Some(v) => Some(v@),
            None => None,
        }),
{
    match value {
        Some(v) => {
            push_member(members, key, v);
            assert(crate::ordering::views(members@) =~= crate::ordering::views(old(members)@) + opt_member(key@, Some(v@)));
        },
        None => {
            assert(crate::ordering::views(members@) =~= crate::ordering::views(old(members)@) + opt_member(key@, None));
        },
    }
}

/// The JSON string literal of an optional string.
pub fn opt_string_value(s: &Option<String>) -> (r: Option<String>)
    ensures
        match r {
            Some(v) => opt_string(*s) == Some(v@),
            None => opt_string(*s) is None,
        },
{
    match s {
        Some(v) => Some(string_value(v.as_str())),
        None => None,
    }
}

/// The JSON array of strings.
pub fn string_array_value(items: &Vec<String>) -> (r: String)
    ensures
        r@ == string_array(items@),
{
    let mut texts: Vec<String> = Vec::new();
    let mut i: usize = 0;
    while i < items.len()
        invariant
            i <= items.len(),
            crate::ordering::views(texts@) == items@.take(i as int).map_values(|s: String| json_string(s@)),
        decreases items.len() - i,
    {
        let ghost before = crate::ordering::views(texts@);
        let t = string_value(items[i].as_str());
        texts.push(t);
        proof {
            assert(crate::ordering::views(texts@) =~= before.push(json_string(items@[i as int]@)));
            assert(items@.take(i + 1) =~= items@.take(i as int).push(items@[i as int]));
            assert(items@.take(i + 1).map_values(|s: String| json_string(s@)) =~= items@.take(i as int).map_values(
                |s: String| json_string(s@),
            ).push(json_string(items@[i as int]@)));
        }
        i = i + 1;
    }
    assert(items@.take(items.len() as int) =~= items@);
    array_value(&texts)
}

/// The JSON object of string entries, in their order.
pub fn string_map_value(entries: &Vec<(String, String)>) -> (r: String)
    ensures
        r@ == string_map(entries@),
{
    let mut members: Vec<String> = Vec::new();
    let mut i: usize = 0;
    while i < entries.len()
        invariant
            i <= entries.len(),
            crate::ordering::views(members@) == entries@.take(i as int).map_values(|e: (String, String)| member(e.0@, json_string(e.1@))),
        decreases entries.len() - i,
    {
        let ghost before = crate::ordering::views(members@);
        push_member(&mut members, entries[i].0.as_str(), string_value(entries[i].1.as_str()));
        proof {
            assert(entries@.take(i + 1) =~= entries@.take(i as int).push(entries@[i as int]));
            assert(entries@.take(i + 1).map_values(|e: (String, String)| member(e.0@, json_string(e.1@))) =~= entries@.take(i as int).map_values(
                |e: (String, String)| member(e.0@, json_string(e.1@)),
            ).push(member(entries@[i as int].0@, json_string(entries@[i as int].1@))));
        }
        i = i + 1;
    }
    assert(entries@.take(entries.len() as int) =~= entries@);
    object_value(&members)
}

} // verus!
