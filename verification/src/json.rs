use vstd::prelude::*;

use crate::error::ThreadStoreError;
use crate::text::push_char;
use crate::text::text_less;
use crate::text::text_lt;

verus! {

/// A JSON document as the store reads it.
///
/// A number is held as the text that `serde_json` prints for it; an object
/// holds its members in the order in which its map hands them out. The
/// values that come from `serde_json` are well formed (`json_well_formed`):
/// its maps hand members out with distinct keys in increasing order.
#[derive(Debug)]
pub enum JsonValue {
    Null,
    Bool(bool),
    Number(String),
    String(String),
    Array(Vec<JsonValue>),
    Object(Vec<(String, JsonValue)>),
}

impl JsonValue {
    /// Whether the value is a JSON string.
    pub fn is_string(&self) -> (r: bool)
        ensures
            r == (*self is String),
    {
        match self {
            JsonValue::String(_) => true,
            _ => false,
        }
    }
}

/// The lower-case hexadecimal digit of a value below sixteen.
pub open spec fn hex_digit(d: u32) -> char {
    "0123456789abcdef"@[d as int]
}

/// How `serde_json` writes one character inside a string literal: quote
/// and backslash escaped, the named control characters as `\b \t \n \f \r`,
/// the other ASCII control characters as `\u00XX`, every other character
/// as it is.
pub open spec fn json_escape(c: char) -> Seq<char> {
    if c == '"' {
        seq!['\\', '"']
    } else if c == '\\' {
        seq!['\\', '\\']
    } else if c == '\u{8}' {
        seq!['\\', 'b']
    } else if c == '\t' {
        seq!['\\', 't']
    } else if c == '\n' {
        seq!['\\', 'n']
    } else if c == '\u{c}' {
        seq!['\\', 'f']
    } else if c == '\r' {
        seq!['\\', 'r']
    } else if (c as u32) < 0x20 {
        seq!['\\', 'u', '0', '0', hex_digit((c as u32) / 16), hex_digit((c as u32) % 16)]
    } else {
        seq![c]
    }
}

/// The escaped characters of a string, in order.
pub open spec fn json_escaped(s: Seq<char>) -> Seq<char>
    decreases s.len(),
{
    if s.len() == 0 {
        Seq::empty()
    } else {
        json_escaped(s.subrange(0, s.len() - 1)) + json_escape(s[s.len() - 1])
    }
}

/// What `serde_json::to_string` returns for a string: its JSON string
/// literal, the escaped characters between double quotes.
pub open spec fn json_string_literal(s: Seq<char>) -> Seq<char> {
    seq!['"'] + json_escaped(s) + seq!['"']
}

#[verifier::external_type_specification]
#[verifier::external_body]
pub struct ExJsonError(serde_json::Error);

/// Calls `serde_json::to_string` on a string slice. Claimed: the call
/// succeeds, since the serializer writes into a `Vec` and
/// `format_escaped_str` has no failing path there, and the result is the
/// string's JSON literal as `format_escaped_str` writes it.
#[verifier::external_body]
fn quote_json_string(s: &str) -> (r: Result<String, serde_json::Error>)
    ensures
        r is Ok,
        r matches Ok(t) ==> t@ == json_string_literal(s@),
{
    serde_json::to_string(s)
}

/// The error the store reports when JSON encoding fails: an internal error
/// carrying the encoder's message, as its `Display` text gives it.
fn encoding_error(e: serde_json::Error) -> (r: ThreadStoreError)
    ensures
        r matches ThreadStoreError::Internal { message }
            && vstd::string::to_string_from_display_ensures::<serde_json::Error>(&e, message),
{
    ThreadStoreError::Internal { message: e.to_string() }
}

/// The JSON literal of a string, as the store writes it.
pub fn json_quote(s: &str) -> (r: Result<String, ThreadStoreError>)
    ensures
        r matches Ok(t) && t@ == json_string_literal(s@),
{
    match quote_json_string(s) {
        Ok(t) => Ok(t),
        Err(e) => Err(encoding_error(e)),
    }
}

pub open spec fn null_text() -> Seq<char> {
    seq!['n', 'u', 'l', 'l']
}

pub open spec fn bool_text(b: bool) -> Seq<char> {
    if b {
        seq!['t', 'r', 'u', 'e']
    } else {
        seq!['f', 'a', 'l', 's', 'e']
    }
}

/// The text `serde_json::to_string` gives for a value without strings.
pub open spec fn scalar_text(v: JsonValue) -> Seq<char> {
    match v {
        JsonValue::Null => null_text(),
        JsonValue::Bool(b) => bool_text(b),
        JsonValue::Number(t) => t@,
        _ => Seq::empty(),
    }
}

/// The compact JSON text of a value: no white space, members in the
/// object's own order.
pub open spec fn compact_text(v: JsonValue) -> Seq<char>
    decreases v,
{
    match v {
        JsonValue::String(s) => json_string_literal(s@),
        JsonValue::Array(items) => seq!['['] + compact_items(items@) + seq![']'],
        JsonValue::Object(entries) => seq!['{'] + compact_members(entries@) + seq!['}'],
        _ => scalar_text(v),
    }
}

/// The compact texts of the items, separated by commas.
pub open spec fn compact_items(items: Seq<JsonValue>) -> Seq<char>
    decreases items,
{
    if items.len() == 0 {
        Seq::empty()
    } else if items.len() == 1 {
        compact_text(items[0])
    } else {
        compact_items(items.subrange(0, items.len() - 1)) + seq![','] + compact_text(
            items[items.len() - 1],
        )
    }
}

/// The compact texts of the members, `"key":value`, separated by commas.
pub open spec fn compact_members(entries: Seq<(String, JsonValue)>) -> Seq<char>
    decreases entries,
{
    if entries.len() == 0 {
        Seq::empty()
    } else {
        let last = entries[entries.len() - 1];
        let member = json_string_literal(last.0@) + seq![':'] + compact_text(last.1);
        if entries.len() == 1 {
            member
        } else {
            compact_members(entries.subrange(0, entries.len() - 1)) + seq![','] + member
        }
    }
}

/// The `jsonb`-style text of a value: object members stably sorted by key
/// (by code point, as `str::cmp` orders), `", "` between items and `": "`
/// after keys.
pub open spec fn jsonb_text(v: JsonValue) -> Seq<char>
    decreases v,
{
    match v {
        JsonValue::String(s) => json_string_literal(s@),
        JsonValue::Array(items) => seq!['['] + jsonb_items(items@) + seq![']'],
        JsonValue::Object(entries) => seq!['{'] + join_texts(
            pair_texts(sort_pairs(jsonb_member_pairs(entries@))),
        ) + seq!['}'],
        _ => scalar_text(v),
    }
}

/// The `jsonb` texts of the items, separated by `", "`.
pub open spec fn jsonb_items(items: Seq<JsonValue>) -> Seq<char>
    decreases items,
{
    if items.len() == 0 {
        Seq::empty()
    } else if items.len() == 1 {
        jsonb_text(items[0])
    } else {
        jsonb_items(items.subrange(0, items.len() - 1)) + seq![',', ' '] + jsonb_text(
            items[items.len() - 1],
        )
    }
}

/// Each member as its key and its `jsonb` text `"key": value`, in the
/// object's own order.
pub open spec fn jsonb_member_pairs(entries: Seq<(String, JsonValue)>) -> Seq<
    (Seq<char>, Seq<char>),
>
    decreases entries,
{
    if entries.len() == 0 {
        Seq::empty()
    } else {
        let last = entries[entries.len() - 1];
        jsonb_member_pairs(entries.subrange(0, entries.len() - 1)).push(
            (last.0@, json_string_literal(last.0@) + seq![':', ' '] + jsonb_text(last.1)),
        )
    }
}

/// Inserts `e` into `s` after every element whose key does not order after
/// `e`'s key (one step of a stable insertion sort).
pub open spec fn insert_pair(s: Seq<(Seq<char>, Seq<char>)>, e: (Seq<char>, Seq<char>)) -> Seq<
    (Seq<char>, Seq<char>),
>
    decreases s.len(),
{
    if s.len() == 0 {
        seq![e]
    } else if text_lt(e.0, s[s.len() - 1].0) {
        insert_pair(s.subrange(0, s.len() - 1), e).push(s[s.len() - 1])
    } else {
        s.push(e)
    }
}

/// The pairs stably sorted by key, as `slice::sort_by` with `str::cmp`
/// orders them.
pub open spec fn sort_pairs(s: Seq<(Seq<char>, Seq<char>)>) -> Seq<(Seq<char>, Seq<char>)>
    decreases s.len(),
{
    if s.len() == 0 {
        s
    } else {
        insert_pair(sort_pairs(s.subrange(0, s.len() - 1)), s[s.len() - 1])
    }
}

pub open spec fn pair_texts(s: Seq<(Seq<char>, Seq<char>)>) -> Seq<Seq<char>> {
    s.map_values(|p: (Seq<char>, Seq<char>)| p.1)
}

/// The texts separated by `", "`.
pub open spec fn join_texts(parts: Seq<Seq<char>>) -> Seq<char>
    decreases parts.len(),
{
    if parts.len() == 0 {
        Seq::empty()
    } else if parts.len() == 1 {
        parts[0]
    } else {
        join_texts(parts.subrange(0, parts.len() - 1)) + seq![',', ' '] + parts[parts.len() - 1]
    }
}

/// The key under which a JSON value is stored: a string as it is, any other
/// value as its compact JSON text.
pub open spec fn value_key(v: JsonValue) -> Seq<char> {
    match v {
        JsonValue::String(s) => s@,
        _ => compact_text(v),
    }
}

fn push_str_text(out: &mut String, s: &str)
    ensures
        final(out)@ == old(out)@ + s@,
{
    out.append(s);
}

fn push_scalar(v: &JsonValue, out: &mut String)
    requires
        !(v is String || v is Array || v is Object),
    ensures
        final(out)@ == old(out)@ + scalar_text(*v),
{
    match v {
        JsonValue::Null => {
            push_char(out, 'n');
            push_char(out, 'u');
            push_char(out, 'l');
            push_char(out, 'l');
        },
        JsonValue::Bool(b) => {
            if *b {
                push_char(out, 't');
                push_char(out, 'r');
                push_char(out, 'u');
                push_char(out, 'e');
            } else {
                push_char(out, 'f');
                push_char(out, 'a');
                push_char(out, 'l');
                push_char(out, 's');
                push_char(out, 'e');
            }
        },
        JsonValue::Number(t) => {
            push_str_text(out, t.as_str());
        },
        _ => {},
    }
    assert(final(out)@ =~= old(out)@ + scalar_text(*v));
}

/// Appends the compact JSON text of `v` to `out`.
fn write_compact(v: &JsonValue, out: &mut String) -> (r: Result<(), ThreadStoreError>)
    ensures
        r is Ok,
        final(out)@ == old(out)@ + compact_text(*v),
    decreases v,
{
    match v {
        JsonValue::String(s) => {
            let q = json_quote(s.as_str())?;
            push_str_text(out, q.as_str());
            Ok(())
        },
        JsonValue::Array(items) => {
            let ghost start = out@;
            push_char(out, '[');
            let n = items.len();
            let mut i: usize = 0;
            while i < n
                invariant
                    n == items@.len(),
                    *v == JsonValue::Array(*items),
                    i <= n,
                    out@ == start + seq!['['] + compact_items(items@.subrange(0, i as int)),
                decreases n - i,
            {
                if i > 0 {
                    push_char(out, ',');
                }
                proof {
                    assert(decreases_to!(*v => (*v)->Array_0));
                    assert(decreases_to!(*items => items@));
                    assert(decreases_to!(items@ => items@[i as int]));
                }
                write_compact(&items[i], out)?;
                proof {
                    let pre = items@.subrange(0, i as int);
                    let cur = items@.subrange(0, i + 1);
                    assert(cur.subrange(0, cur.len() - 1) =~= pre);
                    assert(cur[cur.len() - 1] == items@[i as int]);
                    assert(out@ =~= start + seq!['['] + compact_items(cur));
                }
                i = i + 1;
            }
            assert(items@.subrange(0, n as int) =~= items@);
            push_char(out, ']');
            assert(out@ =~= start + compact_text(*v));
            Ok(())
        },
        JsonValue::Object(entries) => {
            let ghost start = out@;
            push_char(out, '{');
            let n = entries.len();
            let mut i: usize = 0;
            while i < n
                invariant
                    n == entries@.len(),
                    *v == JsonValue::Object(*entries),
                    i <= n,
                    out@ == start + seq!['{'] + compact_members(entries@.subrange(0, i as int)),
                decreases n - i,
            {
                if i > 0 {
                    push_char(out, ',');
                }
                let key = json_quote(entries[i].0.as_str())?;
                push_str_text(out, key.as_str());
                push_char(out, ':');
                proof {
                    assert(decreases_to!(*v => (*v)->Object_0));
                    assert(decreases_to!(*entries => entries@));
                    assert(decreases_to!(entries@ => entries@[i as int]));
                    assert(decreases_to!(entries@[i as int] => entries@[i as int].1));
                }
                write_compact(&entries[i].1, out)?;
                proof {
                    let pre = entries@.subrange(0, i as int);
                    let cur = entries@.subrange(0, i + 1);
                    assert(cur.subrange(0, cur.len() - 1) =~= pre);
                    assert(cur[cur.len() - 1] == entries@[i as int]);
                    assert(out@ =~= start + seq!['{'] + compact_members(cur));
                }
                i = i + 1;
            }
            assert(entries@.subrange(0, n as int) =~= entries@);
            push_char(out, '}');
            assert(out@ =~= start + compact_text(*v));
            Ok(())
        },
        _ => {
            push_scalar(v, out);
            Ok(())
        },
    }
}

/// The compact JSON text of a value, members in the order the object holds
/// them; for a well-formed value this is what `serde_json::to_string`
/// writes.
pub fn compact_json(v: &JsonValue) -> (r: Result<String, ThreadStoreError>)
    ensures
        r matches Ok(t) && t@ == compact_text(*v),
{
    let mut out = String::new();
    write_compact(v, &mut out)?;
    assert(out@ =~= compact_text(*v));
    Ok(out)
}

/// The key under which a JSON value is stored: a string as it is, any other
/// value as its compact JSON text.
pub fn session_source_key_from_value(value: &JsonValue) -> (r: Result<String, ThreadStoreError>)
    ensures
        r matches Ok(t) && t@ == value_key(*value),
{
    match value {
        JsonValue::String(s) => Ok(s.clone()),
        _ => compact_json(value),
    }
}


pub open spec fn pair_views(s: Seq<(String, String)>) -> Seq<(Seq<char>, Seq<char>)> {
    s.map_values(|p: (String, String)| (p.0@, p.1@))
}

proof fn lemma_insert_pair_at(s: Seq<(Seq<char>, Seq<char>)>, e: (Seq<char>, Seq<char>), p: int)
    requires
        0 <= p <= s.len(),
        forall|j: int| p <= j < s.len() ==> text_lt(e.0, #[trigger] s[j].0),
        p == 0 || !text_lt(e.0, s[p - 1].0),
    ensures
        insert_pair(s, e) == s.subrange(0, p).push(e) + s.subrange(p, s.len() as int),
    decreases s.len(),
{
    if s.len() == 0 {
        assert(insert_pair(s, e) =~= s.subrange(0, p).push(e) + s.subrange(p, s.len() as int));
    } else if p == s.len() {
        assert(insert_pair(s, e) =~= s.subrange(0, p).push(e) + s.subrange(p, s.len() as int));
    } else {
        let init = s.subrange(0, s.len() - 1);
        assert(text_lt(e.0, s[s.len() - 1].0));
        assert forall|j: int| p <= j < init.len() implies text_lt(e.0, #[trigger] init[j].0) by {
            assert(init[j] == s[j]);
        }
        if p > 0 {
            assert(init[p - 1] == s[p - 1]);
        }
        lemma_insert_pair_at(init, e, p);
        assert(insert_pair(s, e) =~= s.subrange(0, p).push(e) + s.subrange(p, s.len() as int));
    }
}

/// The member pairs stably sorted by key.
fn sort_member_pairs(pairs: &Vec<(String, String)>) -> (r: Vec<(String, String)>)
    ensures
        pair_views(r@) == sort_pairs(pair_views(pairs@)),
{
    let mut sorted: Vec<(String, String)> = Vec::new();
    let n = pairs.len();
    let mut i: usize = 0;
    assert(pair_views(sorted@) =~= sort_pairs(pair_views(pairs@).subrange(0, 0)));
    while i < n
        invariant
            n == pairs@.len(),
            i <= n,
            pair_views(sorted@) == sort_pairs(pair_views(pairs@).subrange(0, i as int)),
        decreases n - i,
    {
        let key = pairs[i].0.clone();
        let text = pairs[i].1.clone();
        let mut p = sorted.len();
        loop
            invariant
                p <= sorted@.len(),
                forall|j: int| p <= j < sorted@.len() ==> text_lt(key@, #[trigger] sorted@[j].0@),
            ensures
                p <= sorted@.len(),
                forall|j: int| p <= j < sorted@.len() ==> text_lt(key@, #[trigger] sorted@[j].0@),
                p == 0 || !text_lt(key@, sorted@[p - 1].0@),
            decreases p,
        {
            if p == 0 {
                break;
            }
            if !text_less(key.as_str(), sorted[p - 1].0.as_str()) {
                break;
            }
            p = p - 1;
        }
        let ghost old_views = pair_views(sorted@);
        let ghost e = (key@, text@);
        proof {
            assert forall|j: int| p <= j < old_views.len() implies text_lt(
                e.0,
                #[trigger] old_views[j].0,
            ) by {
                assert(old_views[j] == (sorted@[j].0@, sorted@[j].1@));
            }
            if p > 0 {
                assert(old_views[p - 1] == (sorted@[p - 1].0@, sorted@[p - 1].1@));
            }
            lemma_insert_pair_at(old_views, e, p as int);
        }
        sorted.insert(p, (key, text));
        proof {
            let pv = pair_views(pairs@);
            assert(pv[i as int] == (pairs@[i as int].0@, pairs@[i as int].1@));
            assert(pv.subrange(0, i + 1).subrange(0, i as int) =~= pv.subrange(0, i as int));
            assert(pv.subrange(0, i + 1)[i as int] == pv[i as int]);
            assert(pair_views(sorted@) =~= old_views.subrange(0, p as int).push(e)
                + old_views.subrange(p as int, old_views.len() as int));
        }
        i = i + 1;
    }
    assert(pair_views(pairs@).subrange(0, n as int) =~= pair_views(pairs@));
    sorted
}

/// Appends the texts of the pairs, separated by `", "`.
fn push_joined(pairs: &Vec<(String, String)>, out: &mut String)
    ensures
        final(out)@ == old(out)@ + join_texts(pair_texts(pair_views(pairs@))),
{
    let ghost start = out@;
    let ghost texts = pair_texts(pair_views(pairs@));
    let n = pairs.len();
    let mut i: usize = 0;
    assert(texts.subrange(0, 0) =~= Seq::<Seq<char>>::empty());
    while i < n
        invariant
            n == pairs@.len(),
            texts == pair_texts(pair_views(pairs@)),
            texts.len() == n,
            i <= n,
            out@ == start + join_texts(texts.subrange(0, i as int)),
        decreases n - i,
    {
        if i > 0 {
            push_char(out, ',');
            push_char(out, ' ');
        }
        push_str_text(out, pairs[i].1.as_str());
        proof {
            let cur = texts.subrange(0, i + 1);
            assert(cur.subrange(0, cur.len() - 1) =~= texts.subrange(0, i as int));
            assert(cur[cur.len() - 1] == pairs@[i as int].1@);
            assert(out@ =~= start + join_texts(cur));
        }
        i = i + 1;
    }
    assert(texts.subrange(0, n as int) =~= texts);
}

/// Appends the `jsonb` text of `v` to `out`.
fn write_jsonb(v: &JsonValue, out: &mut String) -> (r: Result<(), ThreadStoreError>)
    ensures
        r is Ok,
        final(out)@ == old(out)@ + jsonb_text(*v),
    decreases v,
{
    match v {
        JsonValue::String(s) => {
            let q = json_quote(s.as_str())?;
            push_str_text(out, q.as_str());
            Ok(())
        },
        JsonValue::Array(items) => {
            let ghost start = out@;
            push_char(out, '[');
            let n = items.len();
            let mut i: usize = 0;
            while i < n
                invariant
                    n == items@.len(),
                    *v == JsonValue::Array(*items),
                    i <= n,
                    out@ == start + seq!['['] + jsonb_items(items@.subrange(0, i as int)),
                decreases n - i,
            {
                if i > 0 {
                    push_char(out, ',');
                    push_char(out, ' ');
                }
                proof {
                    assert(decreases_to!(*v => (*v)->Array_0));
                    assert(decreases_to!(*items => items@));
                    assert(decreases_to!(items@ => items@[i as int]));
                }
                write_jsonb(&items[i], out)?;
                proof {
                    let pre = items@.subrange(0, i as int);
                    let cur = items@.subrange(0, i + 1);
                    assert(cur.subrange(0, cur.len() - 1) =~= pre);
                    assert(cur[cur.len() - 1] == items@[i as int]);
                    assert(out@ =~= start + seq!['['] + jsonb_items(cur));
                }
                i = i + 1;
            }
            assert(items@.subrange(0, n as int) =~= items@);
            push_char(out, ']');
            assert(out@ =~= start + jsonb_text(*v));
            Ok(())
        },
        JsonValue::Object(entries) => {
            let ghost start = out@;
            let n = entries.len();
            let mut pairs: Vec<(String, String)> = Vec::new();
            let mut i: usize = 0;
            while i < n
                invariant
                    n == entries@.len(),
                    *v == JsonValue::Object(*entries),
                    i <= n,
                    pair_views(pairs@) == jsonb_member_pairs(entries@.subrange(0, i as int)),
                decreases n - i,
            {
                let mut member = json_quote(entries[i].0.as_str())?;
                push_char(&mut member, ':');
                push_char(&mut member, ' ');
                proof {
                    assert(decreases_to!(*v => (*v)->Object_0));
                    assert(decreases_to!(*entries => entries@));
                    assert(decreases_to!(entries@ => entries@[i as int]));
                    assert(decreases_to!(entries@[i as int] => entries@[i as int].1));
                }
                write_jsonb(&entries[i].1, &mut member)?;
                assert(member@ =~= json_string_literal(entries@[i as int].0@) + seq![':', ' ']
                    + jsonb_text(entries@[i as int].1));
                let key = entries[i].0.clone();
                let ghost old_views = pair_views(pairs@);
                pairs.push((key, member));
                proof {
                    let pre = entries@.subrange(0, i as int);
                    let cur = entries@.subrange(0, i + 1);
                    assert(cur.subrange(0, cur.len() - 1) =~= pre);
                    assert(cur[cur.len() - 1] == entries@[i as int]);
                    assert(pair_views(pairs@) =~= old_views.push(
                        (entries@[i as int].0@, member@),
                    ));
                    assert(pair_views(pairs@) =~= jsonb_member_pairs(cur));
                }
                i = i + 1;
            }
            assert(entries@.subrange(0, n as int) =~= entries@);
            let sorted = sort_member_pairs(&pairs);
            push_char(out, '{');
            push_joined(&sorted, out);
            push_char(out, '}');
            assert(out@ =~= start + jsonb_text(*v));
            Ok(())
        },
        _ => {
            push_scalar(v, out);
            Ok(())
        },
    }
}

/// The `jsonb`-style text of a value, which is how sources written by older
/// versions of the store were recorded: members sorted by key, `", "` and
/// `": "` as separators.
pub fn postgres_jsonb_compat_key(value: &JsonValue) -> (r: Result<String, ThreadStoreError>)
    ensures
        r matches Ok(t) && t@ == jsonb_text(*value),
{
    let mut out = String::new();
    write_jsonb(value, &mut out)?;
    assert(out@ =~= jsonb_text(*value));
    Ok(out)
}


/// The pairs are in non-decreasing key order.
pub open spec fn keys_sorted(s: Seq<(Seq<char>, Seq<char>)>) -> bool {
    forall|i: int, j: int| 0 <= i < j < s.len() ==> !text_lt(#[trigger] s[j].0, #[trigger] s[i].0)
}

proof fn lemma_text_lt_asymmetric(a: Seq<char>, b: Seq<char>)
    ensures
        !(text_lt(a, b) && text_lt(b, a)),
    decreases a.len(),
{
    if a.len() > 0 && b.len() > 0 && a[0] == b[0] {
        lemma_text_lt_asymmetric(a.drop_first(), b.drop_first());
    }
}

proof fn lemma_text_lt_total(a: Seq<char>, b: Seq<char>)
    ensures
        a == b || text_lt(a, b) || text_lt(b, a),
    decreases a.len(),
{
    if a.len() > 0 && b.len() > 0 {
        if a[0] == b[0] {
            lemma_text_lt_total(a.drop_first(), b.drop_first());
            if a.drop_first() == b.drop_first() {
                assert(a =~= seq![a[0]] + a.drop_first());
                assert(b =~= seq![b[0]] + b.drop_first());
            }
        } else {
            assert((a[0] as int) != (b[0] as int));
        }
    } else if a.len() == 0 && b.len() == 0 {
        assert(a =~= b);
    }
}

proof fn lemma_text_lt_transitive(a: Seq<char>, b: Seq<char>, c: Seq<char>)
    requires
        text_lt(a, b),
        text_lt(b, c),
    ensures
        text_lt(a, c),
    decreases a.len(),
{
    if a.len() > 0 && b.len() > 0 && c.len() > 0 && a[0] == b[0] && b[0] == c[0] {
        lemma_text_lt_transitive(a.drop_first(), b.drop_first(), c.drop_first());
    }
}

proof fn lemma_insert_pair_sorted(s: Seq<(Seq<char>, Seq<char>)>, e: (Seq<char>, Seq<char>))
    requires
        keys_sorted(s),
    ensures
        keys_sorted(insert_pair(s, e)),
        insert_pair(s, e).len() == s.len() + 1,
    decreases s.len(),
{
    let r = insert_pair(s, e);
    if s.len() == 0 {
    } else if text_lt(e.0, s[s.len() - 1].0) {
        let init = s.subrange(0, s.len() - 1);
        let last = s[s.len() - 1];
        assert(keys_sorted(init)) by {
            assert forall|i: int, j: int| 0 <= i < j < init.len() implies !text_lt(
                #[trigger] init[j].0,
                #[trigger] init[i].0,
            ) by {
                assert(init[i] == s[i] && init[j] == s[j]);
            }
        }
        lemma_insert_pair_sorted(init, e);
        let mid = insert_pair(init, e);
        assert(r == mid.push(last));
        assert forall|i: int, j: int| 0 <= i < j < r.len() implies !text_lt(
            #[trigger] r[j].0,
            #[trigger] r[i].0,
        ) by {
            if j == r.len() - 1 {
                assert(r[j] == last);
                let x = r[i];
                assert(x == mid[i]);
                if x == e {
                    lemma_text_lt_asymmetric(e.0, last.0);
                } else {
                    assert(mid.contains(x));
                    lemma_insert_pair_members(init, e, i);
                    let k = choose|k: int| 0 <= k < init.len() && init[k] == x;
                    assert(init[k] == s[k]);
                    assert(!text_lt(s[s.len() - 1].0, s[k].0));
                }
            } else {
                assert(r[i] == mid[i] && r[j] == mid[j]);
            }
        }
    } else {
        assert forall|i: int, j: int| 0 <= i < j < r.len() implies !text_lt(
            #[trigger] r[j].0,
            #[trigger] r[i].0,
        ) by {
            if j == r.len() - 1 {
                assert(r[j] == e);
                assert(r[i] == s[i]);
                let last = s[s.len() - 1];
                if text_lt(e.0, s[i].0) {
                    if i < s.len() - 1 {
                        assert(!text_lt(last.0, s[i].0));
                        lemma_text_lt_total(last.0, s[i].0);
                        if last.0 != s[i].0 {
                            lemma_text_lt_transitive(e.0, s[i].0, last.0);
                        }
                    }
                }
            } else {
                assert(r[i] == s[i] && r[j] == s[j]);
            }
        }
    }
}

proof fn lemma_insert_pair_members(
    s: Seq<(Seq<char>, Seq<char>)>,
    e: (Seq<char>, Seq<char>),
    i: int,
)
    requires
        0 <= i < insert_pair(s, e).len(),
        insert_pair(s, e).len() == s.len() + 1,
        insert_pair(s, e)[i] != e,
    ensures
        exists|k: int| 0 <= k < s.len() && s[k] == insert_pair(s, e)[i],
    decreases s.len(),
{
    let r = insert_pair(s, e);
    if s.len() == 0 {
    } else if text_lt(e.0, s[s.len() - 1].0) {
        let init = s.subrange(0, s.len() - 1);
        let mid = insert_pair(init, e);
        lemma_insert_pair_len(init, e);
        if i == r.len() - 1 {
            assert(r[i] == s[s.len() - 1]);
        } else {
            assert(r[i] == mid[i]);
            lemma_insert_pair_members(init, e, i);
            let k = choose|k: int| 0 <= k < init.len() && init[k] == mid[i];
            assert(s[k] == init[k]);
        }
    } else {
        assert(r[i] == s[i]);
    }
}

proof fn lemma_insert_pair_len(s: Seq<(Seq<char>, Seq<char>)>, e: (Seq<char>, Seq<char>))
    ensures
        insert_pair(s, e).len() == s.len() + 1,
    decreases s.len(),
{
    if s.len() > 0 && text_lt(e.0, s[s.len() - 1].0) {
        lemma_insert_pair_len(s.subrange(0, s.len() - 1), e);
    }
}

/// The members of a `jsonb` text come in key order: sorting the member
/// pairs yields them ordered by key, none lost.
pub proof fn lemma_sort_pairs_sorted(s: Seq<(Seq<char>, Seq<char>)>)
    ensures
        keys_sorted(sort_pairs(s)),
        sort_pairs(s).len() == s.len(),
    decreases s.len(),
{
    if s.len() > 0 {
        let init = s.subrange(0, s.len() - 1);
        lemma_sort_pairs_sorted(init);
        lemma_insert_pair_sorted(sort_pairs(init), s[s.len() - 1]);
    }
}


/// Every object in the value holds its members with strictly increasing
/// keys, as a `serde_json` map hands them out.
pub open spec fn json_well_formed(v: JsonValue) -> bool
    decreases v,
{
    match v {
        JsonValue::Array(items) => items_well_formed(items@),
        JsonValue::Object(entries) => members_strictly_sorted(entries@) && members_well_formed(
            entries@,
        ),
        _ => true,
    }
}

/// Every item is well formed.
pub open spec fn items_well_formed(items: Seq<JsonValue>) -> bool
    decreases items,
{
    if items.len() == 0 {
        true
    } else {
        items_well_formed(items.subrange(0, items.len() - 1)) && json_well_formed(
            items[items.len() - 1],
        )
    }
}

/// Every member's value is well formed.
pub open spec fn members_well_formed(entries: Seq<(String, JsonValue)>) -> bool
    decreases entries,
{
    if entries.len() == 0 {
        true
    } else {
        members_well_formed(entries.subrange(0, entries.len() - 1)) && json_well_formed(
            entries[entries.len() - 1].1,
        )
    }
}

/// The members' keys strictly increase.
pub open spec fn members_strictly_sorted(entries: Seq<(String, JsonValue)>) -> bool {
    forall|i: int, j: int|
        0 <= i < j < entries.len() ==> text_lt(#[trigger] entries[i].0@, #[trigger] entries[j].0@)
}

/// No two members share a key.
pub open spec fn members_have_distinct_keys(entries: Seq<(String, JsonValue)>) -> bool {
    forall|i: int, j: int|
        0 <= i < entries.len() && 0 <= j < entries.len() && i != j ==> #[trigger] entries[i].0@
            != #[trigger] entries[j].0@
}

/// The pair of a member as the `jsonb` text lists it.
pub open spec fn jsonb_member_pair(e: (String, JsonValue)) -> (Seq<char>, Seq<char>) {
    (e.0@, json_string_literal(e.0@) + seq![':', ' '] + jsonb_text(e.1))
}

proof fn lemma_member_pairs_shape(entries: Seq<(String, JsonValue)>)
    ensures
        jsonb_member_pairs(entries).len() == entries.len(),
        forall|i: int|
            0 <= i < entries.len() ==> #[trigger] jsonb_member_pairs(entries)[i]
                == jsonb_member_pair(entries[i]),
    decreases entries.len(),
{
    if entries.len() > 0 {
        let init = entries.subrange(0, entries.len() - 1);
        lemma_member_pairs_shape(init);
        assert forall|i: int| 0 <= i < entries.len() implies #[trigger] jsonb_member_pairs(
            entries,
        )[i] == jsonb_member_pair(entries[i]) by {
            if i < entries.len() - 1 {
                assert(init[i] == entries[i]);
            }
        }
    }
}

proof fn lemma_text_lt_irreflexive(a: Seq<char>)
    ensures
        !text_lt(a, a),
{
    lemma_text_lt_asymmetric(a, a);
}

/// The pairs' keys strictly increase.
pub open spec fn keys_strictly_sorted(s: Seq<(Seq<char>, Seq<char>)>) -> bool {
    forall|i: int, j: int| 0 <= i < j < s.len() ==> text_lt(#[trigger] s[i].0, #[trigger] s[j].0)
}

/// No two pairs share a key.
pub open spec fn keys_distinct(s: Seq<(Seq<char>, Seq<char>)>) -> bool {
    forall|i: int, j: int|
        0 <= i < s.len() && 0 <= j < s.len() && i != j ==> #[trigger] s[i].0 != #[trigger] s[j].0
}

proof fn lemma_sorted_pairs_stay(s: Seq<(Seq<char>, Seq<char>)>)
    requires
        keys_strictly_sorted(s),
    ensures
        sort_pairs(s) == s,
    decreases s.len(),
{
    if s.len() > 0 {
        let init = s.subrange(0, s.len() - 1);
        assert(keys_strictly_sorted(init)) by {
            assert forall|i: int, j: int| 0 <= i < j < init.len() implies text_lt(
                #[trigger] init[i].0,
                #[trigger] init[j].0,
            ) by {
                assert(init[i] == s[i] && init[j] == s[j]);
            }
        }
        lemma_sorted_pairs_stay(init);
        let e = s[s.len() - 1];
        if init.len() > 0 {
            assert(text_lt(init[init.len() - 1].0, e.0));
            lemma_text_lt_asymmetric(init[init.len() - 1].0, e.0);
        }
        assert(insert_pair(init, e) == init.push(e));
        assert(init.push(e) =~= s);
    }
}

/// A well-formed object's members already come in key order, so its
/// `jsonb`-style text lists them in the order the object holds them.
pub proof fn lemma_well_formed_members_keep_their_order(v: JsonValue)
    requires
        json_well_formed(v),
        v is Object,
    ensures
        sort_pairs(jsonb_member_pairs(v->Object_0@)) == jsonb_member_pairs(v->Object_0@),
{
    let entries = v->Object_0@;
    lemma_member_pairs_shape(entries);
    let p = jsonb_member_pairs(entries);
    assert forall|i: int, j: int| 0 <= i < j < p.len() implies text_lt(
        #[trigger] p[i].0,
        #[trigger] p[j].0,
    ) by {
        assert(p[i] == jsonb_member_pair(entries[i]));
        assert(p[j] == jsonb_member_pair(entries[j]));
    }
    lemma_sorted_pairs_stay(p);
}

proof fn lemma_insert_pair_contains(
    s: Seq<(Seq<char>, Seq<char>)>,
    e: (Seq<char>, Seq<char>),
    x: (Seq<char>, Seq<char>),
)
    ensures
        insert_pair(s, e).contains(x) <==> (s.contains(x) || x == e),
    decreases s.len(),
{
    let r = insert_pair(s, e);
    if s.len() == 0 {
        if x == e {
            assert(r[0] == e);
        }
    } else if text_lt(e.0, s[s.len() - 1].0) {
        let init = s.subrange(0, s.len() - 1);
        let last = s[s.len() - 1];
        lemma_insert_pair_contains(init, e, x);
        let mid = insert_pair(init, e);
        assert(r == mid.push(last));
        if r.contains(x) {
            let k = choose|k: int| 0 <= k < r.len() && r[k] == x;
            if k < mid.len() {
                assert(mid[k] == x);
                if init.contains(x) {
                    let m = choose|m: int| 0 <= m < init.len() && init[m] == x;
                    assert(s[m] == x);
                }
            } else {
                assert(s[s.len() - 1] == x);
            }
        }
        if s.contains(x) {
            let k = choose|k: int| 0 <= k < s.len() && s[k] == x;
            if k < s.len() - 1 {
                assert(init[k] == x);
                let m = choose|m: int| 0 <= m < mid.len() && mid[m] == x;
                assert(r[m] == x);
            } else {
                assert(r[r.len() - 1] == x);
            }
        }
        if x == e {
            let m = choose|m: int| 0 <= m < mid.len() && mid[m] == x;
            assert(r[m] == x);
        }
    } else {
        assert(r == s.push(e));
        if r.contains(x) {
            let k = choose|k: int| 0 <= k < r.len() && r[k] == x;
            if k < s.len() {
                assert(s[k] == x);
            }
        }
        if s.contains(x) {
            let k = choose|k: int| 0 <= k < s.len() && s[k] == x;
            assert(r[k] == x);
        }
        if x == e {
            assert(r[s.len() as int] == x);
        }
    }
}

proof fn lemma_sort_pairs_contains(s: Seq<(Seq<char>, Seq<char>)>, x: (Seq<char>, Seq<char>))
    ensures
        sort_pairs(s).contains(x) <==> s.contains(x),
    decreases s.len(),
{
    if s.len() > 0 {
        let init = s.subrange(0, s.len() - 1);
        let e = s[s.len() - 1];
        lemma_sort_pairs_contains(init, x);
        lemma_insert_pair_contains(sort_pairs(init), e, x);
        if s.contains(x) && x != e {
            let k = choose|k: int| 0 <= k < s.len() && s[k] == x;
            assert(init[k] == x);
        }
        if init.contains(x) {
            let k = choose|k: int| 0 <= k < init.len() && init[k] == x;
            assert(s[k] == x);
        }
        if x == e {
            assert(s[s.len() - 1] == x);
        }
    }
}

proof fn lemma_insert_pair_distinct(s: Seq<(Seq<char>, Seq<char>)>, e: (Seq<char>, Seq<char>))
    requires
        keys_distinct(s),
        forall|k: int| 0 <= k < s.len() ==> #[trigger] s[k].0 != e.0,
    ensures
        keys_distinct(insert_pair(s, e)),
    decreases s.len(),
{
    let r = insert_pair(s, e);
    lemma_insert_pair_len(s, e);
    if s.len() == 0 {
    } else if text_lt(e.0, s[s.len() - 1].0) {
        let init = s.subrange(0, s.len() - 1);
        let last = s[s.len() - 1];
        assert(keys_distinct(init)) by {
            assert forall|i: int, j: int|
                0 <= i < init.len() && 0 <= j < init.len() && i != j implies #[trigger] init[i].0
                != #[trigger] init[j].0 by {
                assert(init[i] == s[i] && init[j] == s[j]);
            }
        }
        assert forall|k: int| 0 <= k < init.len() implies #[trigger] init[k].0 != e.0 by {
            assert(init[k] == s[k]);
        }
        lemma_insert_pair_distinct(init, e);
        let mid = insert_pair(init, e);
        lemma_insert_pair_len(init, e);
        assert(r == mid.push(last));
        assert forall|i: int, j: int|
            0 <= i < r.len() && 0 <= j < r.len() && i != j implies #[trigger] r[i].0
            != #[trigger] r[j].0 by {
            if i < mid.len() && j < mid.len() {
                assert(r[i] == mid[i] && r[j] == mid[j]);
            } else {
                let k = if i < mid.len() {
                    i
                } else {
                    j
                };
                assert(r[k] == mid[k]);
                let x = mid[k];
                assert(mid.contains(x));
                lemma_insert_pair_contains(init, e, x);
                if x != e {
                    let m = choose|m: int| 0 <= m < init.len() && init[m] == x;
                    assert(s[m] == x);
                    assert(s[s.len() - 1] == last);
                }
            }
        }
    } else {
        assert(r == s.push(e));
        assert forall|i: int, j: int|
            0 <= i < r.len() && 0 <= j < r.len() && i != j implies #[trigger] r[i].0
            != #[trigger] r[j].0 by {
            if i < s.len() && j < s.len() {
                assert(r[i] == s[i] && r[j] == s[j]);
            } else if i < s.len() {
                assert(r[i] == s[i]);
            } else {
                assert(r[j] == s[j]);
            }
        }
    }
}

proof fn lemma_sort_pairs_distinct(s: Seq<(Seq<char>, Seq<char>)>)
    requires
        keys_distinct(s),
    ensures
        keys_distinct(sort_pairs(s)),
    decreases s.len(),
{
    if s.len() > 0 {
        let init = s.subrange(0, s.len() - 1);
        let e = s[s.len() - 1];
        assert(keys_distinct(init)) by {
            assert forall|i: int, j: int|
                0 <= i < init.len() && 0 <= j < init.len() && i != j implies #[trigger] init[i].0
                != #[trigger] init[j].0 by {
                assert(init[i] == s[i] && init[j] == s[j]);
            }
        }
        lemma_sort_pairs_distinct(init);
        let sorted = sort_pairs(init);
        assert forall|k: int| 0 <= k < sorted.len() implies #[trigger] sorted[k].0 != e.0 by {
            let x = sorted[k];
            assert(sorted.contains(x));
            lemma_sort_pairs_contains(init, x);
            let m = choose|m: int| 0 <= m < init.len() && init[m] == x;
            assert(s[m] == x);
        }
        lemma_insert_pair_distinct(sorted, e);
    }
}

proof fn lemma_strictly_sorted_unique(a: Seq<(Seq<char>, Seq<char>)>, b: Seq<(Seq<char>, Seq<char>)>)
    requires
        keys_strictly_sorted(a),
        keys_strictly_sorted(b),
        forall|x: (Seq<char>, Seq<char>)| a.contains(x) <==> b.contains(x),
    ensures
        a == b,
    decreases a.len() + b.len(),
{
    if a.len() == 0 {
        if b.len() > 0 {
            assert(b.contains(b[0]));
        }
        assert(a =~= b);
    } else if b.len() == 0 {
        assert(a.contains(a[0]));
    } else {
        let ma = a[a.len() - 1];
        let mb = b[b.len() - 1];
        assert(a.contains(ma));
        assert(b.contains(mb));
        let ka = choose|k: int| 0 <= k < b.len() && b[k] == ma;
        let kb = choose|k: int| 0 <= k < a.len() && a[k] == mb;
        if ma != mb {
            assert(ka < b.len() - 1);
            assert(kb < a.len() - 1);
            assert(text_lt(ma.0, mb.0));
            assert(text_lt(mb.0, ma.0));
            lemma_text_lt_asymmetric(ma.0, mb.0);
        }
        let ia = a.subrange(0, a.len() - 1);
        let ib = b.subrange(0, b.len() - 1);
        assert(keys_strictly_sorted(ia)) by {
            assert forall|i: int, j: int| 0 <= i < j < ia.len() implies text_lt(
                #[trigger] ia[i].0,
                #[trigger] ia[j].0,
            ) by {
                assert(ia[i] == a[i] && ia[j] == a[j]);
            }
        }
        assert(keys_strictly_sorted(ib)) by {
            assert forall|i: int, j: int| 0 <= i < j < ib.len() implies text_lt(
                #[trigger] ib[i].0,
                #[trigger] ib[j].0,
            ) by {
                assert(ib[i] == b[i] && ib[j] == b[j]);
            }
        }
        assert forall|x: (Seq<char>, Seq<char>)| ia.contains(x) implies ib.contains(x) by {
            let k = choose|k: int| 0 <= k < ia.len() && ia[k] == x;
            assert(a[k] == x);
            assert(text_lt(x.0, ma.0));
            lemma_text_lt_irreflexive(x.0);
            assert(b.contains(x));
            let m = choose|m: int| 0 <= m < b.len() && b[m] == x;
            assert(m != b.len() - 1);
            assert(ib[m] == x);
        }
        assert forall|x: (Seq<char>, Seq<char>)| ib.contains(x) implies ia.contains(x) by {
            let k = choose|k: int| 0 <= k < ib.len() && ib[k] == x;
            assert(b[k] == x);
            assert(text_lt(x.0, mb.0));
            lemma_text_lt_irreflexive(x.0);
            assert(a.contains(x));
            let m = choose|m: int| 0 <= m < a.len() && a[m] == x;
            assert(m != a.len() - 1);
            assert(ia[m] == x);
        }
        lemma_strictly_sorted_unique(ia, ib);
        assert(a =~= ia.push(ma));
        assert(b =~= ib.push(mb));
    }
}

proof fn lemma_sorted_distinct_is_strict(s: Seq<(Seq<char>, Seq<char>)>)
    requires
        keys_sorted(s),
        keys_distinct(s),
    ensures
        keys_strictly_sorted(s),
{
    assert forall|i: int, j: int| 0 <= i < j < s.len() implies text_lt(
        #[trigger] s[i].0,
        #[trigger] s[j].0,
    ) by {
        assert(!text_lt(s[j].0, s[i].0));
        lemma_text_lt_total(s[i].0, s[j].0);
    }
}

/// Two objects that hold the same members, each key once, have the same
/// `jsonb`-style text, whatever order they hold them in.
pub proof fn lemma_jsonb_text_ignores_member_order(a: JsonValue, b: JsonValue)
    requires
        a is Object,
        b is Object,
        members_have_distinct_keys(a->Object_0@),
        members_have_distinct_keys(b->Object_0@),
        forall|e: (String, JsonValue)| a->Object_0@.contains(e) <==> b->Object_0@.contains(e),
    ensures
        jsonb_text(a) == jsonb_text(b),
{
    let ea = a->Object_0@;
    let eb = b->Object_0@;
    let pa = jsonb_member_pairs(ea);
    let pb = jsonb_member_pairs(eb);
    lemma_member_pairs_shape(ea);
    lemma_member_pairs_shape(eb);
    assert(keys_distinct(pa)) by {
        assert forall|i: int, j: int|
            0 <= i < pa.len() && 0 <= j < pa.len() && i != j implies #[trigger] pa[i].0
            != #[trigger] pa[j].0 by {
            assert(pa[i] == jsonb_member_pair(ea[i]));
            assert(pa[j] == jsonb_member_pair(ea[j]));
        }
    }
    assert(keys_distinct(pb)) by {
        assert forall|i: int, j: int|
            0 <= i < pb.len() && 0 <= j < pb.len() && i != j implies #[trigger] pb[i].0
            != #[trigger] pb[j].0 by {
            assert(pb[i] == jsonb_member_pair(eb[i]));
            assert(pb[j] == jsonb_member_pair(eb[j]));
        }
    }
    assert forall|x: (Seq<char>, Seq<char>)| pa.contains(x) implies pb.contains(x) by {
        let k = choose|k: int| 0 <= k < pa.len() && pa[k] == x;
        assert(pa[k] == jsonb_member_pair(ea[k]));
        assert(ea.contains(ea[k]));
        let m = choose|m: int| 0 <= m < eb.len() && eb[m] == ea[k];
        assert(pb[m] == jsonb_member_pair(eb[m]));
    }
    assert forall|x: (Seq<char>, Seq<char>)| pb.contains(x) implies pa.contains(x) by {
        let k = choose|k: int| 0 <= k < pb.len() && pb[k] == x;
        assert(pb[k] == jsonb_member_pair(eb[k]));
        assert(eb.contains(eb[k]));
        let m = choose|m: int| 0 <= m < ea.len() && ea[m] == eb[k];
        assert(pa[m] == jsonb_member_pair(ea[m]));
    }
    let sa = sort_pairs(pa);
    let sb = sort_pairs(pb);
    lemma_sort_pairs_sorted(pa);
    lemma_sort_pairs_sorted(pb);
    lemma_sort_pairs_distinct(pa);
    lemma_sort_pairs_distinct(pb);
    lemma_sorted_distinct_is_strict(sa);
    lemma_sorted_distinct_is_strict(sb);
    assert forall|x: (Seq<char>, Seq<char>)| sa.contains(x) <==> sb.contains(x) by {
        lemma_sort_pairs_contains(pa, x);
        lemma_sort_pairs_contains(pb, x);
    }
    lemma_strictly_sorted_unique(sa, sb);
}

proof fn lemma_json_escaped_concat(a: Seq<char>, b: Seq<char>)
    ensures
        json_escaped(a + b) == json_escaped(a) + json_escaped(b),
    decreases b.len(),
{
    if b.len() == 0 {
        assert(a + b =~= a);
        assert(json_escaped(b) =~= Seq::<char>::empty());
        assert(json_escaped(a) + json_escaped(b) =~= json_escaped(a));
    } else {
        let init = b.subrange(0, b.len() - 1);
        lemma_json_escaped_concat(a, init);
        let ab = a + b;
        assert(ab.subrange(0, ab.len() - 1) =~= a + init);
        assert(ab[ab.len() - 1] == b[b.len() - 1]);
        assert(json_escaped(ab) =~= json_escaped(a) + json_escaped(b));
    }
}

pub proof fn lemma_json_escaped_first(s: Seq<char>)
    requires
        s.len() > 0,
    ensures
        json_escaped(s) == json_escape(s[0]) + json_escaped(s.drop_first()),
{
    let head = seq![s[0]];
    assert(s =~= head + s.drop_first());
    lemma_json_escaped_concat(head, s.drop_first());
    assert(head.subrange(0, 0) =~= Seq::<char>::empty());
    assert(json_escaped(Seq::<char>::empty()) =~= Seq::<char>::empty());
    assert(head[0] == s[0]);
    assert(json_escaped(head) == json_escaped(head.subrange(0, 0)) + json_escape(head[0]));
    assert(json_escaped(head) =~= json_escape(s[0]));
}

proof fn lemma_hex_digit_injective(a: u32, b: u32)
    requires
        a < 16,
        b < 16,
        hex_digit(a) == hex_digit(b),
    ensures
        a == b,
{
    reveal_strlit("0123456789abcdef");
}

/// No character's escape is a proper prefix of another's, so the first
/// escape of a text is fixed by the text.
proof fn lemma_json_escape_prefix_code(x: char, y: char, t: Seq<char>)
    requires
        json_escape(x).len() <= t.len(),
        json_escape(y).len() <= t.len(),
        t.subrange(0, json_escape(x).len() as int) == json_escape(x),
        t.subrange(0, json_escape(y).len() as int) == json_escape(y),
    ensures
        x == y,
{
    let ex = json_escape(x);
    let ey = json_escape(y);
    assert(ex[0] == t[0]);
    assert(ey[0] == t[0]);
    if ex.len() > 1 && ey.len() > 1 {
        assert(ex[1] == t[1]);
        assert(ey[1] == t[1]);
        if ex.len() == 6 && ey.len() == 6 {
            assert(ex[4] == t[4]);
            assert(ey[4] == t[4]);
            assert(ex[5] == t[5]);
            assert(ey[5] == t[5]);
            lemma_hex_digit_injective((x as u32) / 16, (y as u32) / 16);
            lemma_hex_digit_injective((x as u32) % 16, (y as u32) % 16);
            assert((x as u32) == (y as u32));
        }
    }
}

/// Different texts have different escapes: `json_escaped` loses nothing.
pub proof fn lemma_json_escaped_injective(a: Seq<char>, b: Seq<char>)
    requires
        json_escaped(a) == json_escaped(b),
    ensures
        a == b,
    decreases a.len(),
{
    if a.len() == 0 {
        if b.len() > 0 {
            lemma_json_escaped_first(b);
        }
        assert(a =~= b);
    } else {
        lemma_json_escaped_first(a);
        if b.len() == 0 {
            assert(json_escape(a[0]).len() > 0);
            assert(json_escaped(b).len() == 0);
            assert(json_escaped(a).len() > 0);
        }
        lemma_json_escaped_first(b);
        let t = json_escaped(a);
        let ex = json_escape(a[0]);
        let ey = json_escape(b[0]);
        assert(t.subrange(0, ex.len() as int) =~= ex);
        assert(t.subrange(0, ey.len() as int) =~= ey);
        lemma_json_escape_prefix_code(a[0], b[0], t);
        assert(json_escaped(a.drop_first()) =~= t.subrange(ex.len() as int, t.len() as int));
        assert(json_escaped(b.drop_first()) =~= t.subrange(ey.len() as int, t.len() as int));
        lemma_json_escaped_injective(a.drop_first(), b.drop_first());
        assert(a =~= seq![a[0]] + a.drop_first());
        assert(b =~= seq![b[0]] + b.drop_first());
    }
}

/// Different texts have different JSON string literals.
pub proof fn lemma_json_string_literal_injective(a: Seq<char>, b: Seq<char>)
    requires
        json_string_literal(a) == json_string_literal(b),
    ensures
        a == b,
{
    let la = json_string_literal(a);
    let lb = json_string_literal(b);
    assert(json_escaped(a) =~= la.subrange(1, la.len() - 1));
    assert(json_escaped(b) =~= lb.subrange(1, lb.len() - 1));
    lemma_json_escaped_injective(a, b);
}

} // verus!
