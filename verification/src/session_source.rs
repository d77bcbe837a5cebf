use vstd::prelude::*;

use crate::json::compact_text;
use crate::json::join_texts;
use crate::json::jsonb_member_pairs;
use crate::json::jsonb_text;
use crate::json::json_string_literal;
use crate::json::json_escape;
use crate::json::json_escaped;
use crate::json::lemma_json_escaped_first;
use crate::json::lemma_json_string_literal_injective;
use crate::json::pair_texts;
use crate::json::insert_pair;
use crate::json::sort_pairs;
use crate::json::value_key;
use crate::json::JsonValue;
use crate::text::debug_quoted;
use crate::text::rust_debug_quoted;

verus! {

/// The kind of sub-agent that started a session.
#[derive(Debug)]
pub enum SubAgentSource {
    Review,
    Compact,
    MemoryConsolidation,
    Other(String),
}

/// Where a session was started from.
#[derive(Debug)]
pub enum SessionSource {
    Cli,
    VSCode,
    Exec,
    Mcp,
    Custom(String),
    SubAgent(SubAgentSource),
    Unknown,
}

/// The serialized name of a session source that serializes as a bare string.
pub open spec fn source_name(s: SessionSource) -> Seq<char> {
    match s {
        SessionSource::Cli => "cli"@,
        SessionSource::VSCode => "vscode"@,
        SessionSource::Exec => "exec"@,
        SessionSource::Mcp => "mcp"@,
        SessionSource::Custom(_) => "custom"@,
        SessionSource::SubAgent(_) => "subagent"@,
        SessionSource::Unknown => "unknown"@,
    }
}

/// The serialized name of a sub-agent source (its variant tag).
pub open spec fn sub_agent_name(a: SubAgentSource) -> Seq<char> {
    match a {
        SubAgentSource::Review => "review"@,
        SubAgentSource::Compact => "compact"@,
        SubAgentSource::MemoryConsolidation => "memory_consolidation"@,
        SubAgentSource::Other(_) => "other"@,
    }
}

/// Whether the source serializes as a bare JSON string.
pub open spec fn serializes_as_string(s: SessionSource) -> bool {
    !(s is Custom || s is SubAgent)
}

/// `value` is the JSON form of the sub-agent source `a`: a bare string for
/// a unit variant, `{"other": text}` for `Other`.
pub open spec fn is_sub_agent_json(a: SubAgentSource, value: JsonValue) -> bool {
    match a {
        SubAgentSource::Other(o) => {
            &&& value matches JsonValue::Object(es)
            &&& es@.len() == 1
            &&& es@[0].0@ == "other"@
            &&& es@[0].1 matches JsonValue::String(t)
            &&& t@ == o@
        },
        _ => value matches JsonValue::String(t) && t@ == sub_agent_name(a),
    }
}

/// `value` is the JSON form of the session source `s`: externally tagged,
/// with lower-case variant names.
pub open spec fn is_source_json(s: SessionSource, value: JsonValue) -> bool {
    match s {
        SessionSource::Custom(c) => {
            &&& value matches JsonValue::Object(es)
            &&& es@.len() == 1
            &&& es@[0].0@ == "custom"@
            &&& es@[0].1 matches JsonValue::String(t)
            &&& t@ == c@
        },
        SessionSource::SubAgent(a) => value matches JsonValue::Object(es) && es@.len() == 1
            && es@[0].0@ == "subagent"@ && is_sub_agent_json(a, es@[0].1),
        _ => value matches JsonValue::String(t) && t@ == source_name(s),
    }
}

/// A one-member object in compact JSON.
pub open spec fn tagged_compact(tag: Seq<char>, inner: Seq<char>) -> Seq<char> {
    seq!['{'] + json_string_literal(tag) + seq![':'] + inner + seq!['}']
}

/// A one-member object as PostgreSQL prints `jsonb`.
pub open spec fn tagged_jsonb(tag: Seq<char>, inner: Seq<char>) -> Seq<char> {
    seq!['{'] + json_string_literal(tag) + seq![':', ' '] + inner + seq!['}']
}

pub open spec fn sub_agent_compact(a: SubAgentSource) -> Seq<char> {
    match a {
        SubAgentSource::Other(o) => tagged_compact("other"@, json_string_literal(o@)),
        _ => json_string_literal(sub_agent_name(a)),
    }
}

pub open spec fn sub_agent_jsonb(a: SubAgentSource) -> Seq<char> {
    match a {
        SubAgentSource::Other(o) => tagged_jsonb("other"@, json_string_literal(o@)),
        _ => json_string_literal(sub_agent_name(a)),
    }
}

/// The canonical key of a session source: its serialized name when it
/// serializes as a string, else its compact JSON text.
pub open spec fn source_key(s: SessionSource) -> Seq<char> {
    match s {
        SessionSource::Custom(c) => tagged_compact("custom"@, json_string_literal(c@)),
        SessionSource::SubAgent(a) => tagged_compact("subagent"@, sub_agent_compact(a)),
        _ => source_name(s),
    }
}

/// The `jsonb` text of a session source's JSON form.
pub open spec fn source_jsonb(s: SessionSource) -> Seq<char> {
    match s {
        SessionSource::Custom(c) => tagged_jsonb("custom"@, json_string_literal(c@)),
        SessionSource::SubAgent(a) => tagged_jsonb("subagent"@, sub_agent_jsonb(a)),
        _ => json_string_literal(source_name(s)),
    }
}

/// The `Display` text of a sub-agent source.
pub open spec fn sub_agent_display(a: SubAgentSource) -> Seq<char> {
    match a {
        SubAgentSource::Other(o) => o@,
        _ => sub_agent_name(a),
    }
}

/// The `Display` text of a session source.
pub open spec fn source_display(s: SessionSource) -> Seq<char> {
    match s {
        SessionSource::Custom(c) => c@,
        SessionSource::SubAgent(a) => "subagent_"@ + sub_agent_display(a),
        _ => source_name(s),
    }
}

/// The `Debug` text of a sub-agent source.
pub open spec fn sub_agent_debug(a: SubAgentSource) -> Seq<char> {
    match a {
        SubAgentSource::Review => "Review"@,
        SubAgentSource::Compact => "Compact"@,
        SubAgentSource::MemoryConsolidation => "MemoryConsolidation"@,
        SubAgentSource::Other(o) => "Other("@ + rust_debug_quoted(o@) + ")"@,
    }
}

/// The `Debug` text of a session source.
pub open spec fn source_debug(s: SessionSource) -> Seq<char> {
    match s {
        SessionSource::Cli => "Cli"@,
        SessionSource::VSCode => "VSCode"@,
        SessionSource::Exec => "Exec"@,
        SessionSource::Mcp => "Mcp"@,
        SessionSource::Custom(c) => "Custom("@ + rust_debug_quoted(c@) + ")"@,
        SessionSource::SubAgent(a) => "SubAgent("@ + sub_agent_debug(a) + ")"@,
        SessionSource::Unknown => "Unknown"@,
    }
}

/// Whether a character is an ASCII capital letter.
pub open spec fn is_ascii_upper(c: char) -> bool {
    0x41 <= (c as u32) <= 0x5A
}

/// The ASCII lower-case form of a character; other characters are kept.
pub open spec fn ascii_lower(c: char) -> char {
    if is_ascii_upper(c) {
        ((c as u32) + 0x20) as char
    } else {
        c
    }
}

/// A Rust identifier in lower case, as serde's `rename_all = "lowercase"`
/// writes a variant name.
pub open spec fn lowercase_name(ident: Seq<char>) -> Seq<char> {
    ident.map_values(|c: char| ascii_lower(c))
}

/// The rest of a snake-case name: each capital letter becomes `_` and its
/// lower-case form.
pub open spec fn snake_case_rest(ident: Seq<char>) -> Seq<char>
    decreases ident.len(),
{
    if ident.len() == 0 {
        Seq::empty()
    } else {
        (if is_ascii_upper(ident[0]) {
            seq!['_', ascii_lower(ident[0])]
        } else {
            seq![ident[0]]
        }) + snake_case_rest(ident.drop_first())
    }
}

/// A Rust identifier in snake case, as serde's `rename_all = "snake_case"`
/// writes a variant name.
pub open spec fn snake_case_name(ident: Seq<char>) -> Seq<char> {
    if ident.len() == 0 {
        Seq::empty()
    } else {
        seq![ascii_lower(ident[0])] + snake_case_rest(ident.drop_first())
    }
}

fn owned(s: &str) -> (r: String)
    ensures
        r@ == s@,
{
    String::from_str(s)
}

fn concat3(a: &str, b: &str, c: &str) -> (r: String)
    ensures
        r@ == a@ + b@ + c@,
{
    let mut r = String::from_str(a);
    r.append(b);
    r.append(c);
    r
}

fn tagged(tag: &str, inner: JsonValue) -> (v: JsonValue)
    ensures
        v matches JsonValue::Object(es) && es@.len() == 1 && es@[0].0@ == tag@ && es@[0].1
            == inner,
{
    let mut members = Vec::new();
    members.push((owned(tag), inner));
    JsonValue::Object(members)
}

impl SubAgentSource {
    /// The JSON form of the sub-agent source.
    pub fn to_json(&self) -> (v: JsonValue)
        ensures
            is_sub_agent_json(*self, v),
    {
        match self {
            SubAgentSource::Review => JsonValue::String(owned("review")),
            SubAgentSource::Compact => JsonValue::String(owned("compact")),
            SubAgentSource::MemoryConsolidation => JsonValue::String(
                owned("memory_consolidation"),
            ),
            SubAgentSource::Other(o) => tagged("other", JsonValue::String(o.clone())),
        }
    }

    /// The `Display` text of the sub-agent source.
    pub fn display_text(&self) -> (r: String)
        ensures
            r@ == sub_agent_display(*self),
    {
        match self {
            SubAgentSource::Review => owned("review"),
            SubAgentSource::Compact => owned("compact"),
            SubAgentSource::MemoryConsolidation => owned("memory_consolidation"),
            SubAgentSource::Other(o) => o.clone(),
        }
    }

    /// The `Debug` text of the sub-agent source.
    pub fn debug_text(&self) -> (r: String)
        ensures
            r@ == sub_agent_debug(*self),
    {
        match self {
            SubAgentSource::Review => owned("Review"),
            SubAgentSource::Compact => owned("Compact"),
            SubAgentSource::MemoryConsolidation => owned("MemoryConsolidation"),
            SubAgentSource::Other(o) => {
                let q = debug_quoted(o.as_str());
                concat3("Other(", q.as_str(), ")")
            },
        }
    }
}

impl SessionSource {
    /// The JSON form of the session source: a bare string for the unit
    /// variants, a one-member object tagged with the variant's name otherwise.
    pub fn to_json(&self) -> (v: JsonValue)
        ensures
            is_source_json(*self, v),
    {
        match self {
            SessionSource::Cli => JsonValue::String(owned("cli")),
            SessionSource::VSCode => JsonValue::String(owned("vscode")),
            SessionSource::Exec => JsonValue::String(owned("exec")),
            SessionSource::Mcp => JsonValue::String(owned("mcp")),
            SessionSource::Custom(c) => tagged("custom", JsonValue::String(c.clone())),
            SessionSource::SubAgent(a) => tagged("subagent", a.to_json()),
            SessionSource::Unknown => JsonValue::String(owned("unknown")),
        }
    }

    /// The `Display` text of the session source.
    pub fn display_text(&self) -> (r: String)
        ensures
            r@ == source_display(*self),
    {
        match self {
            SessionSource::Cli => owned("cli"),
            SessionSource::VSCode => owned("vscode"),
            SessionSource::Exec => owned("exec"),
            SessionSource::Mcp => owned("mcp"),
            SessionSource::Custom(c) => c.clone(),
            SessionSource::SubAgent(a) => {
                let inner = a.display_text();
                let mut r = owned("subagent_");
                r.append(inner.as_str());
                r
            },
            SessionSource::Unknown => owned("unknown"),
        }
    }

    /// The `Debug` text of the session source.
    pub fn debug_text(&self) -> (r: String)
        ensures
            r@ == source_debug(*self),
    {
        match self {
            SessionSource::Cli => owned("Cli"),
            SessionSource::VSCode => owned("VSCode"),
            SessionSource::Exec => owned("Exec"),
            SessionSource::Mcp => owned("Mcp"),
            SessionSource::Custom(c) => {
                let q = debug_quoted(c.as_str());
                concat3("Custom(", q.as_str(), ")")
            },
            SessionSource::SubAgent(a) => {
                let inner = a.debug_text();
                concat3("SubAgent(", inner.as_str(), ")")
            },
            SessionSource::Unknown => owned("Unknown"),
        }
    }
}

proof fn lemma_one_member(v: JsonValue)
    requires
        v matches JsonValue::Object(es) && es@.len() == 1,
    ensures
        compact_text(v) == tagged_compact(v->Object_0@[0].0@, compact_text(v->Object_0@[0].1)),
        jsonb_text(v) == tagged_jsonb(v->Object_0@[0].0@, jsonb_text(v->Object_0@[0].1)),
{
    let es = v->Object_0@;
    let key = es[0].0@;
    let member = json_string_literal(key) + seq![':', ' '] + jsonb_text(es[0].1);
    assert(es.subrange(0, 0) =~= Seq::<(String, JsonValue)>::empty());
    assert(jsonb_member_pairs(es.subrange(0, 0)) =~= Seq::<(Seq<char>, Seq<char>)>::empty());
    assert(jsonb_member_pairs(es) =~= seq![(key, member)]);
    let pairs = seq![(key, member)];
    let none = Seq::<(Seq<char>, Seq<char>)>::empty();
    assert(pairs.subrange(0, 0) =~= none);
    assert(sort_pairs(none) == none);
    assert(insert_pair(none, (key, member)) =~= pairs);
    assert(sort_pairs(pairs) =~= pairs);
    assert(pair_texts(pairs) =~= seq![member]);
    assert(join_texts(seq![member]) == member);
    assert(compact_text(v) =~= tagged_compact(key, compact_text(es[0].1)));
    assert(jsonb_text(v) =~= tagged_jsonb(key, jsonb_text(es[0].1)));
}

/// The texts that the store derives from a session source's JSON form are
/// the ones its specification names.
pub proof fn lemma_source_json_texts(s: SessionSource, v: JsonValue)
    requires
        is_source_json(s, v),
    ensures
        value_key(v) == source_key(s),
        jsonb_text(v) == source_jsonb(s),
        (v is String) == serializes_as_string(s),
{
    match s {
        SessionSource::Custom(c) => {
            lemma_one_member(v);
        },
        SessionSource::SubAgent(a) => {
            lemma_one_member(v);
            let inner = v->Object_0@[0].1;
            match a {
                SubAgentSource::Other(o) => {
                    lemma_one_member(inner);
                },
                _ => {},
            }
        },
        _ => {},
    }
}

/// The `Debug` text of a source without data is its variant's name, a
/// capitalised identifier, and its serialized name is that identifier in
/// lower case; for the sub-agents without data it is that identifier in
/// snake case. So the `Debug` key of such a source is never its canonical
/// key.
pub proof fn lemma_unit_names_follow_variant_names(s: SessionSource, a: SubAgentSource)
    ensures
        serializes_as_string(s) ==> (source_debug(s).len() > 0 && is_ascii_upper(
            source_debug(s)[0],
        ) && lowercase_name(source_debug(s)) == source_name(s) && source_debug(s) != source_name(
            s,
        ) && source_display(s) == source_name(s)),
        !(a is Other) ==> (sub_agent_debug(a).len() > 0 && is_ascii_upper(sub_agent_debug(a)[0])
            && snake_case_name(sub_agent_debug(a)) == sub_agent_name(a)),
{
    reveal_strlit("cli");
    reveal_strlit("Cli");
    reveal_strlit("vscode");
    reveal_strlit("VSCode");
    reveal_strlit("exec");
    reveal_strlit("Exec");
    reveal_strlit("mcp");
    reveal_strlit("Mcp");
    reveal_strlit("unknown");
    reveal_strlit("Unknown");
    reveal_strlit("review");
    reveal_strlit("Review");
    reveal_strlit("compact");
    reveal_strlit("Compact");
    reveal_strlit("memory_consolidation");
    reveal_strlit("MemoryConsolidation");
    if serializes_as_string(s) {
        assert(lowercase_name(source_debug(s)) =~= source_name(s));
        assert(source_debug(s)[0] != source_name(s)[0]);
    }
    if !(a is Other) {
        reveal_with_fuel(snake_case_rest, 20);
        assert(snake_case_name(sub_agent_debug(a)) =~= sub_agent_name(a));
    }
}

/// Two sub-agent sources are the same source: the same variant, holding
/// the same text.
pub open spec fn same_sub_agent(a: SubAgentSource, b: SubAgentSource) -> bool {
    match (a, b) {
        (SubAgentSource::Other(x), SubAgentSource::Other(y)) => x@ == y@,
        (SubAgentSource::Other(_), _) => false,
        (_, SubAgentSource::Other(_)) => false,
        _ => a == b,
    }
}

/// Two session sources are the same source: the same variant, holding the
/// same text or the same sub-agent source.
pub open spec fn same_source(a: SessionSource, b: SessionSource) -> bool {
    match (a, b) {
        (SessionSource::Custom(x), SessionSource::Custom(y)) => x@ == y@,
        (SessionSource::SubAgent(x), SessionSource::SubAgent(y)) => same_sub_agent(x, y),
        (SessionSource::Custom(_), _) => false,
        (_, SessionSource::Custom(_)) => false,
        (SessionSource::SubAgent(_), _) => false,
        (_, SessionSource::SubAgent(_)) => false,
        _ => a == b,
    }
}

proof fn lemma_tagged_compact_inner(tag: Seq<char>, x: Seq<char>, y: Seq<char>)
    requires
        tagged_compact(tag, x) == tagged_compact(tag, y),
    ensures
        x == y,
{
    let p = seq!['{'] + json_string_literal(tag) + seq![':'];
    let t = tagged_compact(tag, x);
    assert(t =~= p + x + seq!['}']);
    assert(tagged_compact(tag, y) =~= p + y + seq!['}']);
    assert(x =~= t.subrange(p.len() as int, t.len() - 1));
    assert(y =~= t.subrange(p.len() as int, t.len() - 1));
}

proof fn lemma_literal_second_char(text: Seq<char>)
    requires
        text.len() > 0,
        !(text[0] == '"' || text[0] == '\\' || (text[0] as u32) < 0x20),
    ensures
        json_string_literal(text)[0] == '"',
        json_string_literal(text)[1] == text[0],
{
    lemma_json_escaped_first(text);
    assert(json_escape(text[0]) == seq![text[0]]);
    assert(json_escaped(text)[0] == text[0]);
}

/// The first three characters of a one-member object's compact text: the
/// brace, the quote and the tag's first letter.
proof fn lemma_tagged_compact_start(tag: Seq<char>, inner: Seq<char>)
    requires
        tag.len() > 0,
        0x61 <= (tag[0] as u32) <= 0x7A,
    ensures
        tagged_compact(tag, inner)[0] == '{',
        tagged_compact(tag, inner)[2] == tag[0],
{
    lemma_literal_second_char(tag);
    let l = json_string_literal(tag);
    assert(tagged_compact(tag, inner)[1] == l[0]);
    assert(tagged_compact(tag, inner)[2] == l[1]);
}

proof fn lemma_sub_agent_key_injective(a: SubAgentSource, b: SubAgentSource)
    ensures
        sub_agent_compact(a) == sub_agent_compact(b) <==> same_sub_agent(a, b),
{
    reveal_strlit("review");
    reveal_strlit("compact");
    reveal_strlit("memory_consolidation");
    reveal_strlit("other");
    if sub_agent_compact(a) == sub_agent_compact(b) {
        match (a, b) {
            (SubAgentSource::Other(x), SubAgentSource::Other(y)) => {
                lemma_tagged_compact_inner("other"@, json_string_literal(x@), json_string_literal(y@));
                lemma_json_string_literal_injective(x@, y@);
            },
            (SubAgentSource::Other(x), _) => {
                lemma_tagged_compact_start("other"@, json_string_literal(x@));
                assert(sub_agent_compact(b)[0] == '"');
            },
            (_, SubAgentSource::Other(y)) => {
                lemma_tagged_compact_start("other"@, json_string_literal(y@));
                assert(sub_agent_compact(a)[0] == '"');
            },
            _ => {
                lemma_json_string_literal_injective(sub_agent_name(a), sub_agent_name(b));
                assert(sub_agent_name(a) == sub_agent_name(b));
            },
        }
    }
}

/// Distinct session sources are recorded under distinct canonical keys, and
/// the same source always under the same key: the canonical key tells the
/// source it was made from.
pub proof fn lemma_source_key_injective(a: SessionSource, b: SessionSource)
    ensures
        source_key(a) == source_key(b) <==> same_source(a, b),
{
    reveal_strlit("cli");
    reveal_strlit("vscode");
    reveal_strlit("exec");
    reveal_strlit("mcp");
    reveal_strlit("unknown");
    reveal_strlit("custom");
    reveal_strlit("subagent");
    if source_key(a) == source_key(b) {
        match (a, b) {
            (SessionSource::Custom(x), SessionSource::Custom(y)) => {
                lemma_tagged_compact_inner("custom"@, json_string_literal(x@), json_string_literal(y@));
                lemma_json_string_literal_injective(x@, y@);
            },
            (SessionSource::SubAgent(x), SessionSource::SubAgent(y)) => {
                lemma_tagged_compact_inner("subagent"@, sub_agent_compact(x), sub_agent_compact(y));
                lemma_sub_agent_key_injective(x, y);
            },
            (SessionSource::Custom(x), SessionSource::SubAgent(y)) => {
                lemma_tagged_compact_start("custom"@, json_string_literal(x@));
                lemma_tagged_compact_start("subagent"@, sub_agent_compact(y));
            },
            (SessionSource::SubAgent(x), SessionSource::Custom(y)) => {
                lemma_tagged_compact_start("subagent"@, sub_agent_compact(x));
                lemma_tagged_compact_start("custom"@, json_string_literal(y@));
            },
            (SessionSource::Custom(x), _) => {
                lemma_tagged_compact_start("custom"@, json_string_literal(x@));
                assert(source_key(b)[0] != '{');
            },
            (SessionSource::SubAgent(x), _) => {
                lemma_tagged_compact_start("subagent"@, sub_agent_compact(x));
                assert(source_key(b)[0] != '{');
            },
            (_, SessionSource::Custom(y)) => {
                lemma_tagged_compact_start("custom"@, json_string_literal(y@));
                assert(source_key(a)[0] != '{');
            },
            (_, SessionSource::SubAgent(y)) => {
                lemma_tagged_compact_start("subagent"@, sub_agent_compact(y));
                assert(source_key(a)[0] != '{');
            },
            _ => {},
        }
    } else {
        if same_source(a, b) {
            match (a, b) {
                (SessionSource::SubAgent(x), SessionSource::SubAgent(y)) => {
                    lemma_sub_agent_key_injective(x, y);
                },
                _ => {},
            }
        }
    }
}

} // verus!
