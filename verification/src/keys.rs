use vstd::prelude::*;

use crate::error::ThreadStoreError;
use crate::json::postgres_jsonb_compat_key;
use crate::json::session_source_key_from_value;
use crate::session_source::lemma_source_json_texts;
use crate::session_source::lemma_unit_names_follow_variant_names;
use crate::session_source::source_name;
use crate::session_source::SubAgentSource;
use crate::session_source::serializes_as_string;
use crate::session_source::source_debug;
use crate::session_source::source_display;
use crate::session_source::source_jsonb;
use crate::session_source::source_key;
use crate::session_source::SessionSource;

verus! {

/// The texts of a list of strings.
pub open spec fn texts(keys: Seq<String>) -> Seq<Seq<char>> {
    keys.map_values(|k: String| k@)
}

/// `keys` with `key` appended unless it already holds it.
pub open spec fn push_unique(keys: Seq<Seq<char>>, key: Seq<char>) -> Seq<Seq<char>> {
    if keys.contains(key) {
        keys
    } else {
        keys.push(key)
    }
}

/// No text occurs twice.
pub open spec fn no_duplicates(keys: Seq<Seq<char>>) -> bool {
    forall|i: int, j: int| 0 <= i < j < keys.len() ==> keys[i] != keys[j]
}

/// The keys under which rows recorded with session source `s` may have
/// been stored: the canonical key, the `Debug` text, the `Display` text and,
/// for sources that serialize as objects, the `jsonb` text, each once.
pub open spec fn filter_keys(s: SessionSource) -> Seq<Seq<char>> {
    let base = push_unique(
        push_unique(push_unique(Seq::empty(), source_key(s)), source_debug(s)),
        source_display(s),
    );
    if serializes_as_string(s) {
        base
    } else {
        push_unique(base, source_jsonb(s))
    }
}

/// Appends `key` to `keys` unless an equal key is already there.
pub fn push_unique_key(keys: &mut Vec<String>, key: String)
    ensures
        texts(final(keys)@) == push_unique(texts(old(keys)@), key@),
        final(keys)@ == old(keys)@ || final(keys)@ == old(keys)@.push(key),
{
    let n = keys.len();
    let mut i: usize = 0;
    while i < n
        invariant
            n == keys@.len(),
            i <= n,
            forall|k: int| 0 <= k < i ==> keys@[k]@ != key@,
        decreases n - i,
    {
        if keys[i] == key {
            assert(texts(keys@)[i as int] == key@);
            return;
        }
        i = i + 1;
    }
    assert(!texts(keys@).contains(key@)) by {
        if texts(keys@).contains(key@) {
            let k = choose|k: int| 0 <= k < texts(keys@).len() && texts(keys@)[k] == key@;
            assert(keys@[k]@ == key@);
        }
    }
    let ghost before = keys@;
    keys.push(key);
    assert(texts(keys@) =~= texts(before).push(key@));
}

/// The key under which the store records a session source: its serialized
/// name when it serializes as a string, else its compact JSON text.
pub fn canonical_session_source_key(source: &SessionSource) -> (r: Result<
    String,
    ThreadStoreError,
>)
    ensures
        r matches Ok(k) && k@ == source_key(*source),
{
    let value = source.to_json();
    proof {
        lemma_source_json_texts(*source, value);
    }
    session_source_key_from_value(&value)
}

/// Every key under which a row for this session source may have been
/// recorded, by this or an older version of the store.
pub fn session_source_filter_keys(source: &SessionSource) -> (r: Result<
    Vec<String>,
    ThreadStoreError,
>)
    ensures
        r matches Ok(keys) && texts(keys@) == filter_keys(*source),
        serializes_as_string(*source) ==> (r matches Ok(keys) && texts(keys@) == seq![
            source_name(*source),
            source_debug(*source),
        ]),
{
    let value = source.to_json();
    proof {
        lemma_source_json_texts(*source, value);
        if serializes_as_string(*source) {
            lemma_unit_source_filter_keys(*source);
        }
    }
    let mut keys: Vec<String> = Vec::new();
    assert(texts(keys@) =~= Seq::<Seq<char>>::empty());
    push_unique_key(&mut keys, session_source_key_from_value(&value)?);
    push_unique_key(&mut keys, source.debug_text());
    push_unique_key(&mut keys, source.display_text());
    if !value.is_string() {
        push_unique_key(&mut keys, postgres_jsonb_compat_key(&value)?);
    }
    Ok(keys)
}

/// Pushing a key keeps a key list free of duplicates, and the key is in the
/// list afterwards.
pub proof fn lemma_push_unique_keeps_keys_distinct(keys: Seq<Seq<char>>, key: Seq<char>)
    requires
        no_duplicates(keys),
    ensures
        no_duplicates(push_unique(keys, key)),
        push_unique(keys, key).contains(key),
        forall|k: Seq<char>| keys.contains(k) ==> push_unique(keys, key).contains(k),
{
    let r = push_unique(keys, key);
    if !keys.contains(key) {
        assert(r[keys.len() as int] == key);
        assert forall|k: Seq<char>| keys.contains(k) implies r.contains(k) by {
            let i = choose|i: int| 0 <= i < keys.len() && keys[i] == k;
            assert(r[i] == k);
        }
    }
}

/// The filter keys of a session source are distinct, start with its
/// canonical key, and include its `Debug` and `Display` texts: a listing that
/// filters by a source finds every row that was recorded under that source's
/// canonical key.
pub proof fn lemma_filter_keys_cover_canonical_key(s: SessionSource)
    ensures
        no_duplicates(filter_keys(s)),
        filter_keys(s).len() >= 1,
        filter_keys(s)[0] == source_key(s),
        filter_keys(s).contains(source_key(s)),
        filter_keys(s).contains(source_debug(s)),
        filter_keys(s).contains(source_display(s)),
        !serializes_as_string(s) ==> filter_keys(s).contains(source_jsonb(s)),
{
    let k0 = push_unique(Seq::empty(), source_key(s));
    assert(k0 =~= seq![source_key(s)]);
    lemma_push_unique_keeps_keys_distinct(Seq::empty(), source_key(s));
    let k1 = push_unique(k0, source_debug(s));
    lemma_push_unique_keeps_keys_distinct(k0, source_debug(s));
    let k2 = push_unique(k1, source_display(s));
    lemma_push_unique_keeps_keys_distinct(k1, source_display(s));
    assert(k0.contains(source_key(s)));
    assert(k1[0] == source_key(s));
    assert(k2[0] == source_key(s));
    if !serializes_as_string(s) {
        lemma_push_unique_keeps_keys_distinct(k2, source_jsonb(s));
        assert(filter_keys(s)[0] == source_key(s));
    }
}

/// A source without data is looked up under exactly two keys: its
/// serialized name, then its `Debug` text (the variant's name); its
/// `Display` text adds nothing, being the serialized name again.
pub proof fn lemma_unit_source_filter_keys(s: SessionSource)
    requires
        serializes_as_string(s),
    ensures
        filter_keys(s) == seq![source_name(s), source_debug(s)],
{
    lemma_unit_names_follow_variant_names(s, SubAgentSource::Review);
    let k0 = push_unique(Seq::empty(), source_key(s));
    assert(k0 =~= seq![source_name(s)]);
    let k1 = push_unique(k0, source_debug(s));
    assert(!k0.contains(source_debug(s))) by {
        if k0.contains(source_debug(s)) {
            assert(k0[0] == source_debug(s));
        }
    }
    assert(k1 =~= seq![source_name(s), source_debug(s)]);
    assert(k1.contains(source_display(s))) by {
        assert(k1[0] == source_display(s));
    }
}

} // verus!
