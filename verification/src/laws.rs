use vstd::prelude::*;
use crate::codec::{Codec, Decoder, SchemaFault};
use crate::database::{decoded_items, key_bytes, lookup, no_writes, pair_bytes, with_delete};
use crate::database::with_put;
use crate::database::{with_queued_delete, with_queued_put};
use crate::engine::{after_merge, apply_writes};
use crate::order::{Entry, ScanPlan, Span, ascending, ascending_listing, bytes_le, bytes_lt};
use crate::order::{descending, descending_listing, is_scan, starts_with};
use crate::order::{lemma_lt_asymmetric, lemma_lt_irreflexive, lemma_reverse_of_scan};
use crate::schema::KeyValueSchema;

verus! {

/// A value that was put under a key is what a lookup of that key finds, whatever the
/// store held before.
pub proof fn lemma_put_then_get<S: KeyValueSchema>(
    m: Map<Seq<u8>, Seq<u8>>,
    key: <S::Key as View>::V,
    value: <S::Value as View>::V,
)
    requires
        pair_bytes::<S>(key, value) is Ok,
    ensures
        with_put::<S>(m, key, value) is Ok,
        lookup::<S>(with_put::<S>(m, key, value)->Ok_0, key) == Ok::<
            Option<<S::Value as View>::V>,
            SchemaFault,
        >(Some(value)),
{
    <S::Value as Codec>::lemma_round_trip(value);
}

/// Deleting a key twice leaves the store as deleting it once does, and a lookup of
/// the key then finds nothing.
pub proof fn lemma_delete_twice<S: KeyValueSchema>(
    m: Map<Seq<u8>, Seq<u8>>,
    key: <S::Key as View>::V,
)
    requires
        key_bytes::<S>(key) is Ok,
    ensures
        with_delete::<S>(m, key) is Ok,
        with_delete::<S>(with_delete::<S>(m, key)->Ok_0, key) == with_delete::<S>(m, key),
        lookup::<S>(with_delete::<S>(m, key)->Ok_0, key) == Ok::<
            Option<<S::Value as View>::V>,
            SchemaFault,
        >(None),
{
    let k = key_bytes::<S>(key)->Ok_0;
    assert(m.remove(k).remove(k) =~= m.remove(k));
}

/// Once a batch is applied, a key that the batch put last holds the value put, and a
/// key that the batch deleted last holds nothing.
pub proof fn lemma_applied_batch_is_seen<S: KeyValueSchema>(
    m: Map<Seq<u8>, Seq<u8>>,
    w: Map<Seq<u8>, Option<Seq<u8>>>,
    key: <S::Key as View>::V,
    value: <S::Value as View>::V,
)
    requires
        pair_bytes::<S>(key, value) is Ok,
    ensures
        lookup::<S>(apply_writes(m, with_queued_put::<S>(w, key, value)->Ok_0), key) == Ok::<
            Option<<S::Value as View>::V>,
            SchemaFault,
        >(Some(value)),
        lookup::<S>(apply_writes(m, with_queued_delete::<S>(w, key)->Ok_0), key) == Ok::<
            Option<<S::Value as View>::V>,
            SchemaFault,
        >(None),
{
    <S::Value as Codec>::lemma_round_trip(value);
}

/// A merge changes no key but its own, whatever the merge operator makes.
pub proof fn lemma_merge_keeps_other_keys(
    m: Map<Seq<u8>, Seq<u8>>,
    key: Seq<u8>,
    made: Option<Seq<u8>>,
)
    ensures
        after_merge(m, key, made).remove(key) == m.remove(key),
        after_merge(m, key, made).contains_key(key) == (made is Some),
        made is Some ==> after_merge(m, key, made)[key] == made->0,
{
    assert(after_merge(m, key, made).remove(key) =~= m.remove(key));
}

/// Applying a batch to which nothing was added leaves the store as it was.
pub proof fn lemma_empty_batch_changes_nothing(m: Map<Seq<u8>, Seq<u8>>)
    ensures
        apply_writes(m, no_writes()) == m,
{
    assert(apply_writes(m, no_writes()) =~= m);
}

/// A scan from the start hands out every entry of the store, keys ascending in the
/// byte order of their encodings; a scan from the end hands them out descending.
pub proof fn lemma_full_scan_is_ordered(s: Seq<Entry>, m: Map<Seq<u8>, Seq<u8>>, plan: ScanPlan)
    requires
        plan.span == Span::All,
        is_scan(s, m, plan),
    ensures
        !plan.descending ==> ascending(s),
        plan.descending ==> descending(s),
        forall|i: int| 0 <= i < s.len() ==> m.contains_key(#[trigger] s[i].0) && m[s[i].0] == s[i].1,
        forall|k: Seq<u8>| #[trigger]
            m.contains_key(k) ==> exists|i: int| 0 <= i < s.len() && #[trigger] s[i].0 == k,
{
    assert forall|k: Seq<u8>| #[trigger] m.contains_key(k) implies exists|i: int|
        0 <= i < s.len() && #[trigger] s[i].0 == k by {
        assert(plan.span.holds(k));
    }
}

/// Without its first item, an ascending listing lists what is left once the key of
/// that item is removed.
proof fn lemma_listing_tail(s: Seq<Entry>, m: Map<Seq<u8>, Seq<u8>>, span: Span)
    requires
        ascending_listing(s, m, span),
        s.len() > 0,
    ensures
        ascending_listing(s.drop_first(), m.remove(s[0].0), span),
{
    let t = s.drop_first();
    let rest = m.remove(s[0].0);
    assert forall|i: int, j: int| 0 <= i < j < t.len() implies bytes_lt(
        #[trigger] t[i].0,
        #[trigger] t[j].0,
    ) by {
        assert(t[i] == s[i + 1] && t[j] == s[j + 1]);
    }
    assert forall|i: int| 0 <= i < t.len() implies rest.contains_key(#[trigger] t[i].0) && rest[t[i].0]
        == t[i].1 && span.holds(t[i].0) by {
        assert(t[i] == s[i + 1]);
        assert(bytes_lt(s[0].0, s[i + 1].0));
        lemma_lt_irreflexive(s[0].0);
    }
    assert forall|k: Seq<u8>| #[trigger] rest.contains_key(k) && span.holds(k) implies exists|i: int|
        0 <= i < t.len() && #[trigger] t[i].0 == k by {
        assert(m.contains_key(k));
        let i = choose|i: int| 0 <= i < s.len() && #[trigger] s[i].0 == k;
        assert(i > 0);
        assert(t[i - 1] == s[i]);
    }
}

/// Two ascending listings of the same entries over the same span are the same sequence.
proof fn lemma_ascending_listing_is_unique(
    s1: Seq<Entry>,
    s2: Seq<Entry>,
    m: Map<Seq<u8>, Seq<u8>>,
    span: Span,
)
    requires
        ascending_listing(s1, m, span),
        ascending_listing(s2, m, span),
    ensures
        s1 == s2,
    decreases s1.len(),
{
    if s1.len() == 0 {
        if s2.len() > 0 {
            assert(m.contains_key(s2[0].0) && span.holds(s2[0].0));
            let i = choose|i: int| 0 <= i < s1.len() && #[trigger] s1[i].0 == s2[0].0;
            assert(false);
        }
        assert(s1 =~= s2);
    } else {
        assert(m.contains_key(s1[0].0) && span.holds(s1[0].0));
        let j = choose|j: int| 0 <= j < s2.len() && #[trigger] s2[j].0 == s1[0].0;
        assert(m.contains_key(s2[0].0) && span.holds(s2[0].0));
        let i = choose|i: int| 0 <= i < s1.len() && #[trigger] s1[i].0 == s2[0].0;
        if j > 0 {
            assert(bytes_lt(s2[0].0, s2[j].0));
            if i > 0 {
                assert(bytes_lt(s1[0].0, s1[i].0));
                lemma_lt_asymmetric(s1[0].0, s2[0].0);
            } else {
                lemma_lt_irreflexive(s1[0].0);
            }
        }
        assert(s1[0] == s2[0]);
        lemma_listing_tail(s1, m, span);
        lemma_listing_tail(s2, m, span);
        lemma_ascending_listing_is_unique(s1.drop_first(), s2.drop_first(), m.remove(s1[0].0), span);
        assert(s1 =~= seq![s1[0]] + s1.drop_first());
        assert(s2 =~= seq![s2[0]] + s2.drop_first());
    }
}

/// What a scan hands out is settled by the entries of the store and by what the scan
/// was asked for: two scans of the same entries after the same plan hand out the same
/// entries in the same order. A scan by prefix thus hands out exactly the entries
/// whose key begins with the prefix, keys ascending.
pub proof fn lemma_scan_is_unique(
    s1: Seq<Entry>,
    s2: Seq<Entry>,
    m: Map<Seq<u8>, Seq<u8>>,
    plan: ScanPlan,
)
    requires
        is_scan(s1, m, plan),
        is_scan(s2, m, plan),
    ensures
        s1 == s2,
{
    if plan.descending {
        lemma_reverse_of_scan(s1, m, plan);
        lemma_reverse_of_scan(s2, m, plan);
        lemma_ascending_listing_is_unique(s1.reverse(), s2.reverse(), m, plan.span);
        assert(s1 =~= s1.reverse().reverse());
        assert(s2 =~= s2.reverse().reverse());
    } else {
        lemma_ascending_listing_is_unique(s1, s2, m, plan.span);
    }
}

/// Every byte string that begins with `prefix` is `prefix` itself or comes after it.
pub proof fn lemma_prefix_comes_first(key: Seq<u8>, prefix: Seq<u8>)
    requires
        starts_with(key, prefix),
    ensures
        bytes_le(prefix, key),
    decreases prefix.len(),
{
    if prefix.len() == 0 {
        if key.len() == 0 {
            assert(prefix =~= key);
        }
    } else {
        assert(key[0] == key.subrange(0, prefix.len() as int)[0]);
        assert(key.drop_first().subrange(0, prefix.len() - 1) =~= prefix.drop_first()) by {
            assert forall|i: int| 0 <= i < prefix.len() - 1 implies key.drop_first().subrange(
                0,
                prefix.len() - 1,
            )[i] == prefix.drop_first()[i] by {
                assert(key.subrange(0, prefix.len() as int)[i + 1] == prefix[i + 1]);
            }
        }
        lemma_prefix_comes_first(key.drop_first(), prefix.drop_first());
        if prefix.drop_first() == key.drop_first() {
            assert(prefix =~= seq![prefix[0]] + prefix.drop_first());
            assert(key =~= seq![key[0]] + key.drop_first());
        }
    }
}

/// A scan that starts at a key which the store holds hands out that key first:
/// ascending from the key, descending from the key, and by the key as a prefix.
pub proof fn lemma_seek_includes_key(
    s: Seq<Entry>,
    m: Map<Seq<u8>, Seq<u8>>,
    plan: ScanPlan,
    key: Seq<u8>,
)
    requires
        is_scan(s, m, plan),
        m.contains_key(key),
        plan == (ScanPlan { span: Span::AtLeast(key), descending: false }) || plan == (ScanPlan {
            span: Span::AtMost(key),
            descending: true,
        }) || plan == (ScanPlan { span: Span::Prefix(key), descending: false }),
    ensures
        s.len() > 0,
        s.first() == (key, m[key]),
{
    assert(starts_with(key, key)) by {
        assert(key.subrange(0, key.len() as int) =~= key);
    }
    assert(plan.span.holds(key));
    let i = choose|i: int| 0 <= i < s.len() && #[trigger] s[i].0 == key;
    if i > 0 {
        assert(plan.span.holds(s[0].0));
        if plan.descending {
            assert(bytes_lt(s[i].0, s[0].0));
        } else {
            assert(bytes_lt(s[0].0, s[i].0));
            if plan.span is Prefix {
                lemma_prefix_comes_first(s[0].0, key);
            }
        }
        lemma_lt_asymmetric(s[0].0, key);
        lemma_lt_irreflexive(key);
    }
}

/// An ascending scan from a key that the store holds hands out that key first, with
/// what the store holds under it.
pub proof fn lemma_from_key_comes_first<S: KeyValueSchema>(
    s: Seq<Entry>,
    m: Map<Seq<u8>, Seq<u8>>,
    key: <S::Key as View>::V,
)
    requires
        key_bytes::<S>(key) is Ok,
        m.contains_key(key_bytes::<S>(key)->Ok_0),
        is_scan(s, m, ScanPlan { span: Span::AtLeast(key_bytes::<S>(key)->Ok_0), descending: false }),
    ensures
        s.len() > 0,
        decoded_items::<S>(s)[0].0 == Ok::<<S::Key as View>::V, SchemaFault>(key),
        lookup::<S>(m, key) == (match decoded_items::<S>(s)[0].1 {
            Ok(v) => Ok::<Option<<S::Value as View>::V>, SchemaFault>(Some(v)),
            Err(e) => Err::<Option<<S::Value as View>::V>, SchemaFault>(e),
        }),
{
    let k = key_bytes::<S>(key)->Ok_0;
    lemma_seek_includes_key(s, m, ScanPlan { span: Span::AtLeast(k), descending: false }, k);
    <S::Key as Codec>::lemma_round_trip(key);
}

/// An entry whose value cannot be decoded does not touch the rest of a scan: the
/// scan hands out as many items as there are entries, the key of that entry is
/// decoded as if its value were sound, and every other item is what it would be
/// whatever bytes that entry held as its value.
pub proof fn lemma_bad_value_stays_apart<S: KeyValueSchema>(
    entries: Seq<Entry>,
    at: int,
    bad: Seq<u8>,
)
    requires
        0 <= at < entries.len(),
    ensures
        decoded_items::<S>(entries.update(at, (entries[at].0, bad))).len() == entries.len(),
        decoded_items::<S>(entries.update(at, (entries[at].0, bad)))[at] == (
            <S::Key as Decoder>::decoded(entries[at].0),
            <S::Value as Decoder>::decoded(bad),
        ),
        forall|j: int|
            0 <= j < entries.len() && j != at ==> #[trigger] decoded_items::<S>(
                entries.update(at, (entries[at].0, bad)),
            )[j] == decoded_items::<S>(entries)[j],
{
}

} // verus!
