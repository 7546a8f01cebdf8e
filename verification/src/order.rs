use vstd::prelude::*;

verus! {

/// One stored entry as the engine sees it: the bytes of the key and those of the value.
pub type Entry = (Seq<u8>, Seq<u8>);

/// Strict lexicographic order on byte strings: the first differing byte decides,
/// and a proper prefix comes before every string that extends it.
pub open spec fn bytes_lt(a: Seq<u8>, b: Seq<u8>) -> bool
    decreases a.len(),
{
    if b.len() == 0 {
        false
    } else if a.len() == 0 {
        true
    } else if a[0] != b[0] {
        a[0] < b[0]
    } else {
        bytes_lt(a.drop_first(), b.drop_first())
    }
}

/// Lexicographic order, reflexive.
pub open spec fn bytes_le(a: Seq<u8>, b: Seq<u8>) -> bool {
    a == b || bytes_lt(a, b)
}

/// `key` begins with `prefix`.
pub open spec fn starts_with(key: Seq<u8>, prefix: Seq<u8>) -> bool {
    prefix.len() <= key.len() && key.subrange(0, prefix.len() as int) == prefix
}

/// A set of keys that one scan covers.
pub enum Span {
    /// Every key.
    All,
    /// The keys at or after the given one.
    AtLeast(Seq<u8>),
    /// The keys at or before the given one.
    AtMost(Seq<u8>),
    /// The keys that begin with the given bytes.
    Prefix(Seq<u8>),
}

impl Span {
    /// Whether `key` lies in the span.
    pub open spec fn holds(self, key: Seq<u8>) -> bool {
        match self {
            Span::All => true,
            Span::AtLeast(lo) => bytes_le(lo, key),
            Span::AtMost(hi) => bytes_le(key, hi),
            Span::Prefix(p) => starts_with(key, p),
        }
    }
}

/// The keys of `s` strictly ascend.
pub open spec fn ascending(s: Seq<Entry>) -> bool {
    forall|i: int, j: int| 0 <= i < j < s.len() ==> bytes_lt(#[trigger] s[i].0, #[trigger] s[j].0)
}

/// The keys of `s` strictly descend.
pub open spec fn descending(s: Seq<Entry>) -> bool {
    forall|i: int, j: int| 0 <= i < j < s.len() ==> bytes_lt(#[trigger] s[j].0, #[trigger] s[i].0)
}

/// Every item of `s` is an entry of `m` whose key lies in `span`, and every such
/// entry of `m` is an item of `s`.
pub open spec fn covers(s: Seq<Entry>, m: Map<Seq<u8>, Seq<u8>>, span: Span) -> bool {
    &&& forall|i: int|
        0 <= i < s.len() ==> m.contains_key(#[trigger] s[i].0) && m[s[i].0] == s[i].1 && span.holds(
            s[i].0,
        )
    &&& forall|k: Seq<u8>|
        #[trigger] m.contains_key(k) && span.holds(k) ==> exists|i: int|
            0 <= i < s.len() && #[trigger] s[i].0 == k
}

/// `s` lists the entries of `m` whose key lies in `span`, each once, keys ascending.
pub open spec fn ascending_listing(s: Seq<Entry>, m: Map<Seq<u8>, Seq<u8>>, span: Span) -> bool {
    ascending(s) && covers(s, m, span)
}

/// `s` lists the entries of `m` whose key lies in `span`, each once, keys descending.
pub open spec fn descending_listing(s: Seq<Entry>, m: Map<Seq<u8>, Seq<u8>>, span: Span) -> bool {
    descending(s) && covers(s, m, span)
}

/// What a scan is asked for: the keys to cover, and the direction.
pub struct ScanPlan {
    /// The keys that the scan covers.
    pub span: Span,
    /// Whether greater keys come first.
    pub descending: bool,
}

/// `s` is what a scan of the entries `m` after `plan` hands out, in that order:
/// every entry of `m` whose key the plan covers, each once, in the plan's direction.
pub open spec fn is_scan(s: Seq<Entry>, m: Map<Seq<u8>, Seq<u8>>, plan: ScanPlan) -> bool {
    if plan.descending {
        descending_listing(s, m, plan.span)
    } else {
        ascending_listing(s, m, plan.span)
    }
}

/// No byte string comes before itself.
pub proof fn lemma_lt_irreflexive(a: Seq<u8>)
    ensures
        !bytes_lt(a, a),
    decreases a.len(),
{
    if a.len() > 0 {
        lemma_lt_irreflexive(a.drop_first());
    }
}

/// Of two byte strings, at most one comes before the other.
pub proof fn lemma_lt_asymmetric(a: Seq<u8>, b: Seq<u8>)
    ensures
        !(bytes_lt(a, b) && bytes_lt(b, a)),
    decreases a.len(),
{
    if a.len() > 0 && b.len() > 0 && a[0] == b[0] {
        lemma_lt_asymmetric(a.drop_first(), b.drop_first());
    }
}

/// The order is transitive.
pub proof fn lemma_lt_transitive(a: Seq<u8>, b: Seq<u8>, c: Seq<u8>)
    requires
        bytes_lt(a, b),
        bytes_lt(b, c),
    ensures
        bytes_lt(a, c),
    decreases a.len(),
{
    if a.len() > 0 && a[0] == b[0] && b[0] == c[0] {
        lemma_lt_transitive(a.drop_first(), b.drop_first(), c.drop_first());
    }
}

/// The order is total: two different byte strings are ordered one way or the other.
pub proof fn lemma_lt_total(a: Seq<u8>, b: Seq<u8>)
    ensures
        a == b || bytes_lt(a, b) || bytes_lt(b, a),
    decreases a.len(),
{
    if a.len() > 0 && b.len() > 0 {
        if a[0] == b[0] {
            lemma_lt_total(a.drop_first(), b.drop_first());
            if a.drop_first() == b.drop_first() {
                assert(a =~= seq![a[0]] + a.drop_first());
                assert(b =~= seq![b[0]] + b.drop_first());
            }
        }
    } else if a.len() == 0 && b.len() == 0 {
        assert(a =~= b);
    }
}

/// Read backwards, a scan is the scan of the same entries in the other direction.
pub proof fn lemma_reverse_of_scan(s: Seq<Entry>, m: Map<Seq<u8>, Seq<u8>>, plan: ScanPlan)
    requires
        is_scan(s, m, plan),
    ensures
        is_scan(s.reverse(), m, ScanPlan { span: plan.span, descending: !plan.descending }),
{
    let r = s.reverse();
    assert forall|i: int| 0 <= i < r.len() implies #[trigger] r[i] == s[s.len() - 1 - i] by {}
    assert forall|k: Seq<u8>| #[trigger] m.contains_key(k) && plan.span.holds(k) implies exists|
        i: int,
    |
        0 <= i < r.len() && #[trigger] r[i].0 == k by {
        let i = choose|i: int| 0 <= i < s.len() && #[trigger] s[i].0 == k;
        assert(r[s.len() - 1 - i] == s[i]);
    }
    assert forall|i: int, j: int| 0 <= i < j < r.len() implies if plan.descending {
        bytes_lt(#[trigger] r[i].0, #[trigger] r[j].0)
    } else {
        bytes_lt(r[j].0, r[i].0)
    } by {
        assert(r[i] == s[s.len() - 1 - i] && r[j] == s[s.len() - 1 - j]);
    }
}

} // verus!
