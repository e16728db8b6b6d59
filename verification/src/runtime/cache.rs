use vstd::prelude::*;
use crate::runtime::paging::DecodedBytes;

verus! {

#[derive(Clone, Copy, Debug, PartialEq, Eq, Structural)]
pub enum BodySide {
    Request,
    Response,
}

#[derive(Clone, Copy, Debug, PartialEq, Eq, Structural)]
pub enum BodyRepresentation {
    Raw,
    Decoded,
}

/// What a cached body is cached under: the instance that captured it, the capture and its
/// revision, the side of the exchange and the representation.
#[derive(Clone, Copy, Debug, PartialEq, Eq, Structural)]
pub struct BodyCacheKey {
    pub instance: u64,
    pub capture_id: u64,
    pub capture_revision: u64,
    pub side: BodySide,
    pub representation: BodyRepresentation,
}

/// What happened to a capture, as the capture store reports it.
#[derive(Clone, Copy, Debug, PartialEq, Eq, Structural)]
pub enum CaptureChangeKind {
    Clear,
    RetentionEviction,
    ExplicitDelete,
    Admitted,
    RecordUpdated,
}

#[derive(Clone, Copy, Debug, PartialEq, Eq, Structural)]
pub struct CaptureChange {
    pub epoch: u64,
    pub sequence: u64,
    pub revision: u64,
    pub kind: CaptureChangeKind,
}

/// The change feed lost changes: the ones from `expected_epoch` are no longer available.
#[derive(Clone, Copy, Debug, PartialEq, Eq, Structural)]
pub enum CaptureChangeError {
    Gap { expected_epoch: u64, oldest_available_epoch: u64 },
}

pub struct DecodedView {
    pub bytes: Seq<u8>,
    pub encoding_chain: Seq<Seq<char>>,
    pub output_limited: bool,
}

impl View for DecodedBytes {
    type V = DecodedView;

    open spec fn view(&self) -> DecodedView {
        DecodedView {
            bytes: self.bytes@,
            encoding_chain: self.encoding_chain@.map_values(|s: String| s@),
            output_limited: self.output_limited,
        }
    }
}

fn clone_decoded(d: &DecodedBytes) -> (r: DecodedBytes)
    ensures
        r@ == d@,
{
    let mut chain: Vec<String> = Vec::new();
    let mut i: usize = 0;
    while i < d.encoding_chain.len()
        invariant
            i <= d.encoding_chain.len(),
            chain@.len() == i,
            forall|j: int| 0 <= j < i ==> (#[trigger] chain@[j])@ == d.encoding_chain@[j]@,
        decreases d.encoding_chain.len() - i,
    {
        chain.push(d.encoding_chain[i].clone());
        i = i + 1;
    }
    assert(chain@.map_values(|s: String| s@) =~= d.encoding_chain@.map_values(|s: String| s@));
    DecodedBytes { bytes: d.bytes.clone(), encoding_chain: chain, output_limited: d.output_limited }
}

// ---------------------------------------------------------------- the model

/// A cached body with its key.
pub type Cached = (BodyCacheKey, DecodedView);

/// The bytes that the bodies of `s` take together.
pub open spec fn total(s: Seq<Cached>) -> nat
    decreases s.len(),
{
    if s.len() == 0 {
        0
    } else {
        s[0].1.bytes.len() + total(s.drop_first())
    }
}

/// Whether some body of `s` is cached under `k`.
pub open spec fn has_key(s: Seq<Cached>, k: BodyCacheKey) -> bool {
    exists|i: int| 0 <= i < s.len() && #[trigger] s[i].0 == k
}

/// No key occurs twice in `s`.
pub open spec fn distinct_keys(s: Seq<Cached>) -> bool {
    forall|i: int, j: int| 0 <= i < j < s.len() ==> #[trigger] s[i].0 != #[trigger] s[j].0
}

/// The body cached under `k` in `s`.
pub open spec fn lookup(s: Seq<Cached>, k: BodyCacheKey) -> Option<DecodedView>
    decreases s.len(),
{
    if s.len() == 0 {
        None
    } else if s[0].0 == k {
        Some(s[0].1)
    } else {
        lookup(s.drop_first(), k)
    }
}

/// `s` without the body cached under `k`.
pub open spec fn without(s: Seq<Cached>, k: BodyCacheKey) -> Seq<Cached>
    decreases s.len(),
{
    if s.len() == 0 {
        s
    } else if s[0].0 == k {
        without(s.drop_first(), k)
    } else {
        seq![s[0]] + without(s.drop_first(), k)
    }
}

/// `s`, least recently used first, after its oldest bodies were dropped until the rest
/// fit in `budget` bytes.
pub open spec fn evict(s: Seq<Cached>, budget: nat) -> Seq<Cached>
    decreases s.len(),
{
    if s.len() == 0 || total(s) <= budget {
        s
    } else {
        evict(s.drop_first(), budget)
    }
}

/// Whether a change leaves a body of capture `id` at revision `revision` valid, where
/// `invalidation` is what the changes said of the capture: nothing, that it is gone, or
/// its current revision.
pub open spec fn still_valid(invalidation: Option<Option<u64>>, revision: u64) -> bool {
    match invalidation {
        None => true,
        Some(None) => false,
        Some(Some(current)) => current == revision,
    }
}

/// What the changes `cs`, taken in order, last said of capture `id` since the last clear:
/// nothing, that it is gone, or its current revision.
pub open spec fn invalidation(cs: Seq<CaptureChange>, id: u64) -> Option<Option<u64>>
    decreases cs.len(),
{
    if cs.len() == 0 {
        None
    } else {
        let c = cs.last();
        match c.kind {
            CaptureChangeKind::Clear => None,
            CaptureChangeKind::RetentionEviction | CaptureChangeKind::ExplicitDelete => if c.sequence == id {
                Some(None)
            } else {
                invalidation(cs.drop_last(), id)
            },
            CaptureChangeKind::Admitted | CaptureChangeKind::RecordUpdated => if c.sequence == id {
                Some(Some(c.revision))
            } else {
                invalidation(cs.drop_last(), id)
            },
        }
    }
}

/// Whether one of the changes clears the whole store.
pub open spec fn has_clear(cs: Seq<CaptureChange>) -> bool {
    exists|i: int| 0 <= i < cs.len() && #[trigger] cs[i].kind == CaptureChangeKind::Clear
}

/// The bodies of `s` that the changes `cs` leave valid, in their order.
pub open spec fn retained(s: Seq<Cached>, cs: Seq<CaptureChange>) -> Seq<Cached>
    decreases s.len(),
{
    if s.len() == 0 {
        s
    } else if still_valid(invalidation(cs, s[0].0.capture_id), s[0].0.capture_revision) {
        seq![s[0]] + retained(s.drop_first(), cs)
    } else {
        retained(s.drop_first(), cs)
    }
}

// ---------------------------------------------------------------- the cache

struct CacheEntry {
    key: BodyCacheKey,
    decoded: DecodedBytes,
}

/// The decoded bodies kept for reuse, within a byte budget; the least recently used go
/// first when the budget is exceeded.
pub struct DecodedBodyCache {
    capacity_bytes: usize,
    bytes: usize,
    entries: Vec<CacheEntry>,
}

pub struct CacheView {
    pub capacity: nat,
    pub bytes: nat,
    /// The cached bodies, from the least to the most recently used.
    pub entries: Seq<Cached>,
}

spec fn entry_view(e: CacheEntry) -> Cached {
    (e.key, e.decoded@)
}

impl View for DecodedBodyCache {
    type V = CacheView;

    closed spec fn view(&self) -> CacheView {
        CacheView {
            capacity: self.capacity_bytes as nat,
            bytes: self.bytes as nat,
            entries: self.entries@.map_values(|e: CacheEntry| entry_view(e)),
        }
    }
}

/// A cache that is consistent: one body per key, the byte count the sum of the bodies,
/// and within the budget.
pub open spec fn cache_ok(v: CacheView) -> bool {
    &&& distinct_keys(v.entries)
    &&& v.bytes == total(v.entries)
    &&& v.bytes <= v.capacity
}

impl DecodedBodyCache {
    pub open spec fn wf(&self) -> bool {
        cache_ok(self@)
    }
}

// ---------------------------------------------------------------- lemmas on the model

proof fn lemma_total_push(s: Seq<Cached>, e: Cached)
    ensures
        total(s.push(e)) == total(s) + e.1.bytes.len(),
    decreases s.len(),
{
    if s.len() > 0 {
        assert(s.push(e).drop_first() =~= s.drop_first().push(e));
        lemma_total_push(s.drop_first(), e);
    } else {
        assert(s.push(e).drop_first() =~= s);
    }
}

proof fn lemma_has_key_first(s: Seq<Cached>, k: BodyCacheKey)
    requires
        s.len() > 0,
    ensures
        has_key(s, k) == (s[0].0 == k || has_key(s.drop_first(), k)),
{
    let t = s.drop_first();
    if has_key(s, k) && s[0].0 != k {
        let i = choose|i: int| 0 <= i < s.len() && #[trigger] s[i].0 == k;
        assert(t[i - 1].0 == k);
    }
    if has_key(t, k) {
        let i = choose|i: int| 0 <= i < t.len() && #[trigger] t[i].0 == k;
        assert(s[i + 1].0 == k);
    }
    if s[0].0 == k {
        assert(s[0].0 == k);
    }
}

proof fn lemma_distinct_first(s: Seq<Cached>)
    requires
        s.len() > 0,
    ensures
        distinct_keys(s) == (!has_key(s.drop_first(), s[0].0) && distinct_keys(s.drop_first())),
{
    let t = s.drop_first();
    if distinct_keys(s) {
        assert forall|a: int, b: int| 0 <= a < b < t.len() implies #[trigger] t[a].0 != #[trigger] t[b].0 by {
            assert(t[a] == s[a + 1] && t[b] == s[b + 1]);
        }
        if has_key(t, s[0].0) {
            let i = choose|i: int| 0 <= i < t.len() && #[trigger] t[i].0 == s[0].0;
            assert(s[i + 1].0 == s[0].0);
        }
    }
    if !has_key(t, s[0].0) && distinct_keys(t) {
        assert forall|a: int, b: int| 0 <= a < b < s.len() implies #[trigger] s[a].0 != #[trigger] s[b].0 by {
            if a == 0 {
                assert(t[b - 1] == s[b]);
                if s[b].0 == s[0].0 {
                    assert(t[b - 1].0 == s[0].0);
                }
            } else {
                assert(t[a - 1] == s[a] && t[b - 1] == s[b]);
            }
        }
    }
}

proof fn lemma_lookup(s: Seq<Cached>, k: BodyCacheKey)
    requires
        distinct_keys(s),
    ensures
        has_key(s, k) ==> exists|i: int| 0 <= i < s.len() && s[i].0 == k && lookup(s, k) == Some(#[trigger] s[i].1),
        !has_key(s, k) ==> lookup(s, k) is None,
    decreases s.len(),
{
    if s.len() > 0 {
        let t = s.drop_first();
        lemma_distinct_first(s);
        lemma_has_key_first(s, k);
        lemma_lookup(t, k);
        if s[0].0 == k {
            assert(s[0].0 == k && lookup(s, k) == Some(s[0].1));
        } else if has_key(t, k) {
            let i = choose|i: int| 0 <= i < t.len() && t[i].0 == k && lookup(t, k) == Some(#[trigger] t[i].1);
            assert(s[i + 1] == t[i]);
            assert(s[i + 1].0 == k && lookup(s, k) == Some(s[i + 1].1));
        }
    }
}

proof fn lemma_lookup_at(s: Seq<Cached>, i: int)
    requires
        distinct_keys(s),
        0 <= i < s.len(),
    ensures
        lookup(s, s[i].0) == Some(s[i].1),
    decreases s.len(),
{
    if i > 0 {
        let t = s.drop_first();
        lemma_distinct_first(s);
        assert(t[i - 1] == s[i]);
        assert(s[0].0 != s[i].0);
        lemma_lookup_at(t, i - 1);
    }
}

proof fn lemma_without_absent(s: Seq<Cached>, k: BodyCacheKey)
    requires
        !has_key(s, k),
    ensures
        without(s, k) == s,
    decreases s.len(),
{
    if s.len() > 0 {
        lemma_has_key_first(s, k);
        lemma_without_absent(s.drop_first(), k);
        assert(seq![s[0]] + s.drop_first() =~= s);
    }
}

proof fn lemma_without_at(s: Seq<Cached>, i: int)
    requires
        distinct_keys(s),
        0 <= i < s.len(),
    ensures
        without(s, s[i].0) == s.remove(i),
    decreases s.len(),
{
    let t = s.drop_first();
    lemma_distinct_first(s);
    if i == 0 {
        lemma_without_absent(t, s[0].0);
        assert(s.remove(0) =~= t);
    } else {
        assert(t[i - 1] == s[i]);
        assert(s[0].0 != s[i].0);
        lemma_without_at(t, i - 1);
        assert(seq![s[0]] + t.remove(i - 1) =~= s.remove(i));
    }
}

proof fn lemma_remove_keeps(s: Seq<Cached>, i: int)
    requires
        distinct_keys(s),
        0 <= i < s.len(),
    ensures
        distinct_keys(s.remove(i)),
        !has_key(s.remove(i), s[i].0),
        total(s.remove(i)) + s[i].1.bytes.len() == total(s),
        forall|k: BodyCacheKey| has_key(s.remove(i), k) ==> #[trigger] has_key(s, k),
    decreases s.len(),
{
    let r = s.remove(i);
    assert forall|a: int, b: int| 0 <= a < b < r.len() implies #[trigger] r[a].0 != #[trigger] r[b].0 by {
        let a0 = if a < i { a } else { a + 1 };
        let b0 = if b < i { b } else { b + 1 };
        assert(r[a] == s[a0] && r[b] == s[b0]);
    }
    if has_key(r, s[i].0) {
        let j = choose|j: int| 0 <= j < r.len() && #[trigger] r[j].0 == s[i].0;
        let j0 = if j < i { j } else { j + 1 };
        assert(r[j] == s[j0]);
    }
    assert forall|k: BodyCacheKey| has_key(r, k) implies #[trigger] has_key(s, k) by {
        let j = choose|j: int| 0 <= j < r.len() && #[trigger] r[j].0 == k;
        let j0 = if j < i { j } else { j + 1 };
        assert(r[j] == s[j0]);
    }
    let t = s.drop_first();
    lemma_distinct_first(s);
    if i == 0 {
        assert(r =~= t);
    } else {
        lemma_remove_keeps(t, i - 1);
        assert(t[i - 1] == s[i]);
        assert(r =~= seq![s[0]] + t.remove(i - 1));
        assert((seq![s[0]] + t.remove(i - 1)).drop_first() =~= t.remove(i - 1));
    }
}

proof fn lemma_push_new(s: Seq<Cached>, e: Cached)
    requires
        distinct_keys(s),
        !has_key(s, e.0),
    ensures
        distinct_keys(s.push(e)),
        total(s.push(e)) == total(s) + e.1.bytes.len(),
{
    let r = s.push(e);
    assert forall|a: int, b: int| 0 <= a < b < r.len() implies #[trigger] r[a].0 != #[trigger] r[b].0 by {
        if b == s.len() {
            assert(r[a] == s[a]);
            if s[a].0 == e.0 {
                assert(has_key(s, e.0));
            }
        } else {
            assert(r[a] == s[a] && r[b] == s[b]);
        }
    }
    lemma_total_push(s, e);
}

proof fn lemma_evict_push(s: Seq<Cached>, e: Cached, budget: nat)
    requires
        e.1.bytes.len() <= budget,
    ensures
        evict(s.push(e), budget) == evict(s, (budget - e.1.bytes.len()) as nat).push(e),
    decreases s.len(),
{
    let room = (budget - e.1.bytes.len()) as nat;
    lemma_total_push(s, e);
    if s.len() == 0 {
        assert(total(s) == 0);
    } else if total(s) <= room {
    } else {
        assert(s.push(e).drop_first() =~= s.drop_first().push(e));
        lemma_evict_push(s.drop_first(), e, budget);
    }
}

proof fn lemma_evict_front(s: Seq<Cached>, budget: nat)
    requires
        total(s) > budget,
    ensures
        s.len() > 0,
        evict(s, budget) == evict(s.drop_first(), budget),
        total(s) == s[0].1.bytes.len() + total(s.drop_first()),
{
}

proof fn lemma_keys_first_drop(s: Seq<Cached>)
    requires
        distinct_keys(s),
        s.len() > 0,
    ensures
        distinct_keys(s.drop_first()),
        forall|k: BodyCacheKey| has_key(s.drop_first(), k) ==> #[trigger] has_key(s, k),
{
    lemma_distinct_first(s);
    assert forall|k: BodyCacheKey| has_key(s.drop_first(), k) implies #[trigger] has_key(s, k) by {
        lemma_has_key_first(s, k);
    }
}

proof fn lemma_retained(s: Seq<Cached>, cs: Seq<CaptureChange>)
    requires
        distinct_keys(s),
    ensures
        distinct_keys(retained(s, cs)),
        total(retained(s, cs)) <= total(s),
        forall|k: BodyCacheKey| has_key(retained(s, cs), k) ==> #[trigger] has_key(s, k),
    decreases s.len(),
{
    if s.len() > 0 {
        let t = s.drop_first();
        let rt = retained(t, cs);
        lemma_keys_first_drop(s);
        lemma_distinct_first(s);
        lemma_retained(t, cs);
        if still_valid(invalidation(cs, s[0].0.capture_id), s[0].0.capture_revision) {
            let r = seq![s[0]] + rt;
            assert(r[0] == s[0]);
            assert(r.drop_first() =~= rt);
            lemma_distinct_first(r);
            assert forall|k: BodyCacheKey| has_key(r, k) implies #[trigger] has_key(s, k) by {
                lemma_has_key_first(r, k);
                lemma_has_key_first(s, k);
            }
        }
    }
}

proof fn lemma_evict_keeps(s: Seq<Cached>, budget: nat)
    requires
        distinct_keys(s),
    ensures
        distinct_keys(evict(s, budget)),
        total(evict(s, budget)) <= budget || evict(s, budget).len() == 0,
        forall|k: BodyCacheKey| has_key(evict(s, budget), k) ==> #[trigger] has_key(s, k),
    decreases s.len(),
{
    if s.len() > 0 && total(s) > budget {
        lemma_keys_first_drop(s);
        lemma_evict_keeps(s.drop_first(), budget);
    }
}

proof fn lemma_evict_subset(s: Seq<Cached>, budget: nat, k: BodyCacheKey)
    requires
        has_key(evict(s, budget), k),
    ensures
        has_key(s, k),
    decreases s.len(),
{
    if s.len() > 0 && total(s) > budget {
        lemma_evict_subset(s.drop_first(), budget, k);
        lemma_has_key_first(s, k);
    }
}

/// A body that fits the budget is found in the cache right after it was inserted.
pub proof fn lemma_insert_then_lookup(s: Seq<Cached>, key: BodyCacheKey, d: DecodedView, budget: nat)
    requires
        d.bytes.len() <= budget,
    ensures
        lookup(evict(without(s, key).push((key, d)), budget), key) == Some(d),
{
    let room = (budget - d.bytes.len()) as nat;
    lemma_evict_push(without(s, key), (key, d), budget);
    lemma_without_removes(s, key);
    if has_key(evict(without(s, key), room), key) {
        lemma_evict_subset(without(s, key), room, key);
    }
    lemma_lookup_last(evict(without(s, key), room), key, d);
}

proof fn lemma_lookup_last(s: Seq<Cached>, key: BodyCacheKey, d: DecodedView)
    ensures
        lookup(s.push((key, d)), key) == if has_key(s, key) { lookup(s, key) } else { Some(d) },
    decreases s.len(),
{
    if s.len() == 0 {
        assert(s.push((key, d))[0] == (key, d));
        assert(!has_key(s, key));
    } else {
        lemma_has_key_first(s, key);
        assert(s.push((key, d)).drop_first() =~= s.drop_first().push((key, d)));
        lemma_lookup_last(s.drop_first(), key, d);
    }
}

proof fn lemma_without_removes(s: Seq<Cached>, k: BodyCacheKey)
    ensures
        !has_key(without(s, k), k),
    decreases s.len(),
{
    if s.len() > 0 {
        lemma_without_removes(s.drop_first(), k);
        if s[0].0 != k {
            let r = seq![s[0]] + without(s.drop_first(), k);
            assert(r[0] == s[0]);
            assert(r.drop_first() =~= without(s.drop_first(), k));
            lemma_has_key_first(r, k);
        }
    }
}

proof fn lemma_total_concat(a: Seq<Cached>, b: Seq<Cached>)
    ensures
        total(a + b) == total(a) + total(b),
    decreases a.len(),
{
    if a.len() == 0 {
        assert(a + b =~= b);
    } else {
        assert((a + b).drop_first() =~= a.drop_first() + b);
        lemma_total_concat(a.drop_first(), b);
    }
}

/// A body stays in the cache through capture changes exactly when it was cached and the
/// changes leave its capture at its revision.
pub proof fn lemma_retained_keys(s: Seq<Cached>, cs: Seq<CaptureChange>, k: BodyCacheKey)
    ensures
        has_key(retained(s, cs), k) == (has_key(s, k) && still_valid(
            invalidation(cs, k.capture_id),
            k.capture_revision,
        )),
    decreases s.len(),
{
    if s.len() > 0 {
        let t = s.drop_first();
        lemma_retained_keys(t, cs, k);
        lemma_has_key_first(s, k);
        if still_valid(invalidation(cs, s[0].0.capture_id), s[0].0.capture_revision) {
            let r = seq![s[0]] + retained(t, cs);
            assert(r[0] == s[0]);
            assert(r.drop_first() =~= retained(t, cs));
            lemma_has_key_first(r, k);
        }
    } else {
        assert(!has_key(s, k));
    }
}

proof fn lemma_lookup_absent(s: Seq<Cached>, k: BodyCacheKey)
    requires
        !has_key(s, k),
    ensures
        lookup(s, k) is None,
    decreases s.len(),
{
    if s.len() > 0 {
        lemma_has_key_first(s, k);
        lemma_lookup_absent(s.drop_first(), k);
    }
}

proof fn lemma_lookup_push_other(s: Seq<Cached>, e: Cached, k: BodyCacheKey)
    requires
        e.0 != k,
    ensures
        lookup(s.push(e), k) == lookup(s, k),
    decreases s.len(),
{
    if s.len() == 0 {
        assert(s.push(e).drop_first() =~= s);
    } else {
        assert(s.push(e).drop_first() =~= s.drop_first().push(e));
        lemma_lookup_push_other(s.drop_first(), e, k);
    }
}

proof fn lemma_without_lookup(s: Seq<Cached>, key: BodyCacheKey, k: BodyCacheKey)
    ensures
        lookup(without(s, key), k) == if k == key { None } else { lookup(s, k) },
    decreases s.len(),
{
    if k == key {
        lemma_without_removes(s, key);
        lemma_lookup_absent(without(s, key), key);
    } else if s.len() > 0 {
        lemma_without_lookup(s.drop_first(), key, k);
        if s[0].0 != key {
            let w = without(s.drop_first(), key);
            assert((seq![s[0]] + w)[0] == s[0]);
            assert((seq![s[0]] + w).drop_first() =~= w);
        }
    }
}

proof fn lemma_without_distinct(s: Seq<Cached>, key: BodyCacheKey)
    requires
        distinct_keys(s),
    ensures
        distinct_keys(without(s, key)),
{
    if has_key(s, key) {
        let i = choose|i: int| 0 <= i < s.len() && #[trigger] s[i].0 == key;
        lemma_without_at(s, i);
        lemma_remove_keeps(s, i);
    } else {
        lemma_without_absent(s, key);
    }
}

/// Dropping the oldest bodies keeps every other body as it was.
proof fn lemma_evict_lookup(s: Seq<Cached>, budget: nat, k: BodyCacheKey)
    requires
        distinct_keys(s),
    ensures
        lookup(evict(s, budget), k) is None || lookup(evict(s, budget), k) == lookup(s, k),
    decreases s.len(),
{
    if s.len() > 0 && total(s) > budget {
        let t = s.drop_first();
        lemma_keys_first_drop(s);
        lemma_distinct_first(s);
        lemma_evict_lookup(t, budget, k);
        if s[0].0 == k {
            lemma_lookup_absent(t, k);
            if lookup(evict(t, budget), k) is Some {
                assert(lookup(t, k) is None);
            }
        }
    }
}

proof fn lemma_retained_lookup(s: Seq<Cached>, cs: Seq<CaptureChange>, k: BodyCacheKey)
    requires
        distinct_keys(s),
    ensures
        lookup(retained(s, cs), k) is None || lookup(retained(s, cs), k) == lookup(s, k),
    decreases s.len(),
{
    if s.len() > 0 {
        let t = s.drop_first();
        lemma_keys_first_drop(s);
        lemma_distinct_first(s);
        lemma_retained_lookup(t, cs, k);
        if s[0].0 == k {
            lemma_lookup_absent(t, k);
        }
        if still_valid(invalidation(cs, s[0].0.capture_id), s[0].0.capture_revision) {
            let r = seq![s[0]] + retained(t, cs);
            assert(r[0] == s[0]);
            assert(r.drop_first() =~= retained(t, cs));
        }
    }
}

/// What each operation does to the body cached under a key `k`: a read, a removal under
/// another key, a capture change and an insert under another key never change it, they at
/// most drop it; a read keeps every body; a removal under `k` drops it.
pub proof fn lemma_operations_only_drop_bodies(
    s: Seq<Cached>,
    key: BodyCacheKey,
    d: DecodedView,
    budget: nat,
    cs: Seq<CaptureChange>,
    k: BodyCacheKey,
)
    requires
        distinct_keys(s),
    ensures
        lookup(without(s, key), k) == if k == key { None } else { lookup(s, k) },
        k != key ==> ({
            let after = evict(without(s, key).push((key, d)), budget);
            lookup(after, k) is None || lookup(after, k) == lookup(s, k)
        }),
        lookup(retained(s, cs), k) is None || lookup(retained(s, cs), k) == lookup(s, k),
        lookup(s, key) matches Some(e) ==> lookup(without(s, key).push((key, e)), k) == lookup(s, k),
{
    lemma_without_lookup(s, key, k);
    lemma_retained_lookup(s, cs, k);
    lemma_without_distinct(s, key);
    lemma_without_removes(s, key);
    if k != key {
        lemma_push_new(without(s, key), (key, d));
        lemma_evict_lookup(without(s, key).push((key, d)), budget, k);
        lemma_lookup_push_other(without(s, key), (key, d), k);
    }
    if let Some(e) = lookup(s, key) {
        if k != key {
            lemma_lookup_push_other(without(s, key), (key, e), k);
        } else {
            lemma_lookup_last(without(s, key), key, e);
        }
    }
}

// ---------------------------------------------------------------- sequences of operations

/// An operation on the cache, as it changes the cached bodies.
pub enum CacheOp {
    /// `insert_decoded` (and `insert`) of a body under a key.
    Insert(BodyCacheKey, DecodedView),
    /// `get_decoded` (and `get`) under a key.
    Get(BodyCacheKey),
    /// `remove` under a key.
    Remove(BodyCacheKey),
    /// `apply_changes` (and `apply_change`) with these capture changes.
    Changes(Seq<CaptureChange>),
    /// `clear` and `apply_feed_error`.
    Clear,
}

/// The bodies, least recently used first, after one operation on `s` within `budget` bytes.
pub open spec fn apply_op(s: Seq<Cached>, op: CacheOp, budget: nat) -> Seq<Cached> {
    match op {
        CacheOp::Insert(k, d) => if d.bytes.len() > budget {
            without(s, k)
        } else {
            evict(without(s, k).push((k, d)), budget)
        },
        CacheOp::Get(k) => match lookup(s, k) {
            Some(d) => without(s, k).push((k, d)),
            None => s,
        },
        CacheOp::Remove(k) => without(s, k),
        CacheOp::Changes(cs) => retained(if has_clear(cs) { Seq::<Cached>::empty() } else { s }, cs),
        CacheOp::Clear => Seq::<Cached>::empty(),
    }
}

/// The bodies after the operations `ops`, taken in order from `s`.
pub open spec fn run_ops(s: Seq<Cached>, ops: Seq<CacheOp>, budget: nat) -> Seq<Cached>
    decreases ops.len(),
{
    if ops.len() == 0 {
        s
    } else {
        apply_op(run_ops(s, ops.drop_last(), budget), ops.last(), budget)
    }
}

/// The body last inserted under `k` by the operations `ops`, if any was.
pub open spec fn last_inserted(ops: Seq<CacheOp>, k: BodyCacheKey) -> Option<DecodedView>
    decreases ops.len(),
{
    if ops.len() == 0 {
        None
    } else {
        match ops.last() {
            CacheOp::Insert(key, d) => if key == k { Some(d) } else { last_inserted(ops.drop_last(), k) },
            _ => last_inserted(ops.drop_last(), k),
        }
    }
}

proof fn lemma_apply_op_distinct(s: Seq<Cached>, op: CacheOp, budget: nat)
    requires
        distinct_keys(s),
    ensures
        distinct_keys(apply_op(s, op, budget)),
{
    match op {
        CacheOp::Insert(k, d) => {
            lemma_without_distinct(s, k);
            lemma_without_removes(s, k);
            lemma_push_new(without(s, k), (k, d));
            lemma_evict_keeps(without(s, k).push((k, d)), budget);
        },
        CacheOp::Get(k) => {
            lemma_without_distinct(s, k);
            lemma_without_removes(s, k);
            if let Some(d) = lookup(s, k) {
                lemma_push_new(without(s, k), (k, d));
            }
        },
        CacheOp::Remove(k) => lemma_without_distinct(s, k),
        CacheOp::Changes(cs) => {
            if has_clear(cs) {
                lemma_retained(Seq::<Cached>::empty(), cs);
            } else {
                lemma_retained(s, cs);
            }
        },
        CacheOp::Clear => {},
    }
}

/// A read after any sequence of operations gives the body last inserted under its key, or,
/// where none was, the body cached under it at the start, unless that body was dropped
/// since (by a removal, a capture change, a clear, or eviction to make room). From an empty
/// cache, a read finds nothing or the body last inserted under its key.
pub proof fn lemma_read_after_operations(s: Seq<Cached>, ops: Seq<CacheOp>, budget: nat, k: BodyCacheKey)
    requires
        distinct_keys(s),
    ensures
        distinct_keys(run_ops(s, ops, budget)),
        lookup(run_ops(s, ops, budget), k) is None || lookup(run_ops(s, ops, budget), k) == match last_inserted(ops, k) {
            Some(d) => Some(d),
            None => lookup(s, k),
        },
    decreases ops.len(),
{
    if ops.len() > 0 {
        let before = ops.drop_last();
        let t = run_ops(s, before, budget);
        lemma_read_after_operations(s, before, budget, k);
        lemma_apply_op_distinct(t, ops.last(), budget);
        match ops.last() {
            CacheOp::Insert(key, d) => {
                lemma_operations_only_drop_bodies(t, key, d, budget, Seq::empty(), k);
                if key == k && d.bytes.len() <= budget {
                    lemma_insert_then_lookup(t, key, d, budget);
                }
            },
            CacheOp::Get(key) => {
                lemma_operations_only_drop_bodies(t, key, DecodedView { bytes: Seq::empty(), encoding_chain: Seq::empty(), output_limited: false }, budget, Seq::empty(), k);
            },
            CacheOp::Remove(key) => {
                lemma_operations_only_drop_bodies(t, key, DecodedView { bytes: Seq::empty(), encoding_chain: Seq::empty(), output_limited: false }, budget, Seq::empty(), k);
            },
            CacheOp::Changes(cs) => {
                if has_clear(cs) {
                    lemma_lookup_absent(retained(Seq::<Cached>::empty(), cs), k);
                    lemma_retained(Seq::<Cached>::empty(), cs);
                } else {
                    lemma_operations_only_drop_bodies(t, k, DecodedView { bytes: Seq::empty(), encoding_chain: Seq::empty(), output_limited: false }, budget, cs, k);
                }
            },
            CacheOp::Clear => {},
        }
    }
}

/// What the changes last said of capture `id`, found from the newest change back.
fn invalidation_of(changes: &Vec<CaptureChange>, id: u64) -> (r: Option<Option<u64>>)
    ensures
        r == invalidation(changes@, id),
{
    let mut i: usize = changes.len();
    assert(changes@.take(i as int) =~= changes@);
    while i > 0
        invariant
            i <= changes@.len(),
            invalidation(changes@, id) == invalidation(changes@.take(i as int), id),
        decreases i,
    {
        let c = changes[i - 1];
        proof {
            let t = changes@.take(i as int);
            assert(t.last() == c);
            assert(t.drop_last() =~= changes@.take(i - 1));
        }
        match c.kind {
            CaptureChangeKind::Clear => {
                return None;
            },
            CaptureChangeKind::RetentionEviction | CaptureChangeKind::ExplicitDelete => {
                if c.sequence == id {
                    return Some(None);
                }
            },
            CaptureChangeKind::Admitted | CaptureChangeKind::RecordUpdated => {
                if c.sequence == id {
                    return Some(Some(c.revision));
                }
            },
        }
        i = i - 1;
    }
    None
}

fn any_clear(changes: &Vec<CaptureChange>) -> (r: bool)
    ensures
        r == has_clear(changes@),
{
    let mut i: usize = 0;
    while i < changes.len()
        invariant
            i <= changes@.len(),
            forall|j: int| 0 <= j < i ==> changes@[j].kind != CaptureChangeKind::Clear,
        decreases changes.len() - i,
    {
        if changes[i].kind == CaptureChangeKind::Clear {
            return true;
        }
        i = i + 1;
    }
    false
}

fn is_still_valid(invalidation: Option<Option<u64>>, revision: u64) -> (r: bool)
    ensures
        r == still_valid(invalidation, revision),
{
    match invalidation {
        None => true,
        Some(None) => false,
        Some(Some(current)) => current == revision,
    }
}

// ---------------------------------------------------------------- operations

impl DecodedBodyCache {
    proof fn lemma_view_remove(&self, i: int, r: Seq<CacheEntry>)
        requires
            0 <= i < self.entries@.len(),
            r == self.entries@.remove(i),
        ensures
            r.map_values(|e: CacheEntry| entry_view(e)) == self@.entries.remove(i),
    {
        assert(r.map_values(|e: CacheEntry| entry_view(e)) =~= self@.entries.remove(i));
    }

    /// An empty cache with a budget of `capacity_bytes`.
    pub fn new(capacity_bytes: usize) -> (r: Self)
        ensures
            r.wf(),
            r@.capacity == capacity_bytes,
            r@.entries == Seq::<Cached>::empty(),
    {
        let r = DecodedBodyCache { capacity_bytes, bytes: 0, entries: Vec::new() };
        assert(r@.entries =~= Seq::<Cached>::empty());
        r
    }

    /// How many bodies are cached and how many bytes they take.
    pub fn snapshot(&self) -> (r: (usize, usize))
        ensures
            r.0 == self@.entries.len(),
            r.1 == self@.bytes,
    {
        (self.entries.len(), self.bytes)
    }

    fn find(&self, key: &BodyCacheKey) -> (r: Option<usize>)
        requires
            self.wf(),
        ensures
            match r {
                Some(i) => i < self@.entries.len() && self@.entries[i as int].0 == *key,
                None => !has_key(self@.entries, *key),
            },
    {
        let mut i: usize = 0;
        while i < self.entries.len()
            invariant
                i <= self.entries@.len(),
                self@.entries.len() == self.entries@.len(),
                forall|j: int| 0 <= j < i ==> self@.entries[j].0 != *key,
            decreases self.entries.len() - i,
        {
            assert(self@.entries[i as int] == entry_view(self.entries@[i as int]));
            if self.entries[i].key == *key {
                return Some(i);
            }
            i = i + 1;
        }
        None
    }

    /// The body cached under `key`, which now counts as the most recently used.
    pub fn get_decoded(&mut self, key: &BodyCacheKey) -> (r: Option<DecodedBytes>)
        requires
            old(self).wf(),
        ensures
            final(self).wf(),
            final(self)@.capacity == old(self)@.capacity,
            final(self)@.entries == apply_op(old(self)@.entries, CacheOp::Get(*key), old(self)@.capacity),
            match r {
                Some(d) => {
                    &&& lookup(old(self)@.entries, *key) == Some(d@)
                    &&& final(self)@.entries == without(old(self)@.entries, *key).push((*key, d@))
                },
                None => lookup(old(self)@.entries, *key) is None && final(self)@ == old(self)@,
            },
    {
        let ghost before = self@.entries;
        let i = match self.find(key) {
            Some(i) => i,
            None => {
                proof {
                    lemma_lookup(before, *key);
                }
                return None;
            },
        };
        proof {
            self.lemma_view_remove(i as int, self.entries@.remove(i as int));
            lemma_lookup_at(before, i as int);
            lemma_without_at(before, i as int);
            lemma_remove_keeps(before, i as int);
        }
        let e = self.entries.remove(i);
        let decoded = clone_decoded(&e.decoded);
        proof {
            lemma_push_new(before.remove(i as int), entry_view(e));
        }
        self.entries.push(e);
        proof {
            assert(self@.entries =~= before.remove(i as int).push(entry_view(e)));
        }
        Some(decoded)
    }

    /// The bytes of the body cached under `key`, which now counts as the most recently used.
    pub fn get(&mut self, key: &BodyCacheKey) -> (r: Option<Vec<u8>>)
        requires
            old(self).wf(),
        ensures
            final(self).wf(),
            final(self)@.capacity == old(self)@.capacity,
            final(self)@.entries == apply_op(old(self)@.entries, CacheOp::Get(*key), old(self)@.capacity),
            match lookup(old(self)@.entries, *key) {
                Some(d) => r is Some && r->0@ == d.bytes && final(self)@.entries == without(old(self)@.entries, *key).push((*key, d)),
                None => r is None && final(self)@ == old(self)@,
            },
    {
        match self.get_decoded(key) {
            Some(d) => Some(d.bytes),
            None => None,
        }
    }

    /// Drops what is cached under `key`.
    pub fn remove(&mut self, key: &BodyCacheKey)
        requires
            old(self).wf(),
        ensures
            final(self).wf(),
            final(self)@.capacity == old(self)@.capacity,
            final(self)@.entries == apply_op(old(self)@.entries, CacheOp::Remove(*key), old(self)@.capacity),
            final(self)@.entries == without(old(self)@.entries, *key),
    {
        let ghost before = self@.entries;
        match self.find(key) {
            Some(i) => {
                proof {
                    self.lemma_view_remove(i as int, self.entries@.remove(i as int));
                    lemma_without_at(before, i as int);
                    lemma_remove_keeps(before, i as int);
                    assert(self@.entries[i as int] == entry_view(self.entries@[i as int]));
                }
                let gone = self.entries.remove(i);
                self.bytes = self.bytes - gone.decoded.bytes.len();
            },
            None => {
                proof {
                    lemma_without_absent(before, *key);
                }
            },
        }
    }

    /// Drops every cached body.
    pub fn clear(&mut self)
        requires
            old(self).wf(),
        ensures
            final(self).wf(),
            final(self)@.capacity == old(self)@.capacity,
            final(self)@.entries == apply_op(old(self)@.entries, CacheOp::Clear, old(self)@.capacity),
            final(self)@.entries == Seq::<Cached>::empty(),
    {
        self.entries = Vec::new();
        self.bytes = 0;
        assert(self@.entries =~= Seq::<Cached>::empty());
    }

    /// Caches `decoded` under `key` as the most recently used body, in place of what was
    /// cached under it. A body larger than the whole budget is not kept; otherwise the
    /// least recently used bodies go until the rest fit the budget.
    pub fn insert_decoded(&mut self, key: BodyCacheKey, decoded: DecodedBytes)
        requires
            old(self).wf(),
        ensures
            final(self).wf(),
            final(self)@.capacity == old(self)@.capacity,
            final(self)@.entries == apply_op(old(self)@.entries, CacheOp::Insert(key, decoded@), old(self)@.capacity),
            final(self)@.entries == if decoded@.bytes.len() > old(self)@.capacity {
                without(old(self)@.entries, key)
            } else {
                evict(without(old(self)@.entries, key).push((key, decoded@)), old(self)@.capacity)
            },
    {
        self.remove(&key);
        let len = decoded.bytes.len();
        if len > self.capacity_bytes {
            return;
        }
        let room = self.capacity_bytes - len;
        let ghost rest = self@.entries;
        proof {
            lemma_without_removes(old(self)@.entries, key);
        }
        while self.bytes > room
            invariant
                self.wf(),
                self@.capacity == old(self)@.capacity,
                room == self.capacity_bytes - len,
                evict(self@.entries, room as nat) == evict(rest, room as nat),
                forall|k: BodyCacheKey| has_key(self@.entries, k) ==> #[trigger] has_key(rest, k),
            decreases self.entries.len(),
        {
            proof {
                lemma_evict_front(self@.entries, room as nat);
                self.lemma_view_remove(0, self.entries@.remove(0));
                lemma_remove_keeps(self@.entries, 0);
                assert(self@.entries.remove(0) =~= self@.entries.drop_first());
                assert(self@.entries[0] == entry_view(self.entries@[0]));
            }
            let gone = self.entries.remove(0);
            self.bytes = self.bytes - gone.decoded.bytes.len();
        }
        proof {
            let cur = self@.entries;
            assert(evict(cur, room as nat) == cur);
            lemma_evict_push(rest, (key, decoded@), self@.capacity);
            if has_key(cur, key) {
                assert(has_key(rest, key));
            }
            lemma_push_new(cur, (key, decoded@));
        }
        let ghost cur = self@.entries;
        self.entries.push(CacheEntry { key, decoded });
        self.bytes = self.bytes + len;
        proof {
            assert(self@.entries =~= cur.push((key, decoded@)));
        }
    }

    /// Caches `bytes` under `key`, with no content coding recorded.
    pub fn insert(&mut self, key: BodyCacheKey, bytes: Vec<u8>)
        requires
            old(self).wf(),
        ensures
            final(self).wf(),
            final(self)@.capacity == old(self)@.capacity,
            final(self)@.entries == apply_op(old(self)@.entries, CacheOp::Insert(key, DecodedView { bytes: bytes@, encoding_chain: Seq::empty(), output_limited: false }), old(self)@.capacity),
            final(self)@.entries == if bytes@.len() > old(self)@.capacity {
                without(old(self)@.entries, key)
            } else {
                evict(
                    without(old(self)@.entries, key).push(
                        (key, DecodedView { bytes: bytes@, encoding_chain: Seq::empty(), output_limited: false }),
                    ),
                    old(self)@.capacity,
                )
            },
    {
        let d = DecodedBytes { bytes, encoding_chain: Vec::new(), output_limited: false };
        proof {
            assert(d@.encoding_chain =~= Seq::<Seq<char>>::empty());
        }
        self.insert_decoded(key, d);
    }
    /// Drops the bodies that the capture changes made obsolete: all of them where the
    /// store was cleared, and those of a capture that is gone or whose revision moved on.
    pub fn apply_changes(&mut self, changes: &Vec<CaptureChange>)
        requires
            old(self).wf(),
        ensures
            final(self).wf(),
            final(self)@.capacity == old(self)@.capacity,
            final(self)@.entries == apply_op(old(self)@.entries, CacheOp::Changes(changes@), old(self)@.capacity),
            final(self)@.entries == retained(
                if has_clear(changes@) { Seq::<Cached>::empty() } else { old(self)@.entries },
                changes@,
            ),
    {
        if any_clear(changes) {
            self.clear();
        }
        let ghost start = self@.entries;
        let mut taken: Vec<CacheEntry> = Vec::new();
        std::mem::swap(&mut taken, &mut self.entries);
        let ghost total_before = self.bytes as nat;
        self.bytes = 0;
        let mut kept: Vec<CacheEntry> = Vec::new();
        let mut kept_bytes: usize = 0;
        proof {
            lemma_retained(start, changes@);
            assert(taken@.map_values(|e: CacheEntry| entry_view(e)) == start);
            assert(kept@.map_values(|e: CacheEntry| entry_view(e)) + retained(start, changes@) =~= retained(start, changes@));
        }
        while taken.len() > 0
            invariant
                self.wf(),
                self@.capacity == old(self)@.capacity,
                self@.entries.len() == 0,
                total(retained(start, changes@)) <= total_before <= self@.capacity,
                distinct_keys(retained(start, changes@)),
                kept@.map_values(|e: CacheEntry| entry_view(e)) + retained(
                    taken@.map_values(|e: CacheEntry| entry_view(e)),
                    changes@,
                ) == retained(start, changes@),
                kept_bytes == total(kept@.map_values(|e: CacheEntry| entry_view(e))),
            decreases taken.len(),
        {
            let ghost tv = taken@.map_values(|e: CacheEntry| entry_view(e));
            let ghost kv = kept@.map_values(|e: CacheEntry| entry_view(e));
            let e = taken.remove(0);
            proof {
                assert(tv[0] == entry_view(e));
                assert(taken@.map_values(|e: CacheEntry| entry_view(e)) =~= tv.drop_first());
                lemma_total_concat(kv, retained(tv, changes@));
            }
            let keep = is_still_valid(invalidation_of(changes, e.key.capture_id), e.key.capture_revision);
            if keep {
                let ghost rest = retained(tv.drop_first(), changes@);
                proof {
                    assert(kv.push(entry_view(e)) + rest =~= kv + (seq![entry_view(e)] + rest));
                    lemma_total_push(kv, entry_view(e));
                    lemma_total_concat(kv.push(entry_view(e)), rest);
                }
                kept_bytes = kept_bytes + e.decoded.bytes.len();
                kept.push(e);
                proof {
                    assert(kept@.map_values(|e: CacheEntry| entry_view(e)) =~= kv.push(entry_view(e)));
                }
            }
        }
        proof {
            let kv = kept@.map_values(|e: CacheEntry| entry_view(e));
            assert(kv + retained(Seq::<Cached>::empty(), changes@) =~= kv);
            assert(taken@.map_values(|e: CacheEntry| entry_view(e)) =~= Seq::<Cached>::empty());
        }
        self.entries = kept;
        self.bytes = kept_bytes;
    }

    /// Applies one capture change.
    pub fn apply_change(&mut self, change: CaptureChange)
        requires
            old(self).wf(),
        ensures
            final(self).wf(),
            final(self)@.capacity == old(self)@.capacity,
            final(self)@.entries == apply_op(old(self)@.entries, CacheOp::Changes(seq![change]), old(self)@.capacity),
            final(self)@.entries == retained(
                if has_clear(seq![change]) { Seq::<Cached>::empty() } else { old(self)@.entries },
                seq![change],
            ),
    {
        let changes = vec![change];
        assert(changes@ =~= seq![change]);
        self.apply_changes(&changes);
    }

    /// The change feed lost changes, so nothing cached can be trusted: drops every body.
    pub fn apply_feed_error(&mut self, error: CaptureChangeError)
        requires
            old(self).wf(),
        ensures
            final(self).wf(),
            final(self)@.capacity == old(self)@.capacity,
            final(self)@.entries == apply_op(old(self)@.entries, CacheOp::Clear, old(self)@.capacity),
            final(self)@.entries == Seq::<Cached>::empty(),
    {
        let _ = error;
        self.clear();
    }
}

} // verus!
