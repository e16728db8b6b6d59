use vstd::prelude::*;

verus! {

/// The most captures one search batch holds.
pub const CAPTURE_SEARCH_BATCH_SIZE: usize = 32;

/// The sequence numbers of the retained captures, oldest first, each once.
pub open spec fn strictly_ascending(s: Seq<u64>) -> bool {
    forall|i: int, j: int| 0 <= i < j < s.len() ==> s[i] < s[j]
}

/// The captures of `s` at or before sequence `cursor`, newest first.
pub open spec fn at_or_before(s: Seq<u64>, cursor: u64) -> Seq<u64>
    decreases s.len(),
{
    if s.len() == 0 {
        s
    } else if s.last() <= cursor {
        seq![s.last()] + at_or_before(s.drop_last(), cursor)
    } else {
        at_or_before(s.drop_last(), cursor)
    }
}

/// One batch of a capture search: the newest captures at or before the cursor (all of them
/// without one), at most `max_rows` and at most a batch's size; and the cursor of the next
/// batch, just before the last capture of this one, where older captures remain.
pub open spec fn batch_spec(retained: Seq<u64>, cursor: Option<u64>, max_rows: usize) -> (Seq<u64>, Option<u64>) {
    let all = at_or_before(
        retained,
        match cursor {
            Some(c) => c,
            None => u64::MAX,
        },
    );
    let limit = if max_rows < CAPTURE_SEARCH_BATCH_SIZE { max_rows } else { CAPTURE_SEARCH_BATCH_SIZE };
    let n: int = if (limit as int) < all.len() { limit as int } else { all.len() as int };
    let rows = all.take(n);
    (rows, if 0 < n < all.len() && rows.last() > 0 { Some((rows.last() - 1) as u64) } else { None })
}

proof fn lemma_any_at_or_before(s: Seq<u64>, cursor: u64)
    requires
        strictly_ascending(s),
    ensures
        (at_or_before(s, cursor).len() > 0) == (s.len() > 0 && s[0] <= cursor),
    decreases s.len(),
{
    if s.len() > 0 {
        let t = s.drop_last();
        assert(strictly_ascending(t));
        lemma_any_at_or_before(t, cursor);
        if s.len() > 1 {
            assert(t[0] == s[0]);
            assert(s[0] < s[s.len() - 1]);
        }
    }
}

/// One batch of a capture search over the retained captures, as `batch_spec` describes.
pub fn capture_search_batch(retained: &Vec<u64>, cursor: Option<u64>, max_rows: usize) -> (r: (Vec<u64>, Option<u64>))
    requires
        strictly_ascending(retained@),
    ensures
        (r.0@, r.1) == batch_spec(retained@, cursor, max_rows),
{
    let limit = if max_rows < CAPTURE_SEARCH_BATCH_SIZE { max_rows } else { CAPTURE_SEARCH_BATCH_SIZE };
    let c = match cursor {
        Some(c) => c,
        None => u64::MAX,
    };
    let ghost all = at_or_before(retained@, c);
    let mut rows: Vec<u64> = Vec::new();
    let mut i: usize = retained.len();
    proof {
        assert(retained@.take(i as int) =~= retained@);
        assert(rows@ + all =~= all);
    }
    while i > 0 && rows.len() < limit
        invariant
            i <= retained@.len(),
            rows@.len() <= limit,
            rows@ + at_or_before(retained@.take(i as int), c) == all,
        decreases i,
    {
        let ghost rest = at_or_before(retained@.take(i - 1), c);
        proof {
            let t = retained@.take(i as int);
            assert(t.drop_last() =~= retained@.take(i - 1));
            assert(t.last() == retained@[i - 1]);
        }
        i = i - 1;
        if retained[i] <= c {
            let ghost before = rows@;
            rows.push(retained[i]);
            proof {
                assert(before.push(retained@[i as int]) + rest =~= before + (seq![retained@[i as int]] + rest));
            }
        }
    }
    let ghost rem = at_or_before(retained@.take(i as int), c);
    proof {
        assert(strictly_ascending(retained@.take(i as int)));
        lemma_any_at_or_before(retained@.take(i as int), c);
        if i > 0 {
            assert(retained@.take(i as int)[0] == retained@[0]);
        }
        assert(all.take(rows@.len() as int) =~= rows@);
    }
    let more = i > 0 && retained[0] <= c;
    let n = rows.len();
    let next = if n > 0 && more && rows[n - 1] > 0 {
        Some(rows[n - 1] - 1)
    } else {
        None
    };
    proof {
        assert(rem.len() > 0 ==> rows@.len() == limit);
    }
    (rows, next)
}

} // verus!
