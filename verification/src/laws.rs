//! The store's general guarantees, stated and proved once over the
//! mathematical model that the operations' contracts are written in.

use vstd::prelude::*;

use crate::attrs::AttrValueView;
use crate::span::{merge_one, span_expired, stamped, SpanAttributes, SpanView};
use crate::span_store::entry_key;

verus! {

/// Uniqueness: the registry is keyed, so a sequence of insertions under
/// pairwise-distinct keys grows it by one entry each, while an insertion
/// under an existing key overwrites instead of duplicating. This is the
/// step case; the store's `insert` ensures exactly this map insertion.
pub proof fn lemma_insert_uniqueness(
    m: Map<(Seq<char>, Seq<char>), SpanView>,
    k: (Seq<char>, Seq<char>),
    v: SpanView,
)
    requires
        m.dom().finite(),
    ensures
        m.insert(k, v).dom().finite(),
        !m.contains_key(k) ==> m.insert(k, v).len() == m.len() + 1,
        m.contains_key(k) ==> m.insert(k, v).len() == m.len(),
        m.insert(k, v)[k] == v,
{
    assert(m.insert(k, v).dom() =~= m.dom().insert(k));
    vstd::set::axiom_set_insert_len(m.dom(), k);
}

/// Remove-once: after a removal the registry no longer holds the key, so a
/// second removal of the same key finds nothing and changes nothing — with
/// the store's `remove` ensures, the first call returns the span and the
/// second returns `None`.
pub proof fn lemma_remove_once(m: Map<(Seq<char>, Seq<char>), SpanView>, k: (Seq<char>, Seq<char>))
    ensures
        !m.remove(k).contains_key(k),
        m.remove(k).remove(k) == m.remove(k),
{
    assert(m.remove(k).remove(k) =~= m.remove(k));
}

/// Duration non-negativity and growth: a span closed at or after its start
/// time has a non-negative duration, and closing later yields a strictly
/// larger duration.
pub proof fn lemma_duration_monotonic(s: SpanView, n1: int, n2: int)
    requires
        s.timestamp <= n1 < n2,
    ensures
        stamped(s, n1).duration_ms >= 0,
        stamped(s, n2).duration_ms > stamped(s, n1).duration_ms,
{
}

/// TTL re-basing: a merge that supplies a new time-to-live `supplied` at
/// time `t1` makes the span expire exactly when the clock passes
/// `t1 + supplied` — neither `timestamp + supplied` nor the original window
/// plays any part. The bound keeps the re-based value inside `i64`, where
/// the stored window saturates.
pub proof fn lemma_ttl_rebase(s: SpanView, t1: int, supplied: int, n: int)
    requires
        s.timestamp <= t1,
        i64::MIN <= t1 - s.timestamp + supplied <= i64::MAX,
    ensures
        span_expired(merge_one(s, "ttl"@, AttrValueView::Int(supplied), t1), n) <==> n > t1
            + supplied,
{
    reveal_strlit("name");
    reveal_strlit("status_code");
    reveal_strlit("status_message");
    reveal_strlit("ttl");
    assert("ttl"@.len() == 3);
    assert("ttl"@ != "name"@);
    assert("ttl"@ != "status_code"@);
    assert("ttl"@ != "status_message"@);
}

/// Expiry exclusivity: a hand-off whose every reported key still stood in a
/// registry from which `k` had been removed — as the reaper's contract
/// guarantees of its result — cannot report `k`. A span closed explicitly
/// between an expiry scan and the reaper's removal is therefore never
/// handed off twice; the reaper's miss is silent.
pub proof fn lemma_expiry_exclusive(
    m: Map<(Seq<char>, Seq<char>), SpanView>,
    k: (Seq<char>, Seq<char>),
    reaped: Seq<SpanAttributes>,
)
    requires
        forall|j: int|
            0 <= j < reaped.len() ==> m.remove(k).contains_key(entry_key(#[trigger] reaped[j])),
    ensures
        forall|j: int| 0 <= j < reaped.len() ==> entry_key(#[trigger] reaped[j]) != k,
{
}

/// Merge permissiveness: supplying a non-integer value for `status_code`
/// does not fail the update — the store's `update` succeeds whenever the key
/// is present, whatever the values — and the field degrades to zero.
pub proof fn lemma_merge_status_code_permissive(s: SpanView, v: AttrValueView, now: int)
    requires
        !(v matches AttrValueView::Int(_)),
    ensures
        merge_one(s, "status_code"@, v, now).status_code == 0,
{
    reveal_strlit("name");
    reveal_strlit("status_code");
    assert("status_code"@.len() == 11);
    assert("status_code"@ != "name"@);
}

} // verus!
