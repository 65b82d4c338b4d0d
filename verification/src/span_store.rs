//! The span lifecycle store: the keyed registry of in-flight spans.
//!
//! All mutation funnels through this type. A span is keyed by its
//! `(trace_id, span_id)` pair; insertion overwrites an existing key, removal
//! stamps the duration, a merge-update rewrites fields in place, and the
//! expiry scan reports the keys whose window has elapsed. The store also
//! carries a clock watermark: every operation clamps the time it is given so
//! that the store's notion of time never runs backwards, which is what makes
//! every stamped duration non-negative.

use vstd::prelude::*;

use crate::attrs::{attr_keys_unique, AttrValue};
use crate::clock::now_millis;
use crate::span::{
    clamped_now,
    fresh_span,
    merged,
    opt_str_view,
    pairs_view,
    span_expired,
    stamped,
    timed_out,
    QueryAttributes,
    SpanAttributes,
    SpanView,
};

verus! {

/// The mathematical shape of the store: the clock watermark and the keyed
/// registry of open spans.
pub ghost struct StoreView {
    pub clock: int,
    pub spans: Map<(Seq<char>, Seq<char>), SpanView>,
}

/// The key under which a span is registered.
pub open spec fn entry_key(e: SpanAttributes) -> (Seq<char>, Seq<char>) {
    (e.trace_trace_id@, e.trace_span_id@)
}

/// The key a returned `(trace_id, span_id)` pair denotes.
pub open spec fn pair_key(p: (String, String)) -> (Seq<char>, Seq<char>) {
    (p.0@, p.1@)
}

/// The registry a sequence of entries denotes.
pub open spec fn entries_map(s: Seq<SpanAttributes>) -> Map<(Seq<char>, Seq<char>), SpanView>
    decreases s.len(),
{
    if s.len() == 0 {
        Map::empty()
    } else {
        entries_map(s.drop_last()).insert(entry_key(s.last()), s.last()@)
    }
}

/// Whether `r` lists exactly the keys of `m` expired at time `n`.
pub open spec fn expired_key_listing(
    m: Map<(Seq<char>, Seq<char>), SpanView>,
    r: Seq<(String, String)>,
    n: int,
) -> bool {
    &&& forall|j: int|
        0 <= j < r.len() ==> m.contains_key(pair_key(#[trigger] r[j])) && span_expired(
            m[pair_key(r[j])],
            n,
        )
    &&& forall|k: (Seq<char>, Seq<char>)| #![auto]
        m.contains_key(k) && span_expired(m[k], n) ==> exists|j: int|
            0 <= j < r.len() && pair_key(#[trigger] r[j]) == k
}

pub open spec fn entry_keys_unique(s: Seq<SpanAttributes>) -> bool {
    forall|i: int, j: int|
        0 <= i < j < s.len() ==> entry_key(#[trigger] s[i]) != entry_key(#[trigger] s[j])
}

proof fn lemma_entries_contains(s: Seq<SpanAttributes>, k: (Seq<char>, Seq<char>))
    ensures
        entries_map(s).contains_key(k) <==> exists|i: int|
            0 <= i < s.len() && entry_key(#[trigger] s[i]) == k,
    decreases s.len(),
{
    if s.len() > 0 {
        lemma_entries_contains(s.drop_last(), k);
        if entries_map(s).contains_key(k) {
            if entry_key(s.last()) == k {
                assert(entry_key(s[s.len() - 1]) == k);
            } else {
                let i = choose|i: int|
                    0 <= i < s.drop_last().len() && entry_key(#[trigger] s.drop_last()[i]) == k;
                assert(entry_key(s[i]) == k);
            }
        }
        if exists|i: int| 0 <= i < s.len() && entry_key(#[trigger] s[i]) == k {
            let i = choose|i: int| 0 <= i < s.len() && entry_key(#[trigger] s[i]) == k;
            if i < s.len() - 1 {
                assert(entry_key(s.drop_last()[i]) == k);
            }
        }
    }
}

proof fn lemma_entries_index(s: Seq<SpanAttributes>, i: int)
    requires
        entry_keys_unique(s),
        0 <= i < s.len(),
    ensures
        entries_map(s).contains_key(entry_key(s[i])),
        entries_map(s)[entry_key(s[i])] == s[i]@,
    decreases s.len(),
{
    if i < s.len() - 1 {
        lemma_entries_index(s.drop_last(), i);
        assert(s.drop_last()[i] == s[i]);
        assert(entry_key(s[i]) != entry_key(s[s.len() - 1]));
    }
}

proof fn lemma_entries_update(s: Seq<SpanAttributes>, i: int, e: SpanAttributes)
    requires
        entry_keys_unique(s),
        0 <= i < s.len(),
        entry_key(e) == entry_key(s[i]),
    ensures
        entries_map(s.update(i, e)) == entries_map(s).insert(entry_key(e), e@),
        entry_keys_unique(s.update(i, e)),
    decreases s.len(),
{
    let t = s.update(i, e);
    assert(forall|j: int| 0 <= j < s.len() && j != i ==> entry_key(#[trigger] t[j]) == entry_key(s[j]));
    if i == s.len() - 1 {
        assert(t.drop_last() =~= s.drop_last());
        assert(entries_map(t) =~= entries_map(s).insert(entry_key(e), e@));
    } else {
        lemma_entries_update(s.drop_last(), i, e);
        assert(t.drop_last() =~= s.drop_last().update(i, e));
        assert(t.last() == s.last());
        assert(entry_key(s.last()) != entry_key(e));
        assert(entries_map(t) =~= entries_map(s).insert(entry_key(e), e@));
    }
}

proof fn lemma_entries_remove(s: Seq<SpanAttributes>, i: int)
    requires
        entry_keys_unique(s),
        0 <= i < s.len(),
    ensures
        entries_map(s.remove(i)) == entries_map(s).remove(entry_key(s[i])),
        entry_keys_unique(s.remove(i)),
    decreases s.len(),
{
    let t = s.remove(i);
    if i == s.len() - 1 {
        assert(t =~= s.drop_last());
        lemma_entries_contains(s.drop_last(), entry_key(s[i]));
        assert(forall|j: int|
            0 <= j < s.drop_last().len() ==> entry_key(#[trigger] s.drop_last()[j]) != entry_key(
                s[i],
            ));
        assert(entries_map(t) =~= entries_map(s).remove(entry_key(s[i])));
    } else {
        lemma_entries_remove(s.drop_last(), i);
        assert(t.drop_last() =~= s.drop_last().remove(i));
        assert(t.last() == s.last());
        assert(s.drop_last()[i] == s[i]);
        assert(entry_key(s.last()) != entry_key(s[i]));
        assert(entries_map(t) =~= entries_map(s).remove(entry_key(s[i])));
        assert(forall|a: int, b: int|
            0 <= a < b < t.len() ==> entry_key(#[trigger] t[a]) != entry_key(#[trigger] t[b]))
            by {
            assert(forall|a: int|
                0 <= a < t.len() ==> entry_key(#[trigger] t[a]) == if a < i {
                    entry_key(s[a])
                } else {
                    entry_key(s[a + 1])
                });
        }
    }
}

/// The `(trace_id, span_id)` pairs of the entries expired at time `now`, in
/// registry order.
pub open spec fn expired_pairs(s: Seq<SpanAttributes>, now: int) -> Seq<(String, String)>
    decreases s.len(),
{
    if s.len() == 0 {
        Seq::empty()
    } else {
        let rest = expired_pairs(s.drop_last(), now);
        if span_expired(s.last()@, now) {
            rest.push((s.last().trace_trace_id, s.last().trace_span_id))
        } else {
            rest
        }
    }
}

proof fn lemma_expired_pairs_props(s: Seq<SpanAttributes>, now: int)
    requires
        entry_keys_unique(s),
    ensures
        forall|a: int, b: int|
            0 <= a < b < expired_pairs(s, now).len() ==> pair_key(
                #[trigger] expired_pairs(s, now)[a],
            ) != pair_key(#[trigger] expired_pairs(s, now)[b]),
        forall|j: int|
            0 <= j < expired_pairs(s, now).len() ==> entries_map(s).contains_key(
                pair_key(#[trigger] expired_pairs(s, now)[j]),
            ) && span_expired(entries_map(s)[pair_key(expired_pairs(s, now)[j])], now),
        forall|k: (Seq<char>, Seq<char>)| #![auto]
            entries_map(s).contains_key(k) && span_expired(entries_map(s)[k], now) ==> exists|
                j: int,
            | 0 <= j < expired_pairs(s, now).len() && pair_key(
                #[trigger] expired_pairs(s, now)[j],
            ) == k,
    decreases s.len(),
{
    if s.len() > 0 {
        let d = s.drop_last();
        let last = s.last();
        lemma_expired_pairs_props(d, now);
        let ep = expired_pairs(s, now);
        let epd = expired_pairs(d, now);
        let em = entries_map(s);
        let emd = entries_map(d);
        assert forall|i: int| 0 <= i < d.len() implies entry_key(#[trigger] d[i]) != entry_key(
            last,
        ) by {
            assert(d[i] == s[i]);
        }
        lemma_entries_contains(d, entry_key(last));
        assert(!emd.contains_key(entry_key(last)));
        assert forall|j: int| 0 <= j < epd.len() implies pair_key(#[trigger] epd[j]) != entry_key(
            last,
        ) && em.contains_key(pair_key(epd[j])) && em[pair_key(epd[j])] == emd[pair_key(
            epd[j],
        )] by {
            assert(emd.contains_key(pair_key(epd[j])));
        }
        if span_expired(last@, now) {
            assert(ep == epd.push((last.trace_trace_id, last.trace_span_id)));
            assert(pair_key(ep[ep.len() - 1]) == entry_key(last));
            assert forall|j: int|
                0 <= j < ep.len() implies em.contains_key(pair_key(#[trigger] ep[j]))
                    && span_expired(em[pair_key(ep[j])], now) by {
                if j < epd.len() {
                    assert(ep[j] == epd[j]);
                } else {
                    assert(em[entry_key(last)] == last@);
                }
            }
            assert forall|k: (Seq<char>, Seq<char>)| #![auto]
                em.contains_key(k) && span_expired(em[k], now) implies exists|j: int|
                0 <= j < ep.len() && pair_key(#[trigger] ep[j]) == k by {
                if k == entry_key(last) {
                    assert(pair_key(ep[ep.len() - 1]) == k);
                } else {
                    assert(emd.contains_key(k) && emd[k] == em[k]);
                    let j = choose|j: int|
                        0 <= j < epd.len() && pair_key(#[trigger] epd[j]) == k;
                    assert(ep[j] == epd[j]);
                    assert(pair_key(ep[j]) == k);
                }
            }
            assert forall|a: int, b: int| 0 <= a < b < ep.len() implies pair_key(
                #[trigger] ep[a],
            ) != pair_key(#[trigger] ep[b]) by {
                assert(ep[a] == epd[a]);
                if b < epd.len() {
                    assert(ep[b] == epd[b]);
                }
            }
        } else {
            assert(ep == epd);
            assert forall|k: (Seq<char>, Seq<char>)| #![auto]
                em.contains_key(k) && span_expired(em[k], now) implies exists|j: int|
                0 <= j < ep.len() && pair_key(#[trigger] ep[j]) == k by {
                if k == entry_key(last) {
                    assert(em[k] == last@);
                    assert(false);
                } else {
                    assert(emd.contains_key(k) && emd[k] == em[k]);
                }
            }
            assert forall|j: int|
                0 <= j < ep.len() implies em.contains_key(pair_key(#[trigger] ep[j]))
                    && span_expired(em[pair_key(ep[j])], now) by {
                assert(ep[j] == epd[j]);
            }
        }
    }
}

proof fn lemma_entries_finite(s: Seq<SpanAttributes>)
    ensures
        entries_map(s).dom().finite(),
    decreases s.len(),
{
    if s.len() > 0 {
        lemma_entries_finite(s.drop_last());
    }
}

proof fn lemma_entries_key_fields(s: Seq<SpanAttributes>, k: (Seq<char>, Seq<char>))
    requires
        entries_map(s).contains_key(k),
    ensures
        entries_map(s)[k].trace_trace_id == k.0,
        entries_map(s)[k].trace_span_id == k.1,
    decreases s.len(),
{
    if s.len() > 0 && entry_key(s.last()) != k {
        lemma_entries_key_fields(s.drop_last(), k);
    }
}

/// The keyed registry of in-flight spans, together with its clock watermark.
#[derive(Debug)]
pub struct SpanStore {
    clock: i64,
    spans: Vec<SpanAttributes>,
}

impl View for SpanStore {
    type V = StoreView;

    closed spec fn view(&self) -> StoreView {
        StoreView { clock: self.clock as int, spans: entries_map(self.spans@) }
    }
}

impl SpanStore {
    /// Representation invariant: the watermark is a genuine epoch time, keys
    /// are pairwise distinct, and every entry is well-formed and was opened
    /// no later than the watermark.
    pub closed spec fn wf(&self) -> bool {
        &&& 0 <= self.clock
        &&& entry_keys_unique(self.spans@)
        &&& forall|i: int| 0 <= i < self.spans@.len() ==> (#[trigger] self.spans@[i]).wf()
        &&& forall|i: int|
            0 <= i < self.spans@.len() ==> (#[trigger] self.spans@[i]).timestamp <= self.clock
    }

    /// A well-formed store registers finitely many spans, so counting
    /// arguments — such as the uniqueness law — apply to its registry.
    pub proof fn lemma_registry_finite(&self)
        requires
            self.wf(),
        ensures
            self@.spans.dom().finite(),
    {
        lemma_entries_finite(self.spans@);
    }

    /// An empty store.
    pub fn new() -> (s: SpanStore)
        ensures
            s.wf(),
            s@.clock == 0,
            s@.spans == Map::<(Seq<char>, Seq<char>), SpanView>::empty(),
    {
        SpanStore { clock: 0, spans: Vec::new() }
    }

    fn find_index(&self, trace_id: &String, span_id: &String) -> (r: Option<usize>)
        requires
            self.wf(),
        ensures
            match r {
                Some(i) => i < self.spans@.len() && entry_key(self.spans@[i as int]) == (
                    trace_id@,
                    span_id@,
                ),
                None => !self@.spans.contains_key((trace_id@, span_id@)),
            },
    {
        let n = self.spans.len();
        let mut i: usize = 0;
        while i < n
            invariant
                i <= n,
                n == self.spans@.len(),
                forall|j: int|
                    0 <= j < i ==> entry_key(#[trigger] self.spans@[j]) != (trace_id@, span_id@),
            decreases n - i,
        {
            let e = &self.spans[i];
            if e.trace_trace_id == *trace_id && e.trace_span_id == *span_id {
                return Some(i);
            }
            i = i + 1;
        }
        proof {
            lemma_entries_contains(self.spans@, (trace_id@, span_id@));
        }
        None
    }

    /// Registers a new open span under `(trace_id, span_id)` at time
    /// `now_ms`, overwriting any span already registered under that key.
    pub fn insert_at(
        &mut self,
        trace_id: String,
        span_id: String,
        parent_id: Option<String>,
        query_attributes: QueryAttributes,
        now_ms: i64,
    )
        requires
            old(self).wf(),
            attr_keys_unique(query_attributes.extra@),
        ensures
            final(self).wf(),
            final(self)@.clock == clamped_now(now_ms as int, old(self)@.clock),
            final(self)@.spans == old(self)@.spans.insert(
                (trace_id@, span_id@),
                fresh_span(
                    trace_id@,
                    span_id@,
                    opt_str_view(parent_id),
                    query_attributes@,
                    final(self)@.clock,
                ),
            ),
    {
        let n: i64 = if now_ms < self.clock {
            self.clock
        } else {
            now_ms
        };
        self.clock = n;
        let idx = self.find_index(&trace_id, &span_id);
        let QueryAttributes { name, ttl, extra } = query_attributes;
        let value = SpanAttributes {
            timestamp: n,
            duration_ms: 0,
            name,
            status_code: 0,
            status_message: String::new(),
            trace_span_id: span_id.clone(),
            trace_trace_id: trace_id.clone(),
            trace_parent_id: parent_id,
            extra,
            ttl: match ttl {
                Some(t) => t,
                None => 10000,
            },
        };
        match idx {
            Some(i) => {
                proof {
                    lemma_entries_update(self.spans@, i as int, value);
                }
                self.spans.set(i, value);
            },
            None => {
                proof {
                    lemma_entries_contains(self.spans@, (trace_id@, span_id@));
                }
                let ghost before = self.spans@;
                self.spans.push(value);
                proof {
                    assert(self.spans@.drop_last() =~= before);
                }
            },
        }
    }

    /// Registers a new open span, reading the clock itself; the reading is
    /// named through the resulting watermark.
    pub fn insert(
        &mut self,
        trace_id: String,
        span_id: String,
        parent_id: Option<String>,
        query_attributes: QueryAttributes,
    )
        requires
            old(self).wf(),
            attr_keys_unique(query_attributes.extra@),
        ensures
            final(self).wf(),
            final(self)@.clock >= old(self)@.clock,
            final(self)@.spans == old(self)@.spans.insert(
                (trace_id@, span_id@),
                fresh_span(
                    trace_id@,
                    span_id@,
                    opt_str_view(parent_id),
                    query_attributes@,
                    final(self)@.clock,
                ),
            ),
    {
        let now = now_millis();
        self.insert_at(trace_id, span_id, parent_id, query_attributes, now);
    }

    /// Deletes the span under `(trace_id, span_id)` and returns it with its
    /// duration stamped at time `now_ms`; `None` when the key is absent.
    pub fn remove_at(&mut self, trace_id: String, span_id: String, now_ms: i64) -> (r: Option<
        SpanAttributes,
    >)
        requires
            old(self).wf(),
        ensures
            final(self).wf(),
            final(self)@.clock == clamped_now(now_ms as int, old(self)@.clock),
            r is Some <==> old(self)@.spans.contains_key((trace_id@, span_id@)),
            final(self)@.spans == old(self)@.spans.remove((trace_id@, span_id@)),
            r matches Some(sp) ==> sp@ == stamped(
                old(self)@.spans[(trace_id@, span_id@)],
                final(self)@.clock,
            ) && sp@.duration_ms >= 0 && sp.wf(),
    {
        let n: i64 = if now_ms < self.clock {
            self.clock
        } else {
            now_ms
        };
        self.clock = n;
        match self.find_index(&trace_id, &span_id) {
            Some(i) => {
                proof {
                    lemma_entries_index(self.spans@, i as int);
                    lemma_entries_remove(self.spans@, i as int);
                }
                let mut sp = self.spans.remove(i);
                sp.duration_ms = n - sp.timestamp;
                Some(sp)
            },
            None => {
                proof {
                    assert(self@.spans =~= old(self)@.spans.remove((trace_id@, span_id@)));
                }
                None
            },
        }
    }

    /// Deletes and returns the span under the key, reading the clock itself.
    pub fn remove(&mut self, trace_id: String, span_id: String) -> (r: Option<SpanAttributes>)
        requires
            old(self).wf(),
        ensures
            final(self).wf(),
            final(self)@.clock >= old(self)@.clock,
            r is Some <==> old(self)@.spans.contains_key((trace_id@, span_id@)),
            final(self)@.spans == old(self)@.spans.remove((trace_id@, span_id@)),
            r matches Some(sp) ==> sp@ == stamped(
                old(self)@.spans[(trace_id@, span_id@)],
                final(self)@.clock,
            ) && sp@.duration_ms >= 0 && sp.wf(),
    {
        let now = now_millis();
        self.remove_at(trace_id, span_id, now)
    }

    /// Merges partial attributes into the span under `(trace_id, span_id)`
    /// at time `now_ms`; reports whether the key was present.
    pub fn update_at(
        &mut self,
        trace_id: String,
        span_id: String,
        merge_attributes: Vec<(String, AttrValue)>,
        now_ms: i64,
    ) -> (r: bool)
        requires
            old(self).wf(),
        ensures
            final(self).wf(),
            final(self)@.clock == clamped_now(now_ms as int, old(self)@.clock),
            r == old(self)@.spans.contains_key((trace_id@, span_id@)),
            r ==> final(self)@.spans == old(self)@.spans.insert(
                (trace_id@, span_id@),
                merged(
                    old(self)@.spans[(trace_id@, span_id@)],
                    pairs_view(merge_attributes@),
                    final(self)@.clock,
                ),
            ),
            !r ==> final(self)@.spans == old(self)@.spans,
    {
        let n: i64 = if now_ms < self.clock {
            self.clock
        } else {
            now_ms
        };
        self.clock = n;
        match self.find_index(&trace_id, &span_id) {
            Some(i) => {
                proof {
                    lemma_entries_index(self.spans@, i as int);
                    lemma_entries_remove(self.spans@, i as int);
                }
                let mut sp = self.spans.remove(i);
                sp.merge_at(merge_attributes, n);
                let ghost before = self.spans@;
                self.spans.push(sp);
                proof {
                    assert(self.spans@.drop_last() =~= before);
                    lemma_entries_contains(before, (trace_id@, span_id@));
                    assert(self@.spans =~= old(self)@.spans.insert(
                        (trace_id@, span_id@),
                        merged(
                            old(self)@.spans[(trace_id@, span_id@)],
                            pairs_view(merge_attributes@),
                            n as int,
                        ),
                    ));
                }
                true
            },
            None => {
                false
            },
        }
    }

    /// Merges partial attributes into the span under the key, reading the
    /// clock itself.
    pub fn update(
        &mut self,
        trace_id: String,
        span_id: String,
        merge_attributes: Vec<(String, AttrValue)>,
    ) -> (r: bool)
        requires
            old(self).wf(),
        ensures
            final(self).wf(),
            final(self)@.clock >= old(self)@.clock,
            r == old(self)@.spans.contains_key((trace_id@, span_id@)),
            r ==> final(self)@.spans == old(self)@.spans.insert(
                (trace_id@, span_id@),
                merged(
                    old(self)@.spans[(trace_id@, span_id@)],
                    pairs_view(merge_attributes@),
                    final(self)@.clock,
                ),
            ),
            !r ==> final(self)@.spans == old(self)@.spans,
    {
        let now = now_millis();
        self.update_at(trace_id, span_id, merge_attributes, now)
    }

    /// The keys of all spans whose window has elapsed at time `now_ms`. The
    /// scan reads, it never mutates; removal is the caller's separate step.
    #[verifier::rlimit(50)]
    pub fn expired_keys_at(&self, now_ms: i64) -> (r: Vec<(String, String)>)
        requires
            self.wf(),
        ensures
            forall|a: int, b: int|
                0 <= a < b < r@.len() ==> pair_key(#[trigger] r@[a]) != pair_key(
                    #[trigger] r@[b],
                ),
            forall|j: int|
                0 <= j < r@.len() ==> self@.spans.contains_key(pair_key(#[trigger] r@[j]))
                    && span_expired(self@.spans[pair_key(r@[j])], now_ms as int),
            forall|k: (Seq<char>, Seq<char>)| #![auto]
                self@.spans.contains_key(k) && span_expired(self@.spans[k], now_ms as int)
                    ==> exists|j: int| 0 <= j < r@.len() && pair_key(#[trigger] r@[j]) == k,
    {
        let n = self.spans.len();
        let mut r: Vec<(String, String)> = Vec::new();
        let mut i: usize = 0;
        proof {
            assert(self.spans@.take(0) =~= Seq::<SpanAttributes>::empty());
        }
        while i < n
            invariant
                i <= n,
                n == self.spans@.len(),
                self.wf(),
                r@ == expired_pairs(self.spans@.take(i as int), now_ms as int),
            decreases n - i,
        {
            let e = &self.spans[i];
            let ghost tnext = self.spans@.take(i as int + 1);
            proof {
                assert(tnext.drop_last() =~= self.spans@.take(i as int));
                assert(tnext.last() == self.spans@[i as int]);
            }
            if e.has_expired_at(now_ms) {
                r.push((e.trace_trace_id.clone(), e.trace_span_id.clone()));
                proof {
                    assert(r@ =~= expired_pairs(tnext, now_ms as int));
                }
            }
            i = i + 1;
        }
        proof {
            assert(self.spans@.take(n as int) =~= self.spans@);
            lemma_expired_pairs_props(self.spans@, now_ms as int);
        }
        r
    }

    /// The keys of all spans whose window has elapsed right now, reading the
    /// clock itself: the keys of spans expired at some single clock reading.
    pub fn get_expired_keys(&self) -> (r: Vec<(String, String)>)
        requires
            self.wf(),
        ensures
            forall|a: int, b: int|
                0 <= a < b < r@.len() ==> pair_key(#[trigger] r@[a]) != pair_key(
                    #[trigger] r@[b],
                ),
            forall|j: int| 0 <= j < r@.len() ==> self@.spans.contains_key(pair_key(#[trigger] r@[j])),
            exists|n: int| expired_key_listing(self@.spans, r@, n),
    {
        let now = now_millis();
        let r = self.expired_keys_at(now);
        proof {
            assert(expired_key_listing(self@.spans, r@, now as int));
        }
        r
    }

    /// One reaper tick at time `now_ms`: scans for expired spans and, within
    /// the same exclusive step, removes each, stamps its duration, marks it
    /// as a timeout error, and returns it for hand-off. Each expired span is
    /// reported exactly once; the store keeps exactly the unexpired spans.
    #[verifier::rlimit(50)]
    pub fn reap_expired_at(&mut self, now_ms: i64) -> (r: Vec<SpanAttributes>)
        requires
            old(self).wf(),
        ensures
            final(self).wf(),
            final(self)@.clock == clamped_now(now_ms as int, old(self)@.clock),
            forall|k: (Seq<char>, Seq<char>)| #![auto]
                final(self)@.spans.contains_key(k) <==> (old(self)@.spans.contains_key(k)
                    && !span_expired(old(self)@.spans[k], final(self)@.clock)),
            forall|k: (Seq<char>, Seq<char>)| #![auto]
                final(self)@.spans.contains_key(k) ==> final(self)@.spans[k] == old(
                    self,
                )@.spans[k],
            forall|j: int|
                0 <= j < r@.len() ==> {
                    let k = entry_key(#[trigger] r@[j]);
                    &&& old(self)@.spans.contains_key(k)
                    &&& span_expired(old(self)@.spans[k], final(self)@.clock)
                    &&& r@[j]@ == timed_out(stamped(old(self)@.spans[k], final(self)@.clock))
                },
            forall|k: (Seq<char>, Seq<char>)| #![auto]
                old(self)@.spans.contains_key(k) && span_expired(
                    old(self)@.spans[k],
                    final(self)@.clock,
                ) ==> exists|j: int| 0 <= j < r@.len() && entry_key(#[trigger] r@[j]) == k,
            forall|a: int, b: int|
                0 <= a < b < r@.len() ==> entry_key(#[trigger] r@[a]) != entry_key(
                    #[trigger] r@[b],
                ),
    {
        let n: i64 = if now_ms < self.clock {
            self.clock
        } else {
            now_ms
        };
        self.clock = n;
        let ghost m0 = self@.spans;
        let ghost s0 = self.spans@;
        let keys = self.expired_keys_at(n);
        let ghost kseq = keys@;
        let nkeys = keys.len();
        let mut out: Vec<SpanAttributes> = Vec::new();
        let mut i: usize = 0;
        while i < nkeys
            invariant
                i <= nkeys,
                nkeys == kseq.len(),
                keys@ == kseq,
                self.wf(),
                self@.clock == n as int,
                n as int == clamped_now(now_ms as int, old(self)@.clock),
                m0 == old(self)@.spans,
                m0 == entries_map(s0),
                // the scan's findings, replayed over the starting registry
                forall|a: int, b: int|
                    0 <= a < b < kseq.len() ==> pair_key(#[trigger] kseq[a]) != pair_key(
                        #[trigger] kseq[b],
                    ),
                forall|j: int|
                    0 <= j < kseq.len() ==> m0.contains_key(pair_key(#[trigger] kseq[j]))
                        && span_expired(m0[pair_key(kseq[j])], n as int),
                forall|k: (Seq<char>, Seq<char>)| #![auto]
                    m0.contains_key(k) && span_expired(m0[k], n as int) ==> exists|j: int|
                        0 <= j < kseq.len() && pair_key(#[trigger] kseq[j]) == k,
                // the registry so far: the first `i` scanned keys removed
                forall|k: (Seq<char>, Seq<char>)| #![auto]
                    self@.spans.contains_key(k) <==> (m0.contains_key(k) && !(exists|j: int|
                        0 <= j < i && pair_key(#[trigger] kseq[j]) == k)),
                forall|k: (Seq<char>, Seq<char>)| #![auto]
                    self@.spans.contains_key(k) ==> self@.spans[k] == m0[k],
                // the hand-off so far: one timed-out span per scanned key
                out@.len() == i,
                forall|j: int|
                    0 <= j < i ==> entry_key(#[trigger] out@[j]) == pair_key(kseq[j]) && out@[j]@
                        == timed_out(stamped(m0[pair_key(kseq[j])], n as int)),
            decreases nkeys - i,
        {
            let kp = &keys[i];
            let trace_id = kp.0.clone();
            let span_id = kp.1.clone();
            let ghost k = pair_key(kseq[i as int]);
            let ghost prev = self@.spans;
            proof {
                // the key was scanned, and earlier iterations removed other
                // keys, so it is still present
                if exists|j: int| 0 <= j < i && pair_key(#[trigger] kseq[j]) == k {
                    let j = choose|j: int| 0 <= j < i && pair_key(#[trigger] kseq[j]) == k;
                    assert(pair_key(kseq[j]) != pair_key(kseq[i as int]));
                }
                assert(self@.spans.contains_key(k));
                assert(self@.spans[k] == m0[k]);
            }
            let removed = self.remove_at(trace_id, span_id, n);
            match removed {
                Some(mut sp) => {
                    proof {
                        assert(sp@ == stamped(prev[k], n as int));
                        lemma_entries_key_fields(s0, k);
                    }
                    sp.error_timeout();
                    proof {
                        assert(sp@ == timed_out(stamped(m0[k], n as int)));
                        assert(entry_key(sp) == k);
                    }
                    let ghost obefore = out@;
                    out.push(sp);
                    proof {
                        assert forall|j: int|
                            0 <= j < i + 1 implies entry_key(#[trigger] out@[j]) == pair_key(
                            kseq[j],
                        ) && out@[j]@ == timed_out(stamped(m0[pair_key(kseq[j])], n as int)) by {
                            if j < i {
                                assert(out@[j] == obefore[j]);
                            } else {
                                assert(out@[j] == sp);
                            }
                        }
                    }
                },
                None => {
                    proof {
                        assert(false);
                    }
                },
            }
            proof {
                assert forall|k2: (Seq<char>, Seq<char>)| #![auto]
                    self@.spans.contains_key(k2) <==> (m0.contains_key(k2) && !(exists|j: int|
                        0 <= j < i + 1 && pair_key(#[trigger] kseq[j]) == k2)) by {
                    assert(self@.spans =~= prev.remove(k));
                    if exists|j: int| 0 <= j < i + 1 && pair_key(#[trigger] kseq[j]) == k2 {
                        let j = choose|j: int|
                            0 <= j < i + 1 && pair_key(#[trigger] kseq[j]) == k2;
                        if j < i {
                            assert(exists|j2: int|
                                0 <= j2 < i && pair_key(#[trigger] kseq[j2]) == k2);
                        } else {
                            assert(k2 == k);
                        }
                    }
                    if exists|j: int| 0 <= j < i && pair_key(#[trigger] kseq[j]) == k2 {
                        let j = choose|j: int| 0 <= j < i && pair_key(#[trigger] kseq[j]) == k2;
                        assert(0 <= j < i + 1 && pair_key(kseq[j]) == k2);
                    }
                }
            }
            i = i + 1;
        }
        proof {
            assert forall|k: (Seq<char>, Seq<char>)| #![auto]
                self@.spans.contains_key(k) implies (m0.contains_key(k) && !span_expired(
                m0[k],
                n as int,
            )) by {
                assert(m0.contains_key(k));
                if span_expired(m0[k], n as int) {
                    assert(exists|j: int|
                        0 <= j < kseq.len() && pair_key(#[trigger] kseq[j]) == k);
                    let j = choose|j: int| 0 <= j < kseq.len() && pair_key(#[trigger] kseq[j]) == k;
                    assert(0 <= j < nkeys && pair_key(kseq[j]) == k);
                }
            }
            assert forall|k: (Seq<char>, Seq<char>)| #![auto]
                m0.contains_key(k) && !span_expired(m0[k], n as int) implies self@.spans.contains_key(
                k,
            ) by {
                if exists|j: int| 0 <= j < nkeys && pair_key(#[trigger] kseq[j]) == k {
                    let j = choose|j: int| 0 <= j < nkeys && pair_key(#[trigger] kseq[j]) == k;
                    assert(span_expired(m0[pair_key(kseq[j])], n as int));
                }
            }
            assert forall|k: (Seq<char>, Seq<char>)| #![auto]
                m0.contains_key(k) && span_expired(m0[k], n as int) implies exists|j: int|
                0 <= j < out@.len() && entry_key(#[trigger] out@[j]) == k by {
                assert(m0.contains_key(k) && span_expired(m0[k], n as int));
                assert(exists|j: int| 0 <= j < kseq.len() && pair_key(#[trigger] kseq[j]) == k);
                let j = choose|j: int| 0 <= j < kseq.len() && pair_key(#[trigger] kseq[j]) == k;
                assert(entry_key(out@[j]) == pair_key(kseq[j]));
                assert(0 <= j < out@.len() && entry_key(out@[j]) == k);
            }
        }
        out
    }

    /// One reaper tick, reading the clock itself; the reading is named
    /// through the resulting watermark.
    pub fn reap_expired(&mut self) -> (r: Vec<SpanAttributes>)
        requires
            old(self).wf(),
        ensures
            final(self).wf(),
            final(self)@.clock >= old(self)@.clock,
            forall|k: (Seq<char>, Seq<char>)| #![auto]
                final(self)@.spans.contains_key(k) <==> (old(self)@.spans.contains_key(k)
                    && !span_expired(old(self)@.spans[k], final(self)@.clock)),
            forall|k: (Seq<char>, Seq<char>)| #![auto]
                final(self)@.spans.contains_key(k) ==> final(self)@.spans[k] == old(
                    self,
                )@.spans[k],
            forall|j: int|
                0 <= j < r@.len() ==> {
                    let k = entry_key(#[trigger] r@[j]);
                    &&& old(self)@.spans.contains_key(k)
                    &&& span_expired(old(self)@.spans[k], final(self)@.clock)
                    &&& r@[j]@ == timed_out(stamped(old(self)@.spans[k], final(self)@.clock))
                },
            forall|k: (Seq<char>, Seq<char>)| #![auto]
                old(self)@.spans.contains_key(k) && span_expired(
                    old(self)@.spans[k],
                    final(self)@.clock,
                ) ==> exists|j: int| 0 <= j < r@.len() && entry_key(#[trigger] r@[j]) == k,
            forall|a: int, b: int|
                0 <= a < b < r@.len() ==> entry_key(#[trigger] r@[a]) != entry_key(
                    #[trigger] r@[b],
                ),
    {
        let now = now_millis();
        self.reap_expired_at(now)
    }
}

} // verus!
