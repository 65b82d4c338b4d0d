//! A single span: its fields, the merge-update semantics, expiry, and the
//! timeout stamp the reaper applies.
//!
//! Four attribute keys are reserved and route into typed fields (`name`,
//! `status_code`, `status_message`, `ttl`); every other key flows verbatim
//! into the open attribute bag. A wrongly-typed value for a reserved field
//! degrades to its zero value — the update never fails. Supplying `ttl`
//! re-bases the window: the new value counts from the moment of the update,
//! while remaining stored relative to the original start time.

use vstd::prelude::*;

use crate::attrs::{
    attr_keys_unique,
    attr_map,
    int_or_zero,
    set_attr,
    str_or_empty,
    value_int_or_zero,
    value_str_or_empty,
    AttrValue,
    AttrValueView,
};
use crate::clock::now_millis;
use crate::hexfmt::{hex_body, hex_parse_ok, hex_value, parse_hex_u128, parse_hex_u64};
use crate::numfmt::{dec_int, i64_to_string};

verus! {

/// The time-to-live, in milliseconds, of a span opened without one.
pub open spec fn default_ttl() -> int {
    10000
}

/// A clock reading clamped from below: time as the store uses it never runs
/// backwards past `floor`.
pub open spec fn clamped_now(now: int, floor: int) -> int {
    if now >= floor {
        now
    } else {
        floor
    }
}

/// `x` clipped to the representable `i64` range.
pub open spec fn clip_i64(x: int) -> int {
    if x > i64::MAX {
        i64::MAX as int
    } else if x < i64::MIN {
        i64::MIN as int
    } else {
        x
    }
}

/// The mathematical shape of a span.
pub ghost struct SpanView {
    pub timestamp: int,
    pub duration_ms: int,
    pub name: Seq<char>,
    pub status_code: int,
    pub status_message: Seq<char>,
    pub trace_span_id: Seq<char>,
    pub trace_trace_id: Seq<char>,
    pub trace_parent_id: Option<Seq<char>>,
    pub extra: Map<Seq<char>, AttrValueView>,
    pub ttl: int,
}

/// One in-flight or just-finished span.
#[derive(Debug)]
pub struct SpanAttributes {
    /// Creation time, milliseconds since the Unix epoch; immutable.
    pub timestamp: i64,
    /// Elapsed time at close; zero while the span is open.
    pub duration_ms: i64,
    pub name: String,
    pub status_code: i64,
    pub status_message: String,
    pub trace_span_id: String,
    pub trace_trace_id: String,
    pub trace_parent_id: Option<String>,
    /// The open attribute bag; keys are pairwise distinct.
    pub extra: Vec<(String, AttrValue)>,
    /// Milliseconds after `timestamp` at which the span expires.
    pub ttl: i64,
}

pub open spec fn opt_str_view(o: Option<String>) -> Option<Seq<char>> {
    match o {
        Some(s) => Some(s@),
        None => None,
    }
}

impl View for SpanAttributes {
    type V = SpanView;

    open spec fn view(&self) -> SpanView {
        SpanView {
            timestamp: self.timestamp as int,
            duration_ms: self.duration_ms as int,
            name: self.name@,
            status_code: self.status_code as int,
            status_message: self.status_message@,
            trace_span_id: self.trace_span_id@,
            trace_trace_id: self.trace_trace_id@,
            trace_parent_id: opt_str_view(self.trace_parent_id),
            extra: attr_map(self.extra@),
            ttl: self.ttl as int,
        }
    }
}

/// The attributes a span-open request supplies: an operation name, an
/// optional time-to-live, and the open attribute bag.
#[derive(Debug)]
pub struct QueryAttributes {
    pub name: String,
    pub ttl: Option<i64>,
    pub extra: Vec<(String, AttrValue)>,
}

pub ghost struct QueryView {
    pub name: Seq<char>,
    pub ttl: Option<int>,
    pub extra: Map<Seq<char>, AttrValueView>,
}

impl View for QueryAttributes {
    type V = QueryView;

    open spec fn view(&self) -> QueryView {
        QueryView {
            name: self.name@,
            ttl: match self.ttl {
                Some(t) => Some(t as int),
                None => None,
            },
            extra: attr_map(self.extra@),
        }
    }
}

/// The span a fresh open request constructs at time `now`.
pub open spec fn fresh_span(
    trace_id: Seq<char>,
    span_id: Seq<char>,
    parent_id: Option<Seq<char>>,
    q: QueryView,
    now: int,
) -> SpanView {
    SpanView {
        timestamp: now,
        duration_ms: 0,
        name: q.name,
        status_code: 0,
        status_message: Seq::empty(),
        trace_span_id: span_id,
        trace_trace_id: trace_id,
        trace_parent_id: parent_id,
        extra: q.extra,
        ttl: match q.ttl {
            Some(t) => t,
            None => default_ttl(),
        },
    }
}

/// The time-to-live after a merge supplies `supplied` at time `now`: the
/// span has been open `now - timestamp` milliseconds, and the new window is
/// that much plus `supplied`, still counted from the original start time.
/// The sum saturates at the representable bounds.
pub open spec fn rebased_ttl(timestamp: int, supplied: int, now: int) -> int {
    clip_i64(now - timestamp + supplied)
}

/// One merge step: a reserved key routes into its typed field, degrading a
/// wrongly-typed value to its zero value; any other key lands in the bag.
pub open spec fn merge_one(s: SpanView, key: Seq<char>, v: AttrValueView, now: int) -> SpanView {
    if key == "name"@ {
        SpanView { name: str_or_empty(v), ..s }
    } else if key == "status_code"@ {
        SpanView { status_code: int_or_zero(v), ..s }
    } else if key == "status_message"@ {
        SpanView { status_message: str_or_empty(v), ..s }
    } else if key == "ttl"@ {
        SpanView { ttl: rebased_ttl(s.timestamp, int_or_zero(v), now), ..s }
    } else {
        SpanView { extra: s.extra.insert(key, v), ..s }
    }
}

pub open spec fn pairs_view(s: Seq<(String, AttrValue)>) -> Seq<(Seq<char>, AttrValueView)> {
    s.map_values(|p: (String, AttrValue)| (p.0@, p.1@))
}

/// A whole merge: the entries applied in order.
pub open spec fn merged(
    s: SpanView,
    items: Seq<(Seq<char>, AttrValueView)>,
    now: int,
) -> SpanView
    decreases items.len(),
{
    if items.len() == 0 {
        s
    } else {
        merge_one(merged(s, items.drop_last(), now), items.last().0, items.last().1, now)
    }
}

/// Whether the span's window has elapsed at time `now`.
pub open spec fn span_expired(s: SpanView, now: int) -> bool {
    now - s.timestamp > s.ttl
}

/// The span with its duration stamped at close time `now`.
pub open spec fn stamped(s: SpanView, now: int) -> SpanView {
    SpanView { duration_ms: now - s.timestamp, ..s }
}

/// The status message the reaper writes for a span whose window was `ttl`.
pub open spec fn timeout_message(ttl: int) -> Seq<char> {
    "testevents timeout: TTL was "@ + dec_int(ttl)
}

/// The span marked as force-closed by the reaper.
pub open spec fn timed_out(s: SpanView) -> SpanView {
    SpanView { status_code: 2, status_message: timeout_message(s.ttl), ..s }
}

impl SpanAttributes {
    /// Representation invariant: the start time is a genuine (non-negative)
    /// epoch timestamp and the attribute bag holds each key once.
    pub open spec fn wf(&self) -> bool {
        &&& 0 <= self.timestamp
        &&& attr_keys_unique(self.extra@)
    }

    /// Merges a set of partial attributes into the span, reading the clock
    /// as `now_ms` (clamped so time never runs backwards past the span's own
    /// start).
    pub fn merge_at(&mut self, merge_attributes: Vec<(String, AttrValue)>, now_ms: i64)
        requires
            old(self).wf(),
        ensures
            final(self).wf(),
            final(self)@ == merged(
                old(self)@,
                pairs_view(merge_attributes@),
                clamped_now(now_ms as int, old(self).timestamp as int),
            ),
            final(self).timestamp == old(self).timestamp,
            final(self).trace_trace_id == old(self).trace_trace_id,
            final(self).trace_span_id == old(self).trace_span_id,
            final(self).duration_ms == old(self).duration_ms,
    {
        let n: i64 = if now_ms < self.timestamp {
            self.timestamp
        } else {
            now_ms
        };
        let ghost items = pairs_view(merge_attributes@);
        let ghost nn = clamped_now(now_ms as int, old(self).timestamp as int);
        let name_key = String::from_str("name");
        let status_code_key = String::from_str("status_code");
        let status_message_key = String::from_str("status_message");
        let ttl_key = String::from_str("ttl");
        let len = merge_attributes.len();
        let mut i: usize = 0;
        while i < len
            invariant
                i <= len,
                len == merge_attributes@.len(),
                items == pairs_view(merge_attributes@),
                name_key@ == "name"@,
                status_code_key@ == "status_code"@,
                status_message_key@ == "status_message"@,
                ttl_key@ == "ttl"@,
                self.wf(),
                self.timestamp == old(self).timestamp,
                self.trace_trace_id == old(self).trace_trace_id,
                self.trace_span_id == old(self).trace_span_id,
                self.duration_ms == old(self).duration_ms,
                n as int == nn,
                n >= self.timestamp,
                self@ == merged(old(self)@, items.take(i as int), nn),
            decreases len - i,
        {
            let pair = &merge_attributes[i];
            proof {
                assert(items.take(i as int + 1).drop_last() =~= items.take(i as int));
                assert(items[i as int] == (pair.0@, pair.1@));
            }
            if pair.0 == name_key {
                self.name = value_str_or_empty(&pair.1);
            } else if pair.0 == status_code_key {
                self.status_code = value_int_or_zero(&pair.1);
            } else if pair.0 == status_message_key {
                self.status_message = value_str_or_empty(&pair.1);
            } else if pair.0 == ttl_key {
                let supplied = value_int_or_zero(&pair.1);
                let used = n - self.timestamp;
                let new_ttl: i64 = if supplied >= 0 {
                    if used > i64::MAX - supplied {
                        i64::MAX
                    } else {
                        used + supplied
                    }
                } else {
                    used + supplied
                };
                self.ttl = new_ttl;
                proof {
                    assert(new_ttl as int == rebased_ttl(
                        old(self).timestamp as int,
                        int_or_zero(pair.1@),
                        nn,
                    ));
                }
            } else {
                set_attr(&mut self.extra, pair.0.clone(), pair.1.clone());
            }
            proof {
                assert(self@ == merged(old(self)@, items.take(i as int + 1), nn));
            }
            i = i + 1;
        }
        proof {
            assert(items.take(len as int) =~= items);
        }
    }

    /// Merges partial attributes, reading the clock itself. The exact clock
    /// value cannot be pinned; the contract names it through the resulting
    /// view.
    pub fn merge(&mut self, merge_attributes: Vec<(String, AttrValue)>)
        requires
            old(self).wf(),
        ensures
            final(self).wf(),
            exists|n: int|
                n >= old(self).timestamp && final(self)@ == merged(
                    old(self)@,
                    pairs_view(merge_attributes@),
                    n,
                ),
            final(self).timestamp == old(self).timestamp,
            final(self).trace_trace_id == old(self).trace_trace_id,
            final(self).trace_span_id == old(self).trace_span_id,
    {
        let now = now_millis();
        self.merge_at(merge_attributes, now);
    }

    /// Whether the span has outlived its window at time `now_ms`.
    pub fn has_expired_at(&self, now_ms: i64) -> (r: bool)
        ensures
            r == span_expired(self@, now_ms as int),
    {
        (now_ms as i128) - (self.timestamp as i128) > (self.ttl as i128)
    }

    /// Whether the span has outlived its window right now. The clock decides;
    /// nothing more than consistency with some reading can be promised.
    pub fn has_expired(&self) -> (r: bool)
        ensures
            exists|n: int| r == span_expired(self@, n),
    {
        let now = now_millis();
        self.has_expired_at(now)
    }

    /// Marks the span as force-closed by the reaper: error status, and a
    /// message quoting the window that elapsed.
    pub fn error_timeout(&mut self)
        ensures
            final(self)@ == timed_out(old(self)@),
            final(self).timestamp == old(self).timestamp,
            final(self).trace_trace_id == old(self).trace_trace_id,
            final(self).trace_span_id == old(self).trace_span_id,
            old(self).wf() ==> final(self).wf(),
    {
        self.status_code = 2;
        let mut m = String::from_str("testevents timeout: TTL was ");
        let digits = i64_to_string(self.ttl);
        m.append(digits.as_str());
        self.status_message = m;
    }

    /// The trace identifier parsed as a 128-bit value, exactly as
    /// `u128::from_str_radix(_, 16)` reads it; `None` when the stored text is
    /// not such a numeral.
    pub fn otel_trace_id(&self) -> (r: Option<u128>)
        ensures
            r == if hex_parse_ok(self.trace_trace_id@, u128::MAX as int) {
                Some(hex_value(hex_body(self.trace_trace_id@)) as u128)
            } else {
                None::<u128>
            },
    {
        parse_hex_u128(self.trace_trace_id.as_str())
    }

    /// The span identifier parsed as a 64-bit value; `None` when the stored
    /// text is not a hex numeral in range.
    pub fn otel_span_id(&self) -> (r: Option<u64>)
        ensures
            r == if hex_parse_ok(self.trace_span_id@, u64::MAX as int) {
                Some(hex_value(hex_body(self.trace_span_id@)) as u64)
            } else {
                None::<u64>
            },
    {
        parse_hex_u64(self.trace_span_id.as_str())
    }

    /// The parent span identifier parsed as a 64-bit value; `None` when there
    /// is no parent or its text is not a hex numeral in range.
    pub fn otel_parent_id(&self) -> (r: Option<u64>)
        ensures
            r == match self.trace_parent_id {
                Some(p) => if hex_parse_ok(p@, u64::MAX as int) {
                    Some(hex_value(hex_body(p@)) as u64)
                } else {
                    None::<u64>
                },
                None => None::<u64>,
            },
    {
        match &self.trace_parent_id {
            Some(p) => parse_hex_u64(p.as_str()),
            None => None,
        }
    }
}

} // verus!
