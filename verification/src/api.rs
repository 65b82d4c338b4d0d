//! The computational half of the span-open requests: identifier rendering,
//! the W3C trace-context header, and registration in the store.
//!
//! Identifier generation itself is a collaborator's job: callers hand these
//! functions already-generated random identifiers and perform the HTTP
//! framing around them.

use vstd::prelude::*;

use crate::attrs::attr_keys_unique;
use crate::hexfmt::{hex_fixed, span_id_hex, trace_id_hex};
use crate::span::{fresh_span, QueryAttributes};
use crate::span_store::SpanStore;

verus! {

/// The W3C trace-context header value: version `00`, the two identifiers,
/// sampled flag `01`.
pub open spec fn traceparent_of(trace_id: Seq<char>, span_id: Seq<char>) -> Seq<char> {
    "00-"@ + trace_id + "-"@ + span_id + "-01"@
}

/// Renders the `traceparent` header value for the given identifiers.
pub fn traceparent(trace_id: &str, span_id: &str) -> (r: String)
    ensures
        r@ == traceparent_of(trace_id@, span_id@),
{
    let mut out = String::from_str("00-");
    out.append(trace_id);
    out.append("-");
    out.append(span_id);
    out.append("-01");
    proof {
        assert(out@ =~= traceparent_of(trace_id@, span_id@));
    }
    out
}

/// What a span-open request hands back to the caller.
pub struct OpenResponse {
    pub trace_id: String,
    pub span_id: String,
    pub traceparent: String,
}

/// Opens a root span: renders the fresh identifiers as lowercase hex,
/// registers the span without a parent, and returns the response fields.
pub fn open_root(
    store: &mut SpanStore,
    trace_id: u128,
    span_id: u64,
    query_attributes: QueryAttributes,
) -> (r: OpenResponse)
    requires
        old(store).wf(),
        attr_keys_unique(query_attributes.extra@),
    ensures
        final(store).wf(),
        final(store)@.clock >= old(store)@.clock,
        r.trace_id@ == hex_fixed(trace_id as int, 32),
        r.span_id@ == hex_fixed(span_id as int, 16),
        r.traceparent@ == traceparent_of(r.trace_id@, r.span_id@),
        final(store)@.spans == old(store)@.spans.insert(
            (r.trace_id@, r.span_id@),
            fresh_span(r.trace_id@, r.span_id@, None, query_attributes@, final(store)@.clock),
        ),
{
    let t = trace_id_hex(trace_id);
    let s = span_id_hex(span_id);
    let tp = traceparent(t.as_str(), s.as_str());
    store.insert(t.clone(), s.clone(), None, query_attributes);
    OpenResponse { trace_id: t, span_id: s, traceparent: tp }
}

/// Opens a child span under a parent named in the request path: the trace
/// identifier is taken over verbatim, the parent is the path's span
/// identifier, and only the child's own identifier is fresh.
pub fn open_child(
    store: &mut SpanStore,
    trace_id: String,
    parent_span_id: String,
    span_id: u64,
    query_attributes: QueryAttributes,
) -> (r: OpenResponse)
    requires
        old(store).wf(),
        attr_keys_unique(query_attributes.extra@),
    ensures
        final(store).wf(),
        final(store)@.clock >= old(store)@.clock,
        r.trace_id@ == trace_id@,
        r.span_id@ == hex_fixed(span_id as int, 16),
        r.traceparent@ == traceparent_of(r.trace_id@, r.span_id@),
        final(store)@.spans == old(store)@.spans.insert(
            (trace_id@, r.span_id@),
            fresh_span(
                trace_id@,
                r.span_id@,
                Some(parent_span_id@),
                query_attributes@,
                final(store)@.clock,
            ),
        ),
{
    let s = span_id_hex(span_id);
    let tp = traceparent(trace_id.as_str(), s.as_str());
    store.insert(trace_id.clone(), s.clone(), Some(parent_span_id), query_attributes);
    OpenResponse { trace_id, span_id: s, traceparent: tp }
}

} // verus!
