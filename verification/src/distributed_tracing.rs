use vstd::prelude::*;
use crate::kv::{KvView, kv_copy, kv_get, kv_insert, kv_lookup, kv_set, kv_views};

verus! {

/// `uuid::Uuid::new_v4().to_string()`: a random UUID in hyphenated form, 36 characters.
#[verifier::external_body]
pub(crate) fn uuid_v4() -> (r: String)
    ensures
        r@.len() == 36,
{
    uuid::Uuid::new_v4().to_string()
}

pub open spec fn opt_view(o: Option<String>) -> Option<Seq<char>> {
    match o {
        Some(s) => Some(s@),
        None => None,
    }
}

/// Trace context carried across nodes.
#[derive(Clone, Debug)]
pub struct DistributedTraceContext {
    pub trace_id: String,
    pub span_id: String,
    pub parent_span_id: Option<String>,
    /// Baggage items, each key once.
    pub baggage: Vec<(String, String)>,
}

/// The header names a context travels under.
pub open spec fn trace_header() -> Seq<char> { "x-trace-id"@ }
pub open spec fn span_header() -> Seq<char> { "x-span-id"@ }
pub open spec fn parent_header() -> Seq<char> { "x-parent-span-id"@ }

/// What reading the headers in order collects: the trace id, the span id and a
/// non-empty parent span id; a later header overrides an earlier one.
pub open spec fn scan_headers(h: KvView) -> (Option<Seq<char>>, Option<Seq<char>>, Option<Seq<char>>)
    decreases h.len(),
{
    if h.len() == 0 {
        (None, None, None)
    } else {
        let (t, s, p) = scan_headers(h.drop_last());
        let (k, v) = h.last();
        if k == trace_header() {
            (Some(v), s, p)
        } else if k == span_header() {
            (t, Some(v), p)
        } else if k == parent_header() && v.len() > 0 {
            (t, s, Some(v))
        } else {
            (t, s, p)
        }
    }
}

impl DistributedTraceContext {
    /// A root context with fresh trace and span ids and no baggage.
    pub fn new(request_id: &str) -> (r: Self)
        ensures
            r.trace_id@.len() == 36,
            r.span_id@.len() == 36,
            r.parent_span_id is None,
            r.baggage@.len() == 0,
    {
        DistributedTraceContext {
            trace_id: uuid_v4(),
            span_id: uuid_v4(),
            parent_span_id: None,
            baggage: Vec::new(),
        }
    }

    /// A child context: same trace and baggage, a fresh span id, this span as parent.
    pub fn child(&self) -> (r: Self)
        ensures
            r.trace_id@ == self.trace_id@,
            r.span_id@.len() == 36,
            r.parent_span_id == Some(self.span_id),
            kv_views(r.baggage@) == kv_views(self.baggage@),
    {
        DistributedTraceContext {
            trace_id: self.trace_id.clone(),
            span_id: uuid_v4(),
            parent_span_id: Some(self.span_id.clone()),
            baggage: kv_copy(&self.baggage),
        }
    }

    /// A copy of this context.
    pub fn duplicate(&self) -> (r: Self)
        ensures
            r.trace_id@ == self.trace_id@,
            r.span_id@ == self.span_id@,
            opt_view(r.parent_span_id) == opt_view(self.parent_span_id),
            kv_views(r.baggage@) == kv_views(self.baggage@),
    {
        DistributedTraceContext {
            trace_id: self.trace_id.clone(),
            span_id: self.span_id.clone(),
            parent_span_id: match &self.parent_span_id {
                Some(p) => Some(p.clone()),
                None => None,
            },
            baggage: kv_copy(&self.baggage),
        }
    }

    /// Set a baggage item.
    pub fn with_baggage(self, key: String, value: String) -> (r: Self)
        ensures
            r.trace_id == self.trace_id,
            r.span_id == self.span_id,
            r.parent_span_id == self.parent_span_id,
            kv_views(r.baggage@) == kv_insert(kv_views(self.baggage@), key@, value@),
    {
        let mut s = self;
        kv_set(&mut s.baggage, key, value);
        s
    }

    /// The value of a baggage item.
    pub fn baggage_value(&self, key: &str) -> (r: Option<String>)
        ensures
            opt_view(r) == kv_lookup(kv_views(self.baggage@), key@),
    {
        kv_get(&self.baggage, key)
    }

    /// Metadata headers: trace id, span id and parent span id (empty when none).
    pub fn to_headers(&self) -> (r: Vec<(String, String)>)
        ensures
            kv_views(r@) == seq![
                (trace_header(), self.trace_id@),
                (span_header(), self.span_id@),
                (parent_header(), match self.parent_span_id {
                    Some(p) => p@,
                    None => Seq::<char>::empty(),
                }),
            ],
    {
        let parent = match &self.parent_span_id {
            Some(p) => p.clone(),
            None => String::new(),
        };
        let mut v: Vec<(String, String)> = Vec::new();
        v.push((String::from_str("x-trace-id"), self.trace_id.clone()));
        v.push((String::from_str("x-span-id"), self.span_id.clone()));
        v.push((String::from_str("x-parent-span-id"), parent));
        assert(kv_views(v@) =~= seq![
            (trace_header(), self.trace_id@),
            (span_header(), self.span_id@),
            (parent_header(), match self.parent_span_id {
                Some(p) => p@,
                None => Seq::<char>::empty(),
            }),
        ]);
        v
    }

    /// Read a context from metadata headers: present when both a trace id and a span
    /// id are found; a later header overrides an earlier one and an empty parent span
    /// id is ignored. The baggage is empty.
    pub fn from_headers(headers: &[(String, String)]) -> (r: Option<Self>)
        ensures
            ({
                let (t, s, p) = scan_headers(kv_views(headers@));
                &&& (t is Some && s is Some) == r is Some
                &&& r is Some ==> {
                    &&& Some(r->0.trace_id@) == t
                    &&& Some(r->0.span_id@) == s
                    &&& opt_view(r->0.parent_span_id) == p
                    &&& r->0.baggage@.len() == 0
                }
            }),
    {
        let k_trace = String::from_str("x-trace-id");
        let k_span = String::from_str("x-span-id");
        let k_parent = String::from_str("x-parent-span-id");
        let ghost hv = kv_views(headers@);
        let mut trace_id: Option<String> = None;
        let mut span_id: Option<String> = None;
        let mut parent_span_id: Option<String> = None;
        let mut i: usize = 0;
        while i < headers.len()
            invariant
                i <= headers.len(),
                hv == kv_views(headers@),
                k_trace@ == trace_header(),
                k_span@ == span_header(),
                k_parent@ == parent_header(),
                scan_headers(hv.take(i as int)) == (opt_view(trace_id), opt_view(span_id), opt_view(parent_span_id)),
            decreases headers.len() - i,
        {
            assert(hv.take(i as int + 1).drop_last() == hv.take(i as int));
            assert(hv.take(i as int + 1).last() == hv[i as int]);
            let key = &headers[i].0;
            let value = &headers[i].1;
            if *key == k_trace {
                trace_id = Some(value.clone());
            } else if *key == k_span {
                span_id = Some(value.clone());
            } else if *key == k_parent && value.as_str().unicode_len() > 0 {
                parent_span_id = Some(value.clone());
            }
            i = i + 1;
        }
        assert(hv.take(headers.len() as int) == hv);
        match (trace_id, span_id) {
            (Some(t), Some(s)) => Some(DistributedTraceContext {
                trace_id: t,
                span_id: s,
                parent_span_id,
                baggage: Vec::new(),
            }),
            _ => None,
        }
    }
}

/// Records spans of one operation with its attributes.
pub struct SpanRecorder {
    operation: String,
    attributes: Vec<(String, String)>,
}

impl SpanRecorder {
    pub closed spec fn operation_spec(&self) -> Seq<char> {
        self.operation@
    }

    pub closed spec fn attributes_spec(&self) -> KvView {
        kv_views(self.attributes@)
    }

    /// A recorder for `operation` with no attribute.
    pub fn new(operation: &str) -> (r: Self)
        ensures
            r.operation_spec() == operation@,
            r.attributes_spec() == Seq::<(Seq<char>, Seq<char>)>::empty(),
    {
        let r = SpanRecorder { operation: operation.to_owned(), attributes: Vec::new() };
        assert(r.attributes_spec() =~= Seq::<(Seq<char>, Seq<char>)>::empty());
        r
    }

    /// Set an attribute.
    pub fn with_attribute(self, key: String, value: String) -> (r: Self)
        ensures
            r.operation_spec() == self.operation_spec(),
            r.attributes_spec() == kv_insert(self.attributes_spec(), key@, value@),
    {
        let mut s = self;
        kv_set(&mut s.attributes, key, value);
        s
    }

    /// The operation recorded.
    pub fn operation(&self) -> (r: &String)
        ensures
            r@ == self.operation_spec(),
    {
        &self.operation
    }

    /// The attributes set.
    pub fn attributes(&self) -> (r: &Vec<(String, String)>)
        ensures
            kv_views(r@) == self.attributes_spec(),
    {
        &self.attributes
    }

    /// Record the span start for a context (an event for the log; no state changes).
    pub fn record(&self, trace_ctx: &DistributedTraceContext) {
    }

    /// Record the span's successful end (an event for the log; no state changes).
    pub fn record_success(&self, trace_ctx: &DistributedTraceContext, duration_ms: u64) {
    }

    /// Record the span's failure (an event for the log; no state changes).
    pub fn record_error(&self, trace_ctx: &DistributedTraceContext, error: &str) {
    }
}

/// Counters of traced spans.
#[derive(Clone, Copy, Debug, PartialEq, Eq, Default)]
pub struct TracingMetrics {
    pub total_spans: u64,
    pub completed_spans: u64,
    pub failed_spans: u64,
    pub total_span_duration_ms: u64,
}

impl TracingMetrics {
    pub open spec fn new_spec() -> Self {
        TracingMetrics { total_spans: 0, completed_spans: 0, failed_spans: 0, total_span_duration_ms: 0 }
    }

    /// All counters at zero.
    pub fn new() -> (r: Self)
        ensures
            r == Self::new_spec(),
    {
        TracingMetrics { total_spans: 0, completed_spans: 0, failed_spans: 0, total_span_duration_ms: 0 }
    }

    /// A span started.
    pub fn record_span(&mut self)
        requires
            old(self).total_spans < u64::MAX,
        ensures
            *final(self) == (TracingMetrics { total_spans: (old(self).total_spans + 1) as u64, ..*old(self) }),
    {
        self.total_spans = self.total_spans + 1;
    }

    /// A span completed after `duration_ms`.
    pub fn record_completion(&mut self, duration_ms: u64)
        requires
            old(self).completed_spans < u64::MAX,
            old(self).total_span_duration_ms + duration_ms <= u64::MAX,
        ensures
            *final(self) == (TracingMetrics {
                completed_spans: (old(self).completed_spans + 1) as u64,
                total_span_duration_ms: (old(self).total_span_duration_ms + duration_ms) as u64,
                ..*old(self)
            }),
    {
        self.completed_spans = self.completed_spans + 1;
        self.total_span_duration_ms = self.total_span_duration_ms + duration_ms;
    }

    /// A span failed.
    pub fn record_error(&mut self)
        requires
            old(self).failed_spans < u64::MAX,
        ensures
            *final(self) == (TracingMetrics { failed_spans: (old(self).failed_spans + 1) as u64, ..*old(self) }),
    {
        self.failed_spans = self.failed_spans + 1;
    }
}

} // verus!

verus! {

/// Headers round trip: reading back the headers a context writes gives its trace id,
/// its span id, and its parent span id when that is set and not empty.
pub proof fn lemma_headers_round_trip(t: Seq<char>, s: Seq<char>, p: Seq<char>)
    ensures
        scan_headers(seq![(trace_header(), t), (span_header(), s), (parent_header(), p)])
            == (Some(t), Some(s), if p.len() > 0 { Some(p) } else { None::<Seq<char>> }),
{
    reveal_strlit("x-trace-id");
    reveal_strlit("x-span-id");
    reveal_strlit("x-parent-span-id");
    let h = seq![(trace_header(), t), (span_header(), s), (parent_header(), p)];
    assert(trace_header().len() != span_header().len());
    assert(trace_header().len() != parent_header().len());
    assert(span_header().len() != parent_header().len());
    assert(h.drop_last() =~= seq![(trace_header(), t), (span_header(), s)]);
    assert(h.drop_last().drop_last() =~= seq![(trace_header(), t)]);
    assert(h.drop_last().drop_last().drop_last() =~= Seq::<(Seq<char>, Seq<char>)>::empty());
    let h1 = h.drop_last().drop_last();
    assert(h1.len() == 1);
    assert(h1.last() == (trace_header(), t));
    assert(h1.drop_last().len() == 0);
    assert(scan_headers(h1.drop_last()) == (None::<Seq<char>>, None::<Seq<char>>, None::<Seq<char>>));
    assert(scan_headers(h1) == (Some(t), None::<Seq<char>>, None::<Seq<char>>));
    let h2 = h.drop_last();
    assert(h2.last() == (span_header(), s));
    assert(h2.drop_last() == h1);
    assert(scan_headers(h.drop_last()) == (Some(t), Some(s), None::<Seq<char>>));
}

} // verus!
