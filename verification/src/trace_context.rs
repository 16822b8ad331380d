use vstd::prelude::*;
use crate::distributed_tracing::uuid_v4;

verus! {

/// A fresh trace id: a random UUID in hyphenated form.
pub fn generate_trace_id() -> (r: String)
    ensures
        r@.len() == 36,
{
    uuid_v4()
}

/// Trace context propagated across async boundaries.
#[derive(Clone, Debug)]
pub struct TraceContext {
    pub trace_id: String,
    pub span_id: String,
    pub parent_span_id: Option<String>,
}

impl TraceContext {
    /// A root context with fresh ids.
    pub fn new() -> (r: Self)
        ensures
            r.trace_id@.len() == 36,
            r.span_id@.len() == 36,
            r.parent_span_id is None,
    {
        TraceContext { trace_id: generate_trace_id(), span_id: uuid_v4(), parent_span_id: None }
    }

    /// A child: same trace, fresh span id, this span as parent.
    pub fn child(&self) -> (r: Self)
        ensures
            r.trace_id == self.trace_id,
            r.span_id@.len() == 36,
            r.parent_span_id == Some(self.span_id),
    {
        TraceContext { trace_id: self.trace_id.clone(), span_id: uuid_v4(), parent_span_id: Some(self.span_id.clone()) }
    }
}

impl Default for TraceContext {
    /// A root context with fresh ids.
    fn default() -> (r: Self)
        ensures
            r.trace_id@.len() == 36,
            r.span_id@.len() == 36,
            r.parent_span_id is None,
    {
        Self::new()
    }
}

} // verus!
