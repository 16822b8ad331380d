use vstd::prelude::*;
use std::time::Instant;
use crate::concurrent_maps::{elapsed_ms, instant_now};
use crate::distributed_tracing::{DistributedTraceContext, SpanRecorder, TracingMetrics};
use crate::kv::{kv_insert, kv_views};
use crate::text::{decimal, decimal_string};

verus! {

/// Duration `elapsed` of a span, clamped so the duration total stays representable.
fn clamped_duration(elapsed: u64, metrics: &TracingMetrics) -> (d: u64)
    ensures
        d == if elapsed <= u64::MAX - metrics.total_span_duration_ms {
            elapsed
        } else {
            (u64::MAX - metrics.total_span_duration_ms) as u64
        },
        metrics.total_span_duration_ms + d <= u64::MAX,
{
    let room = u64::MAX - metrics.total_span_duration_ms;
    if elapsed <= room { elapsed } else { room }
}

/// Effect of a successful end on the span counters, for a duration `d`.
pub open spec fn completed(m: TracingMetrics, d: u64) -> TracingMetrics {
    TracingMetrics {
        completed_spans: (m.completed_spans + 1) as u64,
        total_span_duration_ms: (m.total_span_duration_ms + d) as u64,
        ..m
    }
}

/// Effect of a failure on the span counters.
pub open spec fn failed(m: TracingMetrics) -> TracingMetrics {
    TracingMetrics { failed_spans: (m.failed_spans + 1) as u64, ..m }
}

/// An open span: its context, its recorder and its start time.
pub struct AllocationSpan {
    pub context: DistributedTraceContext,
    recorder: SpanRecorder,
    start: Instant,
}

pub struct DeallocationSpan {
    pub context: DistributedTraceContext,
    recorder: SpanRecorder,
    start: Instant,
}

pub struct GrpcCallSpan {
    pub context: DistributedTraceContext,
    recorder: SpanRecorder,
    start: Instant,
}

pub struct RemoteAllocationSpan {
    pub context: DistributedTraceContext,
    recorder: SpanRecorder,
    start: Instant,
}

impl AllocationSpan {
    pub closed spec fn recorder_spec(&self) -> SpanRecorder {
        self.recorder
    }

    pub closed spec fn ctx(&self) -> DistributedTraceContext {
        self.context
    }

    /// The span ended well: counted as completed with its elapsed time.
    pub fn success(self, metrics: &mut TracingMetrics)
        requires
            old(metrics).completed_spans < u64::MAX,
        ensures
            exists|d: u64| *final(metrics) == completed(*old(metrics), d),
    {
        let ghost m0 = *metrics;
        let d = clamped_duration(elapsed_ms(&self.start), metrics);
        self.recorder.record_success(&self.context, d);
        metrics.record_completion(d);
        assert(*metrics == completed(m0, d));
    }

    /// The span failed: counted as failed.
    pub fn error(self, metrics: &mut TracingMetrics, error: &str)
        requires
            old(metrics).failed_spans < u64::MAX,
        ensures
            *final(metrics) == failed(*old(metrics)),
    {
        self.recorder.record_error(&self.context, error);
        metrics.record_error();
    }
}

impl DeallocationSpan {
    pub closed spec fn recorder_spec(&self) -> SpanRecorder {
        self.recorder
    }

    pub closed spec fn ctx(&self) -> DistributedTraceContext {
        self.context
    }

    /// The span ended well: counted as completed with its elapsed time.
    pub fn success(self, metrics: &mut TracingMetrics)
        requires
            old(metrics).completed_spans < u64::MAX,
        ensures
            exists|d: u64| *final(metrics) == completed(*old(metrics), d),
    {
        let ghost m0 = *metrics;
        let d = clamped_duration(elapsed_ms(&self.start), metrics);
        self.recorder.record_success(&self.context, d);
        metrics.record_completion(d);
        assert(*metrics == completed(m0, d));
    }

    /// The span failed: counted as failed.
    pub fn error(self, metrics: &mut TracingMetrics, error: &str)
        requires
            old(metrics).failed_spans < u64::MAX,
        ensures
            *final(metrics) == failed(*old(metrics)),
    {
        self.recorder.record_error(&self.context, error);
        metrics.record_error();
    }
}

impl GrpcCallSpan {
    pub closed spec fn recorder_spec(&self) -> SpanRecorder {
        self.recorder
    }

    pub closed spec fn ctx(&self) -> DistributedTraceContext {
        self.context
    }

    /// The span ended well: counted as completed with its elapsed time.
    pub fn success(self, metrics: &mut TracingMetrics)
        requires
            old(metrics).completed_spans < u64::MAX,
        ensures
            exists|d: u64| *final(metrics) == completed(*old(metrics), d),
    {
        let ghost m0 = *metrics;
        let d = clamped_duration(elapsed_ms(&self.start), metrics);
        self.recorder.record_success(&self.context, d);
        metrics.record_completion(d);
        assert(*metrics == completed(m0, d));
    }

    /// The span failed: counted as failed.
    pub fn error(self, metrics: &mut TracingMetrics, error: &str)
        requires
            old(metrics).failed_spans < u64::MAX,
        ensures
            *final(metrics) == failed(*old(metrics)),
    {
        self.recorder.record_error(&self.context, error);
        metrics.record_error();
    }
}

impl RemoteAllocationSpan {
    pub closed spec fn recorder_spec(&self) -> SpanRecorder {
        self.recorder
    }

    pub closed spec fn ctx(&self) -> DistributedTraceContext {
        self.context
    }

    /// The span ended well: counted as completed with its elapsed time.
    pub fn success(self, metrics: &mut TracingMetrics)
        requires
            old(metrics).completed_spans < u64::MAX,
        ensures
            exists|d: u64| *final(metrics) == completed(*old(metrics), d),
    {
        let ghost m0 = *metrics;
        let d = clamped_duration(elapsed_ms(&self.start), metrics);
        self.recorder.record_success(&self.context, d);
        metrics.record_completion(d);
        assert(*metrics == completed(m0, d));
    }

    /// The span failed: counted as failed.
    pub fn error(self, metrics: &mut TracingMetrics, error: &str)
        requires
            old(metrics).failed_spans < u64::MAX,
        ensures
            *final(metrics) == failed(*old(metrics)),
    {
        self.recorder.record_error(&self.context, error);
        metrics.record_error();
    }
}

/// Instrumentation of scheduler operations. Remote allocations continue the trace
/// of the last allocation opened.
pub struct SchedulerTracing {
    metrics: TracingMetrics,
    current_trace: Option<DistributedTraceContext>,
}

impl SchedulerTracing {
    pub closed spec fn metrics_spec(&self) -> TracingMetrics {
        self.metrics
    }

    /// The context of the last allocation opened, if any.
    pub closed spec fn current_trace(&self) -> Option<DistributedTraceContext> {
        self.current_trace
    }

    /// All span counters at zero.
    pub fn new() -> (r: Self)
        ensures
            r.metrics_spec() == TracingMetrics::new_spec(),
            r.current_trace() is None,
    {
        SchedulerTracing { metrics: TracingMetrics::new(), current_trace: None }
    }

    /// The span counters.
    pub fn metrics(&self) -> (r: &TracingMetrics)
        ensures
            *r == self.metrics_spec(),
    {
        &self.metrics
    }

    /// The span counters, for recording ends of spans.
    pub fn metrics_mut(&mut self) -> (r: &mut TracingMetrics)
        ensures
            *r == old(self).metrics_spec(),
            final(self).metrics_spec() == *final(r),
            final(self).current_trace() == old(self).current_trace(),
    {
        &mut self.metrics
    }

    /// Open a span `allocate_global` with the block count and request id as attributes,
    /// in a new trace that later remote allocations continue.
    pub fn trace_allocation(&mut self, request_id: &str, num_blocks: usize) -> (r: AllocationSpan)
        requires
            old(self).metrics_spec().total_spans < u64::MAX,
        ensures
            final(self).metrics_spec() == (TracingMetrics {
                total_spans: (old(self).metrics_spec().total_spans + 1) as u64,
                ..old(self).metrics_spec()
            }),
            final(self).current_trace() matches Some(c) && c.trace_id@ == r.ctx().trace_id@
                && c.span_id@ == r.ctx().span_id@,
            r.ctx().trace_id@.len() == 36,
            r.ctx().parent_span_id is None,
            r.recorder_spec().operation_spec() == "allocate_global"@,
            r.recorder_spec().attributes_spec() == kv_insert(kv_insert(Seq::empty(),
                "num_blocks"@, decimal(num_blocks as nat)), "request_id"@, request_id@),
    {
        let ctx = DistributedTraceContext::new(request_id);
        let recorder = SpanRecorder::new("allocate_global")
            .with_attribute(String::from_str("num_blocks"), decimal_string(num_blocks as u64))
            .with_attribute(String::from_str("request_id"), request_id.to_owned());
        recorder.record(&ctx);
        self.metrics.record_span();
        self.current_trace = Some(ctx.duplicate());
        AllocationSpan { context: ctx, recorder, start: instant_now() }
    }

    /// Open a span `deallocate_global` with the block count and request id as attributes.
    pub fn trace_deallocation(&mut self, request_id: &str, num_blocks: usize) -> (r: DeallocationSpan)
        requires
            old(self).metrics_spec().total_spans < u64::MAX,
        ensures
            final(self).metrics_spec() == (TracingMetrics {
                total_spans: (old(self).metrics_spec().total_spans + 1) as u64,
                ..old(self).metrics_spec()
            }),
            r.ctx().trace_id@.len() == 36,
            r.ctx().parent_span_id is None,
            final(self).current_trace() == old(self).current_trace(),
            r.recorder_spec().operation_spec() == "deallocate_global"@,
            r.recorder_spec().attributes_spec() == kv_insert(kv_insert(Seq::empty(),
                "num_blocks"@, decimal(num_blocks as nat)), "request_id"@, request_id@),
    {
        let ctx = DistributedTraceContext::new(request_id);
        let recorder = SpanRecorder::new("deallocate_global")
            .with_attribute(String::from_str("num_blocks"), decimal_string(num_blocks as u64))
            .with_attribute(String::from_str("request_id"), request_id.to_owned());
        recorder.record(&ctx);
        self.metrics.record_span();
        DeallocationSpan { context: ctx, recorder, start: instant_now() }
    }

    /// Open a span `grpc_<method>` with the peer and method as attributes.
    pub fn trace_grpc_call(&mut self, method: &str, peer_node: &str) -> (r: GrpcCallSpan)
        requires
            old(self).metrics_spec().total_spans < u64::MAX,
        ensures
            final(self).metrics_spec() == (TracingMetrics {
                total_spans: (old(self).metrics_spec().total_spans + 1) as u64,
                ..old(self).metrics_spec()
            }),
            r.ctx().trace_id@.len() == 36,
            r.ctx().parent_span_id is None,
            final(self).current_trace() == old(self).current_trace(),
            r.recorder_spec().operation_spec() == "grpc_"@ + method@,
            r.recorder_spec().attributes_spec() == kv_insert(kv_insert(Seq::empty(),
                "peer_node"@, peer_node@), "method"@, method@),
    {
        let ctx = DistributedTraceContext::new(method);
        let mut op = String::from_str("grpc_");
        op.append(method);
        let recorder = SpanRecorder::new(op.as_str())
            .with_attribute(String::from_str("peer_node"), peer_node.to_owned())
            .with_attribute(String::from_str("method"), method.to_owned());
        recorder.record(&ctx);
        self.metrics.record_span();
        GrpcCallSpan { context: ctx, recorder, start: instant_now() }
    }

    /// Open a span `allocate_remote` with the remote node, block count and request id
    /// as attributes; its context is a child of the last allocation's (a new trace
    /// when there is none) and carries the operation and remote node as baggage.
    pub fn trace_remote_allocation(&mut self, request_id: &str, remote_node: &str, num_blocks: usize) -> (r: RemoteAllocationSpan)
        requires
            old(self).metrics_spec().total_spans < u64::MAX,
        ensures
            final(self).metrics_spec() == (TracingMetrics {
                total_spans: (old(self).metrics_spec().total_spans + 1) as u64,
                ..old(self).metrics_spec()
            }),
            final(self).current_trace() == old(self).current_trace(),
            match old(self).current_trace() {
                Some(c) => {
                    &&& r.ctx().trace_id@ == c.trace_id@
                    &&& r.ctx().parent_span_id == Some(c.span_id)
                    &&& kv_views(r.ctx().baggage@) == kv_insert(kv_insert(kv_views(c.baggage@),
                        "operation"@, "remote_allocate"@), "remote_node"@, remote_node@)
                },
                None => {
                    &&& r.ctx().trace_id@.len() == 36
                    &&& r.ctx().parent_span_id is None
                    &&& kv_views(r.ctx().baggage@) == kv_insert(kv_insert(Seq::empty(),
                        "operation"@, "remote_allocate"@), "remote_node"@, remote_node@)
                },
            },
            r.recorder_spec().operation_spec() == "allocate_remote"@,
            r.recorder_spec().attributes_spec() == kv_insert(kv_insert(kv_insert(Seq::empty(),
                "remote_node"@, remote_node@), "num_blocks"@, decimal(num_blocks as nat)), "request_id"@, request_id@),
    {
        let ctx0 = match &self.current_trace {
            Some(root) => root.child(),
            None => {
                let c = DistributedTraceContext::new(request_id);
                assert(kv_views(c.baggage@) =~= Seq::<(Seq<char>, Seq<char>)>::empty());
                c
            },
        };
        let ctx = ctx0
            .with_baggage(String::from_str("operation"), String::from_str("remote_allocate"))
            .with_baggage(String::from_str("remote_node"), remote_node.to_owned());
        let recorder = SpanRecorder::new("allocate_remote")
            .with_attribute(String::from_str("remote_node"), remote_node.to_owned())
            .with_attribute(String::from_str("num_blocks"), decimal_string(num_blocks as u64))
            .with_attribute(String::from_str("request_id"), request_id.to_owned());
        recorder.record(&ctx);
        self.metrics.record_span();
        RemoteAllocationSpan { context: ctx, recorder, start: instant_now() }
    }
}

} // verus!
