use aegis::distributed_tracing::DistributedTraceContext;
use aegis::otlp_export::{OtlpExporter, OtlpExporterConfig, SpanEvent};
use aegis::tracing_integration::SchedulerTracing;

/// A metric event as the exporter buffers it.
#[derive(Debug, Clone)]
struct Metric {
    name: String,
    value: f64,
    unit: String,
}

fn metric(name: &str, value: f64, unit: &str) -> Metric {
    Metric { name: name.to_string(), value, unit: unit.to_string() }
}

#[test]
fn test_single_node_trace() {
    let mut tracing = SchedulerTracing::new();

    let span = tracing.trace_allocation("req-1", 100);
    assert!(!span.context.trace_id.is_empty());
    assert_eq!(span.context.parent_span_id, None);

    span.success(tracing.metrics_mut());

    let metrics = tracing.metrics();
    assert_eq!(metrics.completed_spans, 1);
    assert_eq!(metrics.completed_spans as f64 / metrics.total_spans as f64, 1.0);
}

#[test]
fn test_multi_level_trace() {
    let mut tracing = SchedulerTracing::new();

    let root_span = tracing.trace_allocation("req-1", 100);
    let root_trace_id = root_span.context.trace_id.clone();
    let root_span_id = root_span.context.span_id.clone();
    assert_eq!(root_span.context.parent_span_id, None);
    root_span.success(tracing.metrics_mut());

    let remote_span = tracing.trace_remote_allocation("req-1", "node-2", 50);
    assert_eq!(remote_span.context.trace_id, root_trace_id);
    assert_ne!(remote_span.context.span_id, root_span_id);
    remote_span.success(tracing.metrics_mut());

    let metrics = tracing.metrics();
    assert_eq!(metrics.total_spans, 2);
    assert_eq!(metrics.completed_spans, 2);
}

#[test]
fn test_trace_header_propagation() {
    let ctx = DistributedTraceContext::new("req-1");
    let trace_id = ctx.trace_id.clone();
    let span_id = ctx.span_id.clone();

    let headers = ctx.to_headers();
    assert_eq!(headers.len(), 3);

    let trace_header = headers.iter().find(|(k, _)| k == "x-trace-id").map(|(_, v)| v.clone()).unwrap();
    assert_eq!(trace_header, trace_id);

    let restored_ctx = DistributedTraceContext::from_headers(&headers).unwrap();
    assert_eq!(restored_ctx.trace_id, trace_id);
    assert_eq!(restored_ctx.span_id, span_id);
}

#[test]
fn test_cross_node_trace_continuation() {
    let mut tracing_node1 = SchedulerTracing::new();
    let span_node1 = tracing_node1.trace_allocation("req-1", 100);
    let context_node1 = span_node1.context.clone();
    let trace_id = context_node1.trace_id.clone();
    span_node1.success(tracing_node1.metrics_mut());

    let headers = context_node1.to_headers();

    let context_node2 = DistributedTraceContext::from_headers(&headers).unwrap();
    assert_eq!(context_node2.trace_id, trace_id);

    let mut tracing_node2 = SchedulerTracing::new();
    let span_node2 = tracing_node2.trace_allocation("req-1", 50);
    span_node2.success(tracing_node2.metrics_mut());

    assert_eq!(tracing_node2.metrics().completed_spans, 1);
}

#[test]
fn test_baggage_propagation_across_nodes() {
    let ctx = DistributedTraceContext::new("req-1")
        .with_baggage("user_id".to_string(), "user-123".to_string())
        .with_baggage("session".to_string(), "sess-456".to_string());

    assert_eq!(ctx.baggage.len(), 2);

    let headers = ctx.to_headers();

    let restored = DistributedTraceContext::from_headers(&headers).unwrap();
    assert_eq!(restored.trace_id, ctx.trace_id);
}

#[test]
fn test_three_node_allocation_trace() {
    let mut tracing1 = SchedulerTracing::new();
    let span1 = tracing1.trace_allocation("req-1", 100);
    let trace_id = span1.context.trace_id.clone();
    span1.success(tracing1.metrics_mut());

    let span2 = tracing1.trace_remote_allocation("req-1", "node-2", 50);
    assert_eq!(span2.context.trace_id, trace_id);
    span2.success(tracing1.metrics_mut());

    let span3 = tracing1.trace_remote_allocation("req-1", "node-3", 25);
    assert_eq!(span3.context.trace_id, trace_id);
    span3.success(tracing1.metrics_mut());

    let metrics = tracing1.metrics();
    assert_eq!(metrics.completed_spans, 3);
    assert_eq!(metrics.completed_spans as f64 / metrics.total_spans as f64, 1.0);
}

#[test]
fn test_error_propagation_in_trace() {
    let mut tracing = SchedulerTracing::new();

    let span1 = tracing.trace_allocation("req-1", 100);
    span1.success(tracing.metrics_mut());

    let span2 = tracing.trace_allocation("req-2", 10000);
    span2.error(tracing.metrics_mut(), "insufficient capacity");

    let span3 = tracing.trace_deallocation("req-3", 100);
    span3.error(tracing.metrics_mut(), "blocks not found");

    let metrics = tracing.metrics();
    assert_eq!(metrics.total_spans, 3);
    assert_eq!(metrics.completed_spans, 1);
    assert_eq!(metrics.failed_spans, 2);
}

#[test]
fn distributed_tracing_e2e_test_span_event_creation() {
    let span = SpanEvent::new("trace-1".to_string(), "span-1".to_string(), "allocate".to_string(), 42);
    assert_eq!(span.trace_id, "trace-1");
    assert_eq!(span.span_id, "span-1");
    assert_eq!(span.operation, "allocate");
    assert_eq!(span.duration_ms, 42);
}

#[test]
fn test_span_event_with_attributes() {
    let span = SpanEvent::new("trace-1".to_string(), "span-1".to_string(), "allocate".to_string(), 42)
        .add_attribute("num_blocks".to_string(), "100".to_string())
        .add_attribute("node_id".to_string(), "node-2".to_string());

    assert_eq!(span.attributes.len(), 2);
    let v = span.attributes.iter().find(|(k, _)| k == "num_blocks").map(|(_, v)| v.clone());
    assert_eq!(v, Some("100".to_string()));
}

#[test]
fn test_otlp_exporter_span_export() {
    let config = OtlpExporterConfig::default();
    let mut exporter: OtlpExporter<Metric> = OtlpExporter::new(config);

    for i in 0..5 {
        let span = SpanEvent::new(format!("trace-{}", i), format!("span-{}", i), "operation".to_string(), 10 + i as u64);
        exporter.add_span(span);
    }

    assert_eq!(exporter.span_buffer_size(), 5);

    exporter.export_spans().unwrap();

    assert_eq!(exporter.span_buffer_size(), 0);
}

#[test]
fn test_otlp_exporter_full_workflow() {
    let config = OtlpExporterConfig::default();
    let mut exporter = OtlpExporter::new(config);

    for i in 0..3 {
        let span = SpanEvent::new(format!("trace-{}", i), format!("span-{}", i), "allocate".to_string(), 10 + i as u64);
        exporter.add_span(span);
        exporter.add_metric(metric(&format!("latency_{}", i), 10.0 + i as f64, "ms"));
    }

    assert_eq!(exporter.span_buffer_size(), 3);
    assert_eq!(exporter.metric_buffer_size(), 3);

    exporter.export_all().unwrap();

    assert_eq!(exporter.span_buffer_size(), 0);
    assert_eq!(exporter.metric_buffer_size(), 0);
}

#[test]
fn test_concurrent_trace_operations() {
    let mut tracing = SchedulerTracing::new();

    let mut allocations = vec![];
    let mut deallocations = vec![];
    for i in 0..10 {
        if i % 2 == 0 {
            allocations.push(tracing.trace_allocation(&format!("req-{}", i), 10));
        } else {
            deallocations.push(tracing.trace_deallocation(&format!("req-{}", i), 5));
        }
    }

    for span in allocations {
        span.success(tracing.metrics_mut());
    }
    for span in deallocations {
        span.success(tracing.metrics_mut());
    }

    let metrics = tracing.metrics();
    assert_eq!(metrics.total_spans, 10);
    assert_eq!(metrics.completed_spans, 10);
}

#[test]
fn test_trace_parent_chain_validation() {
    let root = DistributedTraceContext::new("req-1");
    let root_id = root.trace_id.clone();
    let root_span_id = root.span_id.clone();

    let child1 = root.child();
    assert_eq!(child1.trace_id, root_id);
    assert_ne!(child1.span_id, root_span_id);
    assert_eq!(child1.parent_span_id, Some(root_span_id.clone()));

    let child2 = child1.child();
    assert_eq!(child2.trace_id, root_id);
    assert_ne!(child2.span_id, child1.span_id);
    assert_eq!(child2.parent_span_id, Some(child1.span_id.clone()));

    let child3 = child2.child();
    assert_eq!(child3.trace_id, root_id);
    assert_eq!(child3.parent_span_id, Some(child2.span_id.clone()));
}

#[test]
fn test_grpc_call_span_with_context() {
    let mut tracing = SchedulerTracing::new();

    let span = tracing.trace_grpc_call("AllocateGlobal", "node-2");
    let trace_id = span.context.trace_id.clone();

    let headers = span.context.to_headers();

    assert!(headers.iter().any(|(k, _)| k == "x-trace-id"));
    assert!(headers.iter().any(|(k, _)| k == "x-span-id"));

    let remote_ctx = DistributedTraceContext::from_headers(&headers).unwrap();
    assert_eq!(remote_ctx.trace_id, trace_id);

    span.success(tracing.metrics_mut());
}

#[test]
fn test_metric_buffer_holds_events() {
    let mut exporter: OtlpExporter<Metric> = OtlpExporter::new(OtlpExporterConfig::default());
    exporter.add_metric(metric("allocation_latency", 42.5, "ms"));
    assert_eq!(exporter.metric_buffer_size(), 1);
    let m = metric("allocation_latency", 42.5, "ms");
    assert_eq!(m.name, "allocation_latency");
    assert_eq!(m.value, 42.5);
    assert_eq!(m.unit, "ms");
}

#[test]
fn test_trace_error_and_success_counts() {
    let mut tracing = SchedulerTracing::new();

    for i in 0..10 {
        let span = tracing.trace_allocation(&format!("req-{}", i), 10);
        if i % 3 == 0 {
            span.error(tracing.metrics_mut(), "capacity exceeded");
        } else {
            span.success(tracing.metrics_mut());
        }
    }

    let metrics = tracing.metrics();
    assert_eq!(metrics.total_spans, 10);
    assert_eq!(metrics.completed_spans, 6);
    assert_eq!(metrics.failed_spans, 4);
}
