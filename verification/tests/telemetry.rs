use aegis::distributed_tracing::{DistributedTraceContext, SpanRecorder, TracingMetrics};
use aegis::otlp_export::{OtlpExporter, OtlpExporterConfig, SpanEvent, SpanStatus};
use aegis::trace_context::TraceContext;

#[derive(Debug, Clone)]
struct Metric {
    name: String,
    value: f64,
}

#[test]
fn distributed_tracing_test_trace_context_creation() {
    let ctx = DistributedTraceContext::new("req-1");
    assert!(!ctx.trace_id.is_empty());
    assert!(!ctx.span_id.is_empty());
    assert_eq!(ctx.parent_span_id, None);
}

#[test]
fn test_trace_context_child() {
    let parent = DistributedTraceContext::new("req-1");
    let child = parent.child();

    assert_eq!(child.trace_id, parent.trace_id);
    assert_ne!(child.span_id, parent.span_id);
    assert_eq!(child.parent_span_id, Some(parent.span_id));
}

#[test]
fn test_trace_context_headers() {
    let ctx = DistributedTraceContext::new("req-1").with_baggage("user_id".to_string(), "user-123".to_string());

    let headers = ctx.to_headers();
    assert_eq!(headers.len(), 3);
    assert!(headers.iter().any(|(k, _)| k == "x-trace-id"));
    assert!(headers.iter().any(|(k, _)| k == "x-span-id"));
}

#[test]
fn test_trace_context_from_headers() {
    let headers = vec![
        ("x-trace-id".to_string(), "trace-123".to_string()),
        ("x-span-id".to_string(), "span-456".to_string()),
    ];

    let ctx = DistributedTraceContext::from_headers(&headers).unwrap();
    assert_eq!(ctx.trace_id, "trace-123");
    assert_eq!(ctx.span_id, "span-456");
    assert_eq!(ctx.parent_span_id, None);
}

#[test]
fn test_span_recorder() {
    let recorder = SpanRecorder::new("allocate_global").with_attribute("num_blocks".to_string(), "100".to_string());

    let ctx = DistributedTraceContext::new("req-1");
    recorder.record(&ctx);
    recorder.record_success(&ctx, 42);
}

#[test]
fn test_tracing_metrics() {
    let mut metrics = TracingMetrics::new();
    metrics.record_span();
    metrics.record_completion(50);

    assert_eq!(metrics.total_spans, 1);
    assert_eq!(metrics.completed_spans, 1);
    assert_eq!(metrics.completed_spans as f64 / metrics.total_spans as f64, 1.0);
    assert_eq!(metrics.total_span_duration_ms as f64 / metrics.completed_spans as f64, 50.0);

    metrics.record_span();
    metrics.record_error();
    assert_eq!(metrics.failed_spans, 1);
    assert!((metrics.completed_spans as f64 / metrics.total_spans as f64) < 1.0);
}

#[test]
fn distributed_tracing_test_baggage_propagation() {
    let ctx = DistributedTraceContext::new("req-1")
        .with_baggage("user_id".to_string(), "user-123".to_string())
        .with_baggage("request_type".to_string(), "allocation".to_string());

    assert_eq!(ctx.baggage.len(), 2);
    assert_eq!(ctx.baggage_value("user_id"), Some("user-123".to_string()));
}

#[test]
fn test_from_headers_needs_trace_and_span() {
    let headers = vec![("x-trace-id".to_string(), "t".to_string())];
    assert!(DistributedTraceContext::from_headers(&headers).is_none());
    let headers = vec![
        ("x-trace-id".to_string(), "t".to_string()),
        ("x-span-id".to_string(), "s".to_string()),
        ("x-parent-span-id".to_string(), "p".to_string()),
        ("x-other".to_string(), "o".to_string()),
    ];
    let ctx = DistributedTraceContext::from_headers(&headers).unwrap();
    assert_eq!(ctx.parent_span_id, Some("p".to_string()));
}

#[test]
fn test_headers_round_trip_with_parent() {
    let child = DistributedTraceContext::new("r").child();
    let back = DistributedTraceContext::from_headers(&child.to_headers()).unwrap();
    assert_eq!(back.trace_id, child.trace_id);
    assert_eq!(back.span_id, child.span_id);
    assert_eq!(back.parent_span_id, child.parent_span_id);
}

#[test]
fn test_otlp_config_default() {
    let config = OtlpExporterConfig::default();
    assert!(config.enabled);
    assert_eq!(config.endpoint, "http://localhost:4317");
}

#[test]
fn test_otlp_config_disabled() {
    let config = OtlpExporterConfig::disabled();
    assert!(!config.enabled);
}

#[test]
fn otlp_export_test_span_event_creation() {
    let span = SpanEvent::new("trace-123".to_string(), "span-456".to_string(), "allocate".to_string(), 42);

    assert_eq!(span.trace_id, "trace-123");
    assert_eq!(span.span_id, "span-456");
    assert_eq!(span.operation, "allocate");
    assert_eq!(span.duration_ms, 42);
    assert_eq!(span.status, SpanStatus::Success);
}

#[test]
fn test_span_event_with_parent() {
    let span = SpanEvent::new("trace-1".to_string(), "span-1".to_string(), "op".to_string(), 10)
        .with_parent("parent-span-1".to_string());

    assert_eq!(span.parent_span_id, Some("parent-span-1".to_string()));
}

#[test]
fn test_span_event_with_status() {
    let span = SpanEvent::new("trace-1".to_string(), "span-1".to_string(), "op".to_string(), 10)
        .with_status(SpanStatus::Error);

    assert_eq!(span.status, SpanStatus::Error);
}

#[test]
fn test_otlp_exporter_creation() {
    let config = OtlpExporterConfig::default();
    let exporter: OtlpExporter<Metric> = OtlpExporter::new(config);
    assert_eq!(exporter.span_buffer_size(), 0);
    assert_eq!(exporter.metric_buffer_size(), 0);
}

#[test]
fn test_otlp_exporter_add_span() {
    let config = OtlpExporterConfig::default();
    let mut exporter: OtlpExporter<Metric> = OtlpExporter::new(config);

    let span = SpanEvent::new("trace-1".to_string(), "span-1".to_string(), "op".to_string(), 10);
    exporter.add_span(span);

    assert_eq!(exporter.span_buffer_size(), 1);
}

#[test]
fn test_otlp_exporter_add_metric() {
    let config = OtlpExporterConfig::default();
    let mut exporter = OtlpExporter::new(config);

    exporter.add_metric(Metric { name: "latency".to_string(), value: 42.0 });

    assert_eq!(exporter.metric_buffer_size(), 1);
}

#[test]
fn test_otlp_exporter_export_spans() {
    let config = OtlpExporterConfig::default();
    let mut exporter: OtlpExporter<Metric> = OtlpExporter::new(config);

    exporter.add_span(SpanEvent::new("trace-1".to_string(), "span-1".to_string(), "op".to_string(), 10));
    assert_eq!(exporter.span_buffer_size(), 1);

    exporter.export_spans().unwrap();

    assert_eq!(exporter.span_buffer_size(), 0);
}

#[test]
fn test_otlp_exporter_disabled() {
    let config = OtlpExporterConfig::disabled();
    let mut exporter: OtlpExporter<Metric> = OtlpExporter::new(config);

    exporter.add_span(SpanEvent::new("trace-1".to_string(), "span-1".to_string(), "op".to_string(), 10));

    assert_eq!(exporter.span_buffer_size(), 0);
}

#[test]
fn test_clear_buffers() {
    let config = OtlpExporterConfig::default();
    let mut exporter = OtlpExporter::new(config);

    exporter.add_span(SpanEvent::new("t1".to_string(), "s1".to_string(), "op".to_string(), 10));
    exporter.add_metric(Metric { name: "m1".to_string(), value: 42.0 });

    assert!(exporter.span_buffer_size() > 0);
    assert!(exporter.metric_buffer_size() > 0);

    exporter.clear_buffers();

    assert_eq!(exporter.span_buffer_size(), 0);
    assert_eq!(exporter.metric_buffer_size(), 0);
}

#[test]
fn test_attribute_replaces_same_key() {
    let span = SpanEvent::new("t".to_string(), "s".to_string(), "op".to_string(), 1)
        .add_attribute("k".to_string(), "1".to_string())
        .add_attribute("k".to_string(), "2".to_string());
    assert_eq!(span.attributes, vec![("k".to_string(), "2".to_string())]);
}

#[test]
fn test_trace_context() {
    let ctx = TraceContext::new();
    assert!(!ctx.trace_id.is_empty());
    assert!(!ctx.span_id.is_empty());
    assert_eq!(ctx.parent_span_id, None);

    let child = ctx.child();
    assert_eq!(child.trace_id, ctx.trace_id);
    assert_ne!(child.span_id, ctx.span_id);
    assert_eq!(child.parent_span_id, Some(ctx.span_id));
}
