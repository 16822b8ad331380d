use vstd::prelude::*;
use crate::kv::{KvView, kv_insert, kv_set, kv_views};
use crate::consensus::unix_time_ms;

verus! {

/// OTLP exporter configuration.
#[derive(Clone, Debug)]
pub struct OtlpExporterConfig {
    pub endpoint: String,
    pub service_name: String,
    pub enabled: bool,
}

impl Default for OtlpExporterConfig {
    /// Export to `http://localhost:4317` as `aegis-scheduler`.
    fn default() -> (r: Self)
        ensures
            r.endpoint@ == "http://localhost:4317"@,
            r.service_name@ == "aegis-scheduler"@,
            r.enabled,
    {
        OtlpExporterConfig {
            endpoint: String::from_str("http://localhost:4317"),
            service_name: String::from_str("aegis-scheduler"),
            enabled: true,
        }
    }
}

impl OtlpExporterConfig {
    /// Export enabled to `endpoint` as `service_name`.
    pub fn new(endpoint: &str, service_name: &str) -> (r: Self)
        ensures
            r.endpoint@ == endpoint@,
            r.service_name@ == service_name@,
            r.enabled,
    {
        OtlpExporterConfig { endpoint: endpoint.to_owned(), service_name: service_name.to_owned(), enabled: true }
    }

    /// Export disabled, with no endpoint or service name.
    pub fn disabled() -> (r: Self)
        ensures
            r.endpoint@.len() == 0,
            r.service_name@.len() == 0,
            !r.enabled,
    {
        OtlpExporterConfig { endpoint: String::new(), service_name: String::new(), enabled: false }
    }
}

/// Completion status of a span.
#[derive(Clone, Copy, Debug, PartialEq, Eq, Structural)]
pub enum SpanStatus {
    Success,
    Error,
    Pending,
}

/// A span for export.
#[derive(Clone, Debug)]
pub struct SpanEvent {
    pub trace_id: String,
    pub span_id: String,
    pub parent_span_id: Option<String>,
    pub operation: String,
    pub status: SpanStatus,
    pub duration_ms: u64,
    /// Attributes, each key once.
    pub attributes: Vec<(String, String)>,
    pub timestamp_ms: u64,
}

impl SpanEvent {
    /// A successful span ending now, with no parent and no attribute.
    pub fn new(trace_id: String, span_id: String, operation: String, duration_ms: u64) -> (r: Self)
        ensures
            r.trace_id == trace_id,
            r.span_id == span_id,
            r.parent_span_id is None,
            r.operation == operation,
            r.status == SpanStatus::Success,
            r.duration_ms == duration_ms,
            r.attributes@.len() == 0,
    {
        SpanEvent {
            trace_id,
            span_id,
            parent_span_id: None,
            operation,
            status: SpanStatus::Success,
            duration_ms,
            attributes: Vec::new(),
            timestamp_ms: unix_time_ms(),
        }
    }

    /// Set the parent span.
    pub fn with_parent(self, parent_span_id: String) -> (r: Self)
        ensures
            r == (SpanEvent { parent_span_id: Some(parent_span_id), ..self }),
    {
        let mut s = self;
        s.parent_span_id = Some(parent_span_id);
        s
    }

    /// Set the status.
    pub fn with_status(self, status: SpanStatus) -> (r: Self)
        ensures
            r == (SpanEvent { status, ..self }),
    {
        let mut s = self;
        s.status = status;
        s
    }

    /// Set an attribute.
    pub fn add_attribute(self, key: String, value: String) -> (r: Self)
        ensures
            r.trace_id == self.trace_id,
            r.span_id == self.span_id,
            r.parent_span_id == self.parent_span_id,
            r.operation == self.operation,
            r.status == self.status,
            r.duration_ms == self.duration_ms,
            r.timestamp_ms == self.timestamp_ms,
            kv_views(r.attributes@) == kv_insert(kv_views(self.attributes@), key@, value@),
    {
        let mut s = self;
        kv_set(&mut s.attributes, key, value);
        s
    }
}

/// Why an export failed (none does).
#[derive(Clone, Copy, Debug, PartialEq, Eq, Structural)]
pub enum ExportError {
    Unreachable,
}

/// Buffers spans and metric events (of type `M`) for export to a collector.
pub struct OtlpExporter<M> {
    config: OtlpExporterConfig,
    spans_buffer: Vec<SpanEvent>,
    metrics_buffer: Vec<M>,
}

impl<M> OtlpExporter<M> {
    pub closed spec fn enabled(&self) -> bool {
        self.config.enabled
    }

    pub closed spec fn spans(&self) -> Seq<SpanEvent> {
        self.spans_buffer@
    }

    pub closed spec fn metrics(&self) -> Seq<M> {
        self.metrics_buffer@
    }

    /// An exporter with empty buffers.
    pub fn new(config: OtlpExporterConfig) -> (r: Self)
        ensures
            r.enabled() == config.enabled,
            r.spans().len() == 0,
            r.metrics().len() == 0,
    {
        OtlpExporter { config, spans_buffer: Vec::new(), metrics_buffer: Vec::new() }
    }

    /// Buffer a span when export is enabled.
    pub fn add_span(&mut self, span: SpanEvent)
        ensures
            final(self).enabled() == old(self).enabled(),
            final(self).metrics() == old(self).metrics(),
            final(self).spans() == if old(self).enabled() { old(self).spans().push(span) } else { old(self).spans() },
    {
        if self.config.enabled {
            self.spans_buffer.push(span);
        }
    }

    /// Buffer a metric event when export is enabled.
    pub fn add_metric(&mut self, metric: M)
        ensures
            final(self).enabled() == old(self).enabled(),
            final(self).spans() == old(self).spans(),
            final(self).metrics() == if old(self).enabled() { old(self).metrics().push(metric) } else { old(self).metrics() },
    {
        if self.config.enabled {
            self.metrics_buffer.push(metric);
        }
    }

    /// Send the buffered spans to the collector: when enabled, the span buffer is emptied.
    pub fn export_spans(&mut self) -> (r: Result<(), ExportError>)
        ensures
            r is Ok,
            final(self).enabled() == old(self).enabled(),
            final(self).metrics() == old(self).metrics(),
            final(self).spans() == if old(self).enabled() { Seq::empty() } else { old(self).spans() },
    {
        if !self.config.enabled {
            return Ok(());
        }
        self.spans_buffer = Vec::new();
        Ok(())
    }

    /// Send the buffered metric events to the collector: when enabled, the metric buffer is emptied.
    pub fn export_metrics(&mut self) -> (r: Result<(), ExportError>)
        ensures
            r is Ok,
            final(self).enabled() == old(self).enabled(),
            final(self).spans() == old(self).spans(),
            final(self).metrics() == if old(self).enabled() { Seq::empty() } else { old(self).metrics() },
    {
        if !self.config.enabled {
            return Ok(());
        }
        self.metrics_buffer = Vec::new();
        Ok(())
    }

    /// Export both buffers.
    pub fn export_all(&mut self) -> (r: Result<(), ExportError>)
        ensures
            r is Ok,
            final(self).enabled() == old(self).enabled(),
            final(self).spans() == if old(self).enabled() { Seq::empty() } else { old(self).spans() },
            final(self).metrics() == if old(self).enabled() { Seq::empty() } else { old(self).metrics() },
    {
        let _ = self.export_spans();
        let _ = self.export_metrics();
        Ok(())
    }

    /// Whether export is enabled.
    pub fn is_enabled(&self) -> (r: bool)
        ensures
            r == self.enabled(),
    {
        self.config.enabled
    }

    /// The buffered spans, oldest first.
    pub fn buffered_spans(&self) -> (r: &Vec<SpanEvent>)
        ensures
            r@ == self.spans(),
    {
        &self.spans_buffer
    }

    /// The buffered metric events, oldest first.
    pub fn buffered_metrics(&self) -> (r: &Vec<M>)
        ensures
            r@ == self.metrics(),
    {
        &self.metrics_buffer
    }

    /// Number of buffered spans.
    pub fn span_buffer_size(&self) -> (r: usize)
        ensures
            r == self.spans().len(),
    {
        self.spans_buffer.len()
    }

    /// Number of buffered metric events.
    pub fn metric_buffer_size(&self) -> (r: usize)
        ensures
            r == self.metrics().len(),
    {
        self.metrics_buffer.len()
    }

    /// Empty both buffers.
    pub fn clear_buffers(&mut self)
        ensures
            final(self).enabled() == old(self).enabled(),
            final(self).spans().len() == 0,
            final(self).metrics().len() == 0,
    {
        self.spans_buffer.clear();
        self.metrics_buffer.clear();
    }
}

} // verus!
