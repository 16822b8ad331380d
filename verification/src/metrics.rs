use vstd::prelude::*;

verus! {

/// Sum of a sequence of latencies.
pub open spec fn seq_sum(s: Seq<u64>) -> int
    decreases s.len(),
{
    if s.len() == 0 {
        0
    } else {
        seq_sum(s.drop_last()) + s.last()
    }
}

/// The sum of `n` samples is at most `n * u64::MAX`.
pub proof fn lemma_seq_sum_bounds(s: Seq<u64>)
    ensures
        0 <= seq_sum(s) <= s.len() * (u64::MAX as int),
    decreases s.len(),
{
    if s.len() > 0 {
        lemma_seq_sum_bounds(s.drop_last());
    }
}

/// Abstract scheduler counters.
pub struct MetricsView {
    pub total_allocations: u64,
    pub total_deallocations: u64,
    pub total_evictions: u64,
    pub allocation_latencies_us: Seq<u64>,
    pub cache_hits: u64,
    pub cache_misses: u64,
}

/// Counters of KV cache activity. Counters wrap around on overflow.
pub struct SchedulerMetrics {
    total_allocations: u64,
    total_deallocations: u64,
    total_evictions: u64,
    allocation_latencies_us: Vec<u64>,
    cache_hits: u64,
    cache_misses: u64,
}

impl View for SchedulerMetrics {
    type V = MetricsView;

    closed spec fn view(&self) -> MetricsView {
        MetricsView {
            total_allocations: self.total_allocations,
            total_deallocations: self.total_deallocations,
            total_evictions: self.total_evictions,
            allocation_latencies_us: self.allocation_latencies_us@,
            cache_hits: self.cache_hits,
            cache_misses: self.cache_misses,
        }
    }
}

impl SchedulerMetrics {
    /// All counters at zero, no latency sample.
    pub fn new() -> (r: Self)
        ensures
            r@ == (MetricsView {
                total_allocations: 0,
                total_deallocations: 0,
                total_evictions: 0,
                allocation_latencies_us: Seq::empty(),
                cache_hits: 0,
                cache_misses: 0,
            }),
    {
        SchedulerMetrics {
            total_allocations: 0,
            total_deallocations: 0,
            total_evictions: 0,
            allocation_latencies_us: Vec::new(),
            cache_hits: 0,
            cache_misses: 0,
        }
    }

    /// `num_blocks` more blocks were allocated.
    pub fn record_allocation(&mut self, num_blocks: usize)
        ensures
            final(self)@ == (MetricsView {
                total_allocations: old(self)@.total_allocations.wrapping_add(num_blocks as u64),
                ..old(self)@
            }),
    {
        self.total_allocations = self.total_allocations.wrapping_add(num_blocks as u64);
    }

    /// `num_blocks` more blocks were released.
    pub fn record_deallocation(&mut self, num_blocks: usize)
        ensures
            final(self)@ == (MetricsView {
                total_deallocations: old(self)@.total_deallocations.wrapping_add(num_blocks as u64),
                ..old(self)@
            }),
    {
        self.total_deallocations = self.total_deallocations.wrapping_add(num_blocks as u64);
    }

    /// `num_blocks` more blocks were evicted.
    pub fn record_eviction(&mut self, num_blocks: usize)
        ensures
            final(self)@ == (MetricsView {
                total_evictions: old(self)@.total_evictions.wrapping_add(num_blocks as u64),
                ..old(self)@
            }),
    {
        self.total_evictions = self.total_evictions.wrapping_add(num_blocks as u64);
    }

    /// One more allocation latency sample, in microseconds.
    pub fn record_allocation_latency_us(&mut self, latency_us: u64)
        ensures
            final(self)@ == (MetricsView {
                allocation_latencies_us: old(self)@.allocation_latencies_us.push(latency_us),
                ..old(self)@
            }),
    {
        self.allocation_latencies_us.push(latency_us);
    }

    /// One more cache hit.
    pub fn record_cache_hit(&mut self)
        ensures
            final(self)@ == (MetricsView { cache_hits: old(self)@.cache_hits.wrapping_add(1), ..old(self)@ }),
    {
        self.cache_hits = self.cache_hits.wrapping_add(1);
    }

    /// One more cache miss.
    pub fn record_cache_miss(&mut self)
        ensures
            final(self)@ == (MetricsView { cache_misses: old(self)@.cache_misses.wrapping_add(1), ..old(self)@ }),
    {
        self.cache_misses = self.cache_misses.wrapping_add(1);
    }

    pub fn get_total_allocations(&self) -> (r: u64)
        ensures
            r == self@.total_allocations,
    {
        self.total_allocations
    }

    pub fn get_total_deallocations(&self) -> (r: u64)
        ensures
            r == self@.total_deallocations,
    {
        self.total_deallocations
    }

    pub fn get_total_evictions(&self) -> (r: u64)
        ensures
            r == self@.total_evictions,
    {
        self.total_evictions
    }

    pub fn cache_hits(&self) -> (r: u64)
        ensures
            r == self@.cache_hits,
    {
        self.cache_hits
    }

    pub fn cache_misses(&self) -> (r: u64)
        ensures
            r == self@.cache_misses,
    {
        self.cache_misses
    }

    /// Number of latency samples.
    pub fn allocation_latency_count(&self) -> (r: usize)
        ensures
            r == self@.allocation_latencies_us.len(),
    {
        self.allocation_latencies_us.len()
    }

    /// Sum of the latency samples, in microseconds (the average is this over the count).
    pub fn allocation_latency_total_us(&self) -> (r: u128)
        ensures
            r == seq_sum(self@.allocation_latencies_us),
    {
        let s = &self.allocation_latencies_us;
        let mut total: u128 = 0;
        let mut i: usize = 0;
        while i < s.len()
            invariant
                i <= s.len(),
                total == seq_sum(s@.take(i as int)),
            decreases s.len() - i,
        {
            assert(s@.take(i as int + 1).drop_last() == s@.take(i as int));
            proof {
                lemma_seq_sum_bounds(s@.take(i as int + 1));
                assert((i as int + 1) * (u64::MAX as int) < u128::MAX) by (nonlinear_arith)
                    requires
                        i < usize::MAX,
                        usize::MAX <= u64::MAX,
                ;
            }
            total = total + s[i] as u128;
            i = i + 1;
        }
        assert(s@.take(s.len() as int) == s@);
        total
    }
}

} // verus!
