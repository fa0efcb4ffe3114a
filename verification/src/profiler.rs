use vstd::prelude::*;

verus! {

/// Number of buffers that timestamps are read back through, used in turn
pub const READBACK_BUFFER_SIZE: usize = 32;

/// Most timestamp queries that a query set holds
pub const QUERY_SET_MAX_QUERIES: u32 = 4096;

/// A profiled pass: the timestamps written at its beginning and at its end
#[derive(Debug, Clone, Copy, PartialEq, Eq)]
pub struct GpuProfileQuery {
    pub label: &'static str,
    pub timestamp_start: u32,
    pub timestamp_end: u32,
}

/// A readback to start: the buffer it goes through and how many timestamps it copies
#[derive(Debug, Clone, Copy, PartialEq, Eq, Structural)]
pub struct ReadbackRequest {
    pub buffer_index: usize,
    pub timestamp_count: u32,
}

/// Timestamp bookkeeping of the GPU profiler: which query-set slots the passes of this frame
/// write, and which queries each readback buffer answers.
pub struct GpuProfiler {
    new_times: Vec<GpuProfileQuery>,
    next_free_timestamp: u32,
    capacity: u32,
    queries_supported: bool,
    queries_supported_inside_encoder: bool,
    queries_supported_inside_pass: bool,
    readback_queries: Vec<Vec<GpuProfileQuery>>,
    readback_buffer_next_index: usize,
}

impl GpuProfiler {
    pub closed spec fn pending(self) -> Seq<GpuProfileQuery> {
        self.new_times@
    }

    pub closed spec fn next_timestamp(self) -> u32 {
        self.next_free_timestamp
    }

    pub closed spec fn spec_capacity(self) -> u32 {
        self.capacity
    }

    pub closed spec fn supported(self) -> bool {
        self.queries_supported
    }

    pub closed spec fn readback_index(self) -> usize {
        self.readback_buffer_next_index
    }

    /// The queries that each readback buffer answers
    pub closed spec fn in_flight(self) -> Seq<Seq<GpuProfileQuery>> {
        self.readback_queries@.map_values(|q: Vec<GpuProfileQuery>| q@)
    }

    /// A profiler for `capacity` timestamps, at most as many as a query set holds, with the
    /// timestamp features of the device.
    pub fn new(
        capacity: u32,
        timestamp_query: bool,
        timestamp_query_inside_encoders: bool,
        timestamp_query_inside_passes: bool,
    ) -> (profiler: Self)
        ensures
            profiler.spec_capacity() == if capacity > QUERY_SET_MAX_QUERIES {
                QUERY_SET_MAX_QUERIES
            } else {
                capacity
            },
            profiler.supported() == timestamp_query,
            profiler.next_timestamp() == 0,
            profiler.pending().len() == 0,
            profiler.readback_index() == 0,
            profiler.in_flight() == Seq::new(READBACK_BUFFER_SIZE as nat, |_i: int| Seq::<GpuProfileQuery>::empty()),
    {
        let capacity = if capacity > QUERY_SET_MAX_QUERIES {
            QUERY_SET_MAX_QUERIES
        } else {
            capacity
        };
        let mut readback_queries: Vec<Vec<GpuProfileQuery>> = Vec::new();
        let mut i: usize = 0;
        while i < READBACK_BUFFER_SIZE
            invariant
                i <= READBACK_BUFFER_SIZE,
                readback_queries@.len() == i,
                forall|j: int| 0 <= j < i ==> (#[trigger] readback_queries@[j])@ == Seq::<GpuProfileQuery>::empty(),
            decreases READBACK_BUFFER_SIZE - i,
        {
            readback_queries.push(Vec::new());
            i = i + 1;
        }
        let profiler = Self {
            new_times: Vec::with_capacity(capacity as usize),
            next_free_timestamp: 0,
            capacity,
            queries_supported: timestamp_query,
            queries_supported_inside_encoder: timestamp_query_inside_encoders,
            queries_supported_inside_pass: timestamp_query_inside_passes,
            readback_queries,
            readback_buffer_next_index: 0,
        };
        assert(profiler.in_flight() =~= Seq::new(
            READBACK_BUFFER_SIZE as nat,
            |_i: int| Seq::<GpuProfileQuery>::empty(),
        ));
        profiler
    }

    /// Reserves the beginning and end timestamps of a pass labelled `label`; none where
    /// timestamps are not supported or the two would not fit in the capacity.
    fn reserve_timestamps(&mut self, label: &'static str) -> (slots: Option<(u32, u32)>)
        ensures
            reserve_step(*old(self), label, *final(self), slots),
    {
        if !self.queries_supported {
            return None;
        }
        if self.capacity < 2 || self.next_free_timestamp > self.capacity - 2 {
            return None;
        }
        let (start, end) = (self.next_free_timestamp, self.next_free_timestamp + 1);
        self.new_times.push(GpuProfileQuery { label, timestamp_start: start, timestamp_end: end });
        self.next_free_timestamp = self.next_free_timestamp + 2;
        Some((start, end))
    }

    /// Timestamp slots for a compute pass labelled `label`
    pub fn profile_compute_pass(&mut self, label: &'static str) -> (slots: Option<(u32, u32)>)
        ensures
            reserve_step(*old(self), label, *final(self), slots),
    {
        self.reserve_timestamps(label)
    }

    /// Timestamp slots for a render pass labelled `label`
    pub fn profile_render_pass(&mut self, label: &'static str) -> (slots: Option<(u32, u32)>)
        ensures
            reserve_step(*old(self), label, *final(self), slots),
    {
        self.reserve_timestamps(label)
    }

    /// Starts reading back this frame's timestamps, where there are any: the next readback
    /// buffer in turn takes over the pending queries, and the timestamps start again at 0.
    pub fn readback_async(&mut self) -> (request: Option<ReadbackRequest>)
        requires
            old(self).readback_index() < usize::MAX,
            old(self).in_flight().len() == READBACK_BUFFER_SIZE,
        ensures
            final(self).spec_capacity() == old(self).spec_capacity(),
            final(self).supported() == old(self).supported(),
            final(self).in_flight().len() == READBACK_BUFFER_SIZE,
            if !old(self).supported() || old(self).pending().len() == 0 {
                &&& request is None
                &&& *final(self) == *old(self)
            } else {
                let index = (old(self).readback_index() % READBACK_BUFFER_SIZE) as usize;
                &&& request == Some(
                    ReadbackRequest {
                        buffer_index: index,
                        timestamp_count: old(self).next_timestamp(),
                    },
                )
                &&& final(self).in_flight() == old(self).in_flight().update(index as int, old(self).pending())
                &&& final(self).readback_index() == old(self).readback_index() + 1
                &&& final(self).next_timestamp() == 0
                &&& final(self).pending().len() == 0
            },
    {
        if !self.queries_supported || self.new_times.len() == 0 {
            return None;
        }
        let readback_buffer_index = self.readback_buffer_next_index % self.readback_queries.len();
        let timestamp_count = self.next_free_timestamp;
        let mut queries: Vec<GpuProfileQuery> = Vec::new();
        std::mem::swap(&mut queries, &mut self.new_times);
        let ghost old_queries = self.readback_queries@;
        self.readback_queries.set(readback_buffer_index, queries);
        proof {
            assert(self.readback_queries@.map_values(|q: Vec<GpuProfileQuery>| q@) =~= old_queries.map_values(
                |q: Vec<GpuProfileQuery>| q@,
            ).update(readback_buffer_index as int, old(self).new_times@));
        }
        self.readback_buffer_next_index = self.readback_buffer_next_index + 1;
        self.next_free_timestamp = 0;
        Some(ReadbackRequest { buffer_index: readback_buffer_index, timestamp_count })
    }

    /// Durations, in timestamp ticks, of the queries that readback buffer `buffer_index`
    /// answers, from the timestamps read back through it; the buffer then answers nothing.
    pub fn finish_readback(&mut self, buffer_index: usize, timestamps: &Vec<u64>) -> (durations: Vec<
        (&'static str, u64),
    >)
        requires
            buffer_index < old(self).in_flight().len(),
            forall|k: int|
                0 <= k < old(self).in_flight()[buffer_index as int].len() ==> {
                    let q = #[trigger] old(self).in_flight()[buffer_index as int][k];
                    &&& q.timestamp_start < timestamps@.len()
                    &&& q.timestamp_end < timestamps@.len()
                    &&& timestamps@[q.timestamp_start as int] <= timestamps@[q.timestamp_end as int]
                },
        ensures
            durations@.len() == old(self).in_flight()[buffer_index as int].len(),
            forall|k: int|
                0 <= k < durations@.len() ==> {
                    let q = old(self).in_flight()[buffer_index as int][k];
                    #[trigger] durations@[k] == (
                        q.label,
                        (timestamps@[q.timestamp_end as int] - timestamps@[q.timestamp_start as int]) as u64,
                    )
                },
            final(self).in_flight() == old(self).in_flight().update(buffer_index as int, Seq::empty()),
            final(self).pending() == old(self).pending(),
            final(self).next_timestamp() == old(self).next_timestamp(),
            final(self).spec_capacity() == old(self).spec_capacity(),
            final(self).supported() == old(self).supported(),
            final(self).readback_index() == old(self).readback_index(),
    {
        let ghost queries_view = self.in_flight()[buffer_index as int];
        let mut durations: Vec<(&'static str, u64)> = Vec::new();
        let n = self.readback_queries[buffer_index].len();
        let mut k: usize = 0;
        while k < n
            invariant
                buffer_index < self.readback_queries@.len(),
                n == self.readback_queries@[buffer_index as int]@.len(),
                queries_view == self.readback_queries@[buffer_index as int]@,
                k <= n,
                durations@.len() == k,
                forall|j: int|
                    0 <= j < n ==> {
                        let q = #[trigger] queries_view[j];
                        &&& q.timestamp_start < timestamps@.len()
                        &&& q.timestamp_end < timestamps@.len()
                        &&& timestamps@[q.timestamp_start as int] <= timestamps@[q.timestamp_end as int]
                    },
                forall|j: int|
                    0 <= j < k ==> {
                        let q = queries_view[j];
                        #[trigger] durations@[j] == (
                            q.label,
                            (timestamps@[q.timestamp_end as int] - timestamps@[q.timestamp_start as int]) as u64,
                        )
                    },
            decreases n - k,
        {
            let query = self.readback_queries[buffer_index][k];
            assert(query == queries_view[k as int]);
            let diff = timestamps[query.timestamp_end as usize] - timestamps[query.timestamp_start as usize];
            durations.push((query.label, diff));
            k = k + 1;
        }
        let ghost old_queries = self.readback_queries@;
        self.readback_queries.set(buffer_index, Vec::new());
        proof {
            assert(self.readback_queries@.map_values(|q: Vec<GpuProfileQuery>| q@) =~= old_queries.map_values(
                |q: Vec<GpuProfileQuery>| q@,
            ).update(buffer_index as int, Seq::empty()));
        }
        durations
    }
}

/// One reservation of timestamps for a pass labelled `label`, from `before` to `after`
pub open spec fn reserve_step(
    before: GpuProfiler,
    label: &'static str,
    after: GpuProfiler,
    slots: Option<(u32, u32)>,
) -> bool {
    &&& after.spec_capacity() == before.spec_capacity()
    &&& after.supported() == before.supported()
    &&& after.in_flight() == before.in_flight()
    &&& after.readback_index() == before.readback_index()
    &&& if before.supported() && before.next_timestamp() + 2 <= before.spec_capacity() {
        let start = before.next_timestamp();
        &&& slots == Some((start, (start + 1) as u32))
        &&& after.pending() == before.pending().push(
            GpuProfileQuery { label, timestamp_start: start, timestamp_end: (start + 1) as u32 },
        )
        &&& after.next_timestamp() == start + 2
    } else {
        &&& slots is None
        &&& after.pending() == before.pending()
        &&& after.next_timestamp() == before.next_timestamp()
    }
}

/// Two passes profiled one after the other write different timestamps: the second pass's
/// slots come after the first's.
pub proof fn reserved_slots_do_not_overlap(
    p0: GpuProfiler,
    label1: &'static str,
    p1: GpuProfiler,
    slots1: Option<(u32, u32)>,
    label2: &'static str,
    p2: GpuProfiler,
    slots2: Option<(u32, u32)>,
)
    requires
        reserve_step(p0, label1, p1, slots1),
        reserve_step(p1, label2, p2, slots2),
    ensures
        match (slots1, slots2) {
            (Some((start1, end1)), Some((start2, end2))) => start1 < end1 && end1 < start2 && start2 < end2,
            _ => true,
        },
{
}

} // verus!
