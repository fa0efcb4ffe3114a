use render::{GpuProfiler, ReadbackRequest, QUERY_SET_MAX_QUERIES, READBACK_BUFFER_SIZE};

#[test]
fn passes_take_consecutive_timestamps() {
    let mut profiler = GpuProfiler::new(8, true, false, false);
    assert_eq!(profiler.profile_render_pass("shadow"), Some((0, 1)));
    assert_eq!(profiler.profile_compute_pass("blur"), Some((2, 3)));
    let request = profiler.readback_async();
    assert_eq!(request, Some(ReadbackRequest { buffer_index: 0, timestamp_count: 4 }));
    // timestamps start again after a readback
    assert_eq!(profiler.profile_render_pass("ui"), Some((0, 1)));
    let request = profiler.readback_async();
    assert_eq!(request, Some(ReadbackRequest { buffer_index: 1, timestamp_count: 2 }));
    let durations = profiler.finish_readback(0, &vec![100, 150, 200, 260]);
    assert_eq!(durations, vec![("shadow", 50), ("blur", 60)]);
    assert!(profiler.finish_readback(0, &vec![]).is_empty());
    assert_eq!(profiler.finish_readback(1, &vec![5, 9]), vec![("ui", 4)]);
}

#[test]
fn unsupported_timestamps_give_nothing() {
    let mut profiler = GpuProfiler::new(8, false, false, false);
    assert_eq!(profiler.profile_render_pass("a"), None);
    assert_eq!(profiler.readback_async(), None);
}

#[test]
fn capacity_is_at_most_a_query_set() {
    assert_eq!(QUERY_SET_MAX_QUERIES, 4096);
    assert_eq!(READBACK_BUFFER_SIZE, 32);
    let mut profiler = GpuProfiler::new(10_000, true, true, true);
    let mut last = None;
    // slots are handed out while both fit in the query set
    for _ in 0..2048 {
        last = profiler.profile_render_pass("p");
    }
    assert_eq!(last, Some((4094, 4095)));
    assert_eq!(profiler.profile_render_pass("p"), None);
}

#[test]
fn small_capacity_limits_the_passes() {
    let mut profiler = GpuProfiler::new(5, true, false, false);
    assert_eq!(profiler.profile_render_pass("a"), Some((0, 1)));
    assert_eq!(profiler.profile_compute_pass("b"), Some((2, 3)));
    assert_eq!(profiler.profile_render_pass("c"), None);
    let mut empty = GpuProfiler::new(0, true, false, false);
    assert_eq!(empty.profile_render_pass("a"), None);
}

#[test]
fn readback_buffers_are_used_in_turn() {
    let mut profiler = GpuProfiler::new(16, true, false, false);
    for i in 0..(READBACK_BUFFER_SIZE + 2) {
        profiler.profile_render_pass("p");
        let request = profiler.readback_async().unwrap();
        assert_eq!(request.buffer_index, i % READBACK_BUFFER_SIZE);
        assert_eq!(request.timestamp_count, 2);
    }
}
