use mimalloc_core::span_queue::SpanQueue;

#[test]
fn test_queues_empty() {
    assert_eq!(
        SpanQueue::mi_segment_span_queues_empty()[34],
        SpanQueue::new(896)
    );

    assert_eq!(SpanQueue::mi_segment_span_queues_empty()[0], SpanQueue::new(1));

    assert_eq!(
        SpanQueue::mi_segment_span_queues_empty()[24],
        SpanQueue::new(160)
    )
}

#[test]
fn queue_thresholds_cover_segment() {
    let queues = SpanQueue::mi_segment_span_queues_empty();
    assert_eq!(queues.len(), 36);
    assert_eq!(queues[35].slice_count, 1024);
    for w in queues.windows(2) {
        assert!(w[0].slice_count <= w[1].slice_count);
    }
}
