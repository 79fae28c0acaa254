use cathedral::storage::{
    segment_file_name, parse_segment_file_name, read_page, sort_segments, should_rotate, rotation_metadata,
    rotated_segment, take_compaction_batch, merged_segment, record_compaction, apply_retention, ProvenanceEvent,
    SegmentInfo, FileStorageConfig,
};

fn event(id: &str, t: i64) -> ProvenanceEvent {
    ProvenanceEvent { event_id: id.to_string(), event_type: "e".to_string(), timestamp: t, payload_json: "{}".to_string() }
}

fn seg(id: u64, first: i64, last: i64) -> SegmentInfo {
    SegmentInfo {
        segment_id: id,
        file_path: format!("shard_0_{}.seg", id),
        first_timestamp: first,
        last_timestamp: last,
        event_count: 1,
        size_bytes: 10,
        is_active: false,
    }
}

#[test]
fn segment_names_round_trip() {
    assert_eq!(segment_file_name(3, 17), "shard_3_17.seg");
    assert_eq!(parse_segment_file_name("shard_3_17.seg"), Some((3, 17)));
    assert_eq!(parse_segment_file_name(&segment_file_name(0, 18446744073709551615)), Some((0, u64::MAX)));
}

#[test]
fn segment_names_refused() {
    assert_eq!(parse_segment_file_name("shard_3.seg"), None);
    assert_eq!(parse_segment_file_name("shard_a_1.seg"), None);
    assert_eq!(parse_segment_file_name("shard_1_2.log"), None);
    assert_eq!(parse_segment_file_name("segment_1_2.seg"), None);
    // Cut at the first underscore: the segment part "2_3" is no number.
    assert_eq!(parse_segment_file_name("shard_1_2_3.seg"), None);
    assert_eq!(parse_segment_file_name("shard_+1_2.seg"), Some((1, 2)));
}

#[test]
fn pages_of_cached_events() {
    let events = vec![event("a", 1), event("b", 2), event("c", 3)];
    let page = read_page(&events, 1, 5);
    assert_eq!(page.iter().map(|e| e.event_id.clone()).collect::<Vec<_>>(), vec!["b", "c"]);
    assert!(read_page(&events, 3, 2).is_empty());
    assert!(read_page(&events, 9, 2).is_empty());
    assert_eq!(read_page(&events, 0, 1).len(), 1);
}

#[test]
fn segments_sorted_stably_by_start() {
    let out = sort_segments(vec![seg(1, 30, 40), seg(2, 10, 20), seg(3, 30, 35), seg(4, 5, 6)]);
    let ids: Vec<u64> = out.iter().map(|s| s.segment_id).collect();
    assert_eq!(ids, vec![4, 2, 1, 3]);
}

#[test]
fn rotation_threshold_and_records() {
    let config = FileStorageConfig::default();
    assert_eq!(config.base_path, "./wormgraph_data");
    assert_eq!(config.max_segment_size_bytes, 64 * 1024 * 1024);
    assert!(!should_rotate(64 * 1024 * 1024, &config));
    assert!(should_rotate(64 * 1024 * 1024 + 1, &config));
    let events = vec![event("a", 5), event("b", 9)];
    let meta = rotation_metadata(2, &events, 100, 7);
    assert_eq!((meta.shard_id, meta.event_count, meta.first_timestamp, meta.last_timestamp), (2, 2, 5, 9));
    assert_eq!((meta.size_bytes, meta.version), (100, 7));
    let s = rotated_segment(7, "p".to_string(), &events, 100);
    assert_eq!((s.first_timestamp, s.last_timestamp, s.event_count, s.is_active), (5, 9, 2, false));
    let empty = rotation_metadata(2, &Vec::new(), 0, 1);
    assert_eq!((empty.first_timestamp, empty.last_timestamp), (0, 0));
}

#[test]
fn compaction_takes_oldest_five_of_ten() {
    let mut few: Vec<SegmentInfo> = (0..9).map(|i| seg(i, i as i64, i as i64)).collect();
    assert!(take_compaction_batch(&mut few).is_none());
    assert_eq!(few.len(), 9);
    let mut segs: Vec<SegmentInfo> = (0..10).map(|i| seg(i, i as i64 * 10, i as i64 * 10 + 5)).collect();
    let batch = take_compaction_batch(&mut segs).unwrap();
    assert_eq!(batch.iter().map(|s| s.segment_id).collect::<Vec<_>>(), vec![0, 1, 2, 3, 4]);
    assert_eq!(segs.len(), 5);
    let merged = merged_segment(&batch, 99, "m".to_string(), 5, 50);
    assert_eq!((merged.segment_id, merged.first_timestamp, merged.last_timestamp), (99, 0, 45));
    record_compaction(&mut segs, merged);
    assert_eq!(segs[0].segment_id, 99);
    assert_eq!(segs.len(), 6);
}

#[test]
fn retention_drops_old_segments() {
    let mut segs = vec![seg(1, 0, 10), seg(2, 0, 50), seg(3, 0, 20), seg(4, 0, 60)];
    let dropped = apply_retention(&mut segs, 20);
    assert_eq!(dropped.iter().map(|s| s.segment_id).collect::<Vec<_>>(), vec![1, 3]);
    assert_eq!(segs.iter().map(|s| s.segment_id).collect::<Vec<_>>(), vec![2, 4]);
}
