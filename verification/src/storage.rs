//! Planning for the segmented shard log: segment file names, paging through
//! cached events, ordering segments, choosing segments to compact and to drop
//! for retention, and the metadata written when a segment is rotated.
//! Reading and writing files is left to the caller.

use vstd::prelude::*;
use vstd::string::StrSliceExecFns;
use crate::text::{push_char, string_of, append_decimal, decimal, parse_u64, parse_u64_spec,
    lemma_parse_decimal, lemma_decimal_digits, digit_value, all_digits};

verus! {

broadcast use vstd::seq_lib::group_to_multiset_ensures;

/// One recorded provenance event of a shard.
pub struct ProvenanceEvent {
    pub event_id: String,
    pub event_type: String,
    pub timestamp: i64,
    pub payload_json: String,
}

impl Clone for ProvenanceEvent {
    fn clone(&self) -> (r: Self)
        ensures
            r == *self,
    {
        ProvenanceEvent {
            event_id: self.event_id.clone(),
            event_type: self.event_type.clone(),
            timestamp: self.timestamp,
            payload_json: self.payload_json.clone(),
        }
    }
}

/// Where the shard files live and how segments are rotated, compacted and
/// retained.
pub struct FileStorageConfig {
    pub base_path: String,
    pub max_segment_size_bytes: u64,
    pub retention_days: u64,
    pub compaction_interval_secs: u64,
    pub enable_compaction: bool,
    pub enable_retention: bool,
}

impl Default for FileStorageConfig {
    fn default() -> (c: Self)
        ensures
            c.base_path@ == "./wormgraph_data"@,
            c.max_segment_size_bytes == 64 * 1024 * 1024,
            c.retention_days == 30,
            c.compaction_interval_secs == 3600,
            c.enable_compaction,
            c.enable_retention,
    {
        FileStorageConfig {
            base_path: string_of("./wormgraph_data"),
            max_segment_size_bytes: 64 * 1024 * 1024,
            retention_days: 30,
            compaction_interval_secs: 3600,
            enable_compaction: true,
            enable_retention: true,
        }
    }
}

/// An archived segment of a shard's log.
pub struct SegmentInfo {
    pub segment_id: u64,
    pub file_path: String,
    pub first_timestamp: i64,
    pub last_timestamp: i64,
    pub event_count: u64,
    pub size_bytes: u64,
    pub is_active: bool,
}

/// The metadata stored beside a shard or a segment.
pub struct ShardMetadata {
    pub shard_id: u64,
    pub event_count: u64,
    pub first_timestamp: i64,
    pub last_timestamp: i64,
    pub size_bytes: u64,
    pub merkle_root: Vec<u8>,
    pub version: u64,
}

// ------------------------------------------------------------------
// Segment file names
// ------------------------------------------------------------------

pub open spec fn segment_prefix() -> Seq<char> {
    seq!['s', 'h', 'a', 'r', 'd', '_']
}

pub open spec fn segment_suffix() -> Seq<char> {
    seq!['.', 's', 'e', 'g']
}

/// The file name `shard_<shard>_<segment>.seg`.
pub open spec fn segment_name_text(shard_id: u64, segment_id: u64) -> Seq<char> {
    segment_prefix() + decimal(shard_id as nat).push('_') + decimal(segment_id as nat)
        + segment_suffix()
}

/// What lies between the `shard_` prefix and the `.seg` suffix, if the name
/// has both.
pub open spec fn segment_name_middle(name: Seq<char>) -> Option<Seq<char>> {
    if name.len() >= 10 && name.take(6) == segment_prefix() && name.skip(name.len() - 4)
        == segment_suffix() {
        Some(name.subrange(6, name.len() - 4))
    } else {
        None
    }
}

/// `i` is the position of the first `_` in `m`.
pub open spec fn first_underscore_at(m: Seq<char>, i: int) -> bool {
    0 <= i < m.len() && m[i] == '_' && forall|j: int| 0 <= j < i ==> m[j] != '_'
}

/// The shard and segment numbers that a file name denotes: the part between
/// `shard_` and `.seg` is cut at its first `_`, and both sides must read as
/// unsigned numbers.
pub open spec fn parse_segment_name_spec(name: Seq<char>) -> Option<(u64, u64)> {
    match segment_name_middle(name) {
        None => None,
        Some(m) => if exists|i: int| first_underscore_at(m, i) {
            let i = choose|i: int| first_underscore_at(m, i);
            match (parse_u64_spec(m.take(i)), parse_u64_spec(m.skip(i + 1))) {
                (Some(a), Some(b)) => Some((a, b)),
                _ => None,
            }
        } else {
            None
        },
    }
}

fn text_eq(a: &str, b: &str) -> (r: bool)
    ensures
        r == (a@ == b@),
{
    let x = a.to_owned();
    let y = b.to_owned();
    x == y
}

/// The name of the file that holds a segment of a shard.
pub fn segment_file_name(shard_id: u64, segment_id: u64) -> (name: String)
    ensures
        name@ == segment_name_text(shard_id, segment_id),
{
    let mut name = string_of("shard_");
    proof {
        reveal_strlit("shard_");
    }
    assert(name@ =~= segment_prefix());
    append_decimal(&mut name, shard_id);
    push_char(&mut name, '_');
    append_decimal(&mut name, segment_id);
    name.append(".seg");
    proof {
        reveal_strlit(".seg");
    }
    assert(name@ =~= segment_name_text(shard_id, segment_id));
    name
}

/// Reads the shard and segment numbers from a segment file name, or `None`
/// when the name is not one.
pub fn parse_segment_file_name(name: &str) -> (r: Option<(u64, u64)>)
    ensures
        r == parse_segment_name_spec(name@),
{
    let n = name.unicode_len();
    if n < 10 {
        return None;
    }
    let head = name.substring_char(0, 6);
    let tail = name.substring_char(n - 4, n);
    proof {
        reveal_strlit("shard_");
        reveal_strlit(".seg");
        assert("shard_"@ =~= segment_prefix());
        assert(".seg"@ =~= segment_suffix());
        assert(name@.take(6) =~= name@.subrange(0, 6));
        assert(name@.skip(n - 4) =~= name@.subrange(n - 4, n as int));
    }
    if !text_eq(head, "shard_") || !text_eq(tail, ".seg") {
        return None;
    }
    let middle = name.substring_char(6, n - 4);
    let ghost m = middle@;
    assert(segment_name_middle(name@) == Some(m));
    let mlen = n - 10;
    let mut i: usize = 0;
    while i < mlen
        invariant
            0 <= i <= mlen,
            mlen == m.len(),
            m == middle@,
            forall|j: int| 0 <= j < i ==> m[j] != '_',
        ensures
            0 <= i <= mlen,
            forall|j: int| 0 <= j < i ==> m[j] != '_',
            i < mlen ==> m[i as int] == '_',
        decreases mlen - i,
    {
        if middle.get_char(i) == '_' {
            break;
        }
        i = i + 1;
    }
    if i == mlen {
        assert(!exists|k: int| first_underscore_at(m, k));
        return None;
    }
    assert(first_underscore_at(m, i as int));
    assert forall|k: int| first_underscore_at(m, k) implies k == i by {
        if k < i {
        } else if k > i {
            assert(m[i as int] != '_');
        }
    }
    let left = middle.substring_char(0, i);
    let right = middle.substring_char(i + 1, mlen);
    assert(left@ =~= m.take(i as int));
    assert(right@ =~= m.skip(i + 1));
    let a = parse_u64(left);
    let b = parse_u64(right);
    match (a, b) {
        (Some(x), Some(y)) => Some((x, y)),
        _ => None,
    }
}

/// A segment file name is read back as the shard and segment numbers it was
/// made from.
pub proof fn lemma_segment_name_round_trip(shard_id: u64, segment_id: u64)
    ensures
        parse_segment_name_spec(segment_name_text(shard_id, segment_id)) == Some((shard_id, segment_id)),
{
    let da = decimal(shard_id as nat);
    let db = decimal(segment_id as nat);
    let name = segment_name_text(shard_id, segment_id);
    lemma_decimal_digits(shard_id as nat);
    lemma_decimal_digits(segment_id as nat);
    let m = da.push('_') + db;
    assert(name.len() >= 10);
    assert(name.take(6) =~= segment_prefix());
    assert(name.skip(name.len() - 4) =~= segment_suffix());
    assert(name.subrange(6, name.len() - 4) =~= m);
    let i = da.len() as int;
    assert forall|j: int| 0 <= j < i implies m[j] != '_' by {
        assert(m[j] == da[j]);
        assert(digit_value(da[j]) is Some);
    }
    assert(first_underscore_at(m, i));
    assert forall|k: int| first_underscore_at(m, k) implies k == i by {
        if k > i {
            assert(m[i] == '_');
        }
    }
    assert(m.take(i) =~= da);
    assert(m.skip(i + 1) =~= db);
    lemma_parse_decimal(shard_id);
    lemma_parse_decimal(segment_id);
}

// ------------------------------------------------------------------
// Paging through cached events
// ------------------------------------------------------------------

pub open spec fn min_nat(a: int, b: int) -> int {
    if a <= b {
        a
    } else {
        b
    }
}

/// The events from `offset`, at most `limit` of them, clipped to the events
/// there are.
pub open spec fn page_of<T>(entries: Seq<T>, offset: int, limit: int) -> Seq<T> {
    entries.subrange(min_nat(offset, entries.len() as int), min_nat(offset + limit, entries.len() as int))
}

/// Copies out the page of events that starts at `offset` and holds at most
/// `limit` events.
pub fn read_page(entries: &Vec<ProvenanceEvent>, offset: usize, limit: usize) -> (page: Vec<ProvenanceEvent>)
    requires
        offset + limit <= usize::MAX,
    ensures
        page@ == page_of(entries@, offset as int, limit as int),
        page@.len() == (if offset < entries@.len() {
            if limit <= entries@.len() - offset { limit as int } else { entries@.len() - offset }
        } else {
            0
        }),
        forall|i: int| 0 <= i < page@.len() ==> page@[i] == entries@[offset + i],
{
    let len = entries.len();
    let start = if offset < len {
        offset
    } else {
        len
    };
    let end = if offset + limit < len {
        offset + limit
    } else {
        len
    };
    let mut page: Vec<ProvenanceEvent> = Vec::new();
    let mut i = start;
    while i < end
        invariant
            start <= i <= end,
            end <= len,
            len == entries@.len(),
            page@ == entries@.subrange(start as int, i as int),
        decreases end - i,
    {
        let e = entries[i].clone();
        page.push(e);
        i = i + 1;
        assert(page@ =~= entries@.subrange(start as int, i as int));
    }
    assert(page@ =~= page_of(entries@, offset as int, limit as int));
    proof {
        lemma_page_is_window(entries@, offset as int, limit as int);
    }
    page
}

/// A page starts at the offset and runs for `limit` events, clipped to the
/// events there are: it holds `min(limit, max(0, len - offset))` events, and
/// its `i`-th event is the event at `offset + i`.
pub proof fn lemma_page_is_window<T>(entries: Seq<T>, offset: int, limit: int)
    requires
        0 <= offset,
        0 <= limit,
    ensures
        page_of(entries, offset, limit).len() == (if offset < entries.len() {
            if limit <= entries.len() - offset { limit } else { entries.len() - offset }
        } else {
            0
        }),
        forall|i: int|
            0 <= i < page_of(entries, offset, limit).len() ==> #[trigger] page_of(entries, offset, limit)[i]
                == entries[offset + i],
{
}

// ------------------------------------------------------------------
// Ordering segments by their first timestamp
// ------------------------------------------------------------------

/// Segments in non-decreasing order of their first timestamp.
pub open spec fn sorted_by_start(s: Seq<SegmentInfo>) -> bool {
    forall|i: int, j: int| 0 <= i < j < s.len() ==> s[i].first_timestamp <= s[j].first_timestamp
}

/// The segments whose first timestamp is `t`, in their order.
pub open spec fn starting_at(s: Seq<SegmentInfo>, t: i64) -> Seq<SegmentInfo> {
    s.filter(|x: SegmentInfo| x.first_timestamp == t)
}

proof fn lemma_filter_none<A>(s: Seq<A>, p: spec_fn(A) -> bool)
    requires
        forall|i: int| 0 <= i < s.len() ==> !p(#[trigger] s[i]),
    ensures
        s.filter(p) == Seq::<A>::empty(),
    decreases s.len(),
{
    reveal(Seq::filter);
    if s.len() > 0 {
        let t = s.drop_last();
        assert forall|i: int| 0 <= i < t.len() implies !p(#[trigger] t[i]) by {
            assert(t[i] == s[i]);
        }
        lemma_filter_none(t, p);
        assert(!p(s[s.len() - 1]));
        assert(s.last() == s[s.len() - 1]);
        assert(s.filter(p) == t.filter(p));
    } else {
        assert(s =~= Seq::<A>::empty());
    }
}

/// Orders segments by their first timestamp, keeping segments with equal
/// first timestamps in the order they came (a stable sort, as
/// `sort_by_key` does).
pub fn sort_segments(segs: Vec<SegmentInfo>) -> (out: Vec<SegmentInfo>)
    ensures
        sorted_by_start(out@),
        out@.to_multiset() == segs@.to_multiset(),
        forall|t: i64| #[trigger] starting_at(out@, t) == starting_at(segs@, t),
{
    broadcast use vstd::seq_lib::to_multiset_insert, vstd::seq_lib::to_multiset_remove,
        vstd::seq::Seq::filter_distributes_over_add;

    let ghost orig = segs@;
    let mut rest = segs;
    let mut out: Vec<SegmentInfo> = Vec::new();
    let ghost mut done: Seq<SegmentInfo> = Seq::empty();
    while rest.len() > 0
        invariant
            orig == done + rest@,
            sorted_by_start(out@),
            out@.to_multiset() == done.to_multiset(),
            forall|t: i64| #[trigger] starting_at(out@, t) == starting_at(done, t),
        decreases rest@.len(),
    {
        let ghost rest_before = rest@;
        let x = rest.remove(0);
        let key = x.first_timestamp;
        let mut j: usize = 0;
        while j < out.len() && out[j].first_timestamp <= key
            invariant
                0 <= j <= out@.len(),
                forall|k: int| 0 <= k < j ==> out@[k].first_timestamp <= key,
            decreases out@.len() - j,
        {
            j = j + 1;
        }
        let ghost before = out@;
        let ghost a = before.subrange(0, j as int);
        let ghost b = before.subrange(j as int, before.len() as int);
        proof {
            assert forall|k: int| 0 <= k < b.len() implies #[trigger] b[k].first_timestamp > key by {
                if j < before.len() {
                    assert(before[j as int].first_timestamp > key);
                    if k > 0 {
                        assert(before[j as int].first_timestamp <= before[j + k].first_timestamp);
                    }
                }
            }
        }
        out.insert(j, x);
        proof {
            let new_done = done.push(x);
            assert(rest_before == seq![x] + rest@);
            assert(orig =~= new_done + rest@);
            assert(out@ =~= a + seq![x] + b);
            assert(before =~= a + b);
            assert forall|t: i64| #[trigger] starting_at(out@, t) == starting_at(new_done, t) by {
                let p = |y: SegmentInfo| y.first_timestamp == t;
                assert(starting_at(before, t) == starting_at(done, t));
                assert((a + seq![x] + b).filter(p) == (a + seq![x]).filter(p) + b.filter(p));
                assert((a + seq![x]).filter(p) == a.filter(p) + seq![x].filter(p));
                assert((a + b).filter(p) == a.filter(p) + b.filter(p));
                assert(done.push(x).filter(p) == done.filter(p) + seq![x].filter(p)) by {
                    assert(done.push(x) =~= done + seq![x]);
                }
                if x.first_timestamp == t {
                    assert forall|k: int| 0 <= k < b.len() implies !p(#[trigger] b[k]) by {}
                    lemma_filter_none(b, p);
                    assert(starting_at(out@, t) =~= starting_at(new_done, t));
                } else {
                    assert(seq![x].filter(p) =~= Seq::<SegmentInfo>::empty()) by {
                        lemma_filter_none(seq![x], p);
                    }
                    assert(starting_at(out@, t) =~= starting_at(new_done, t));
                }
            }
            assert forall|i: int, k: int| 0 <= i < k < out@.len() implies out@[i].first_timestamp
                <= out@[k].first_timestamp by {
                if k < j {
                    assert(out@[i] == before[i] && out@[k] == before[k]);
                } else if k == j {
                    assert(out@[i] == before[i]);
                } else if i < j {
                    assert(out@[i] == before[i] && out@[k] == before[k - 1]);
                } else if i == j {
                    assert(out@[k] == b[k - 1 - j]);
                } else {
                    assert(out@[i] == before[i - 1] && out@[k] == before[k - 1]);
                }
            }
            assert(out@.to_multiset() == before.to_multiset().insert(x));
            assert(new_done.to_multiset() == done.to_multiset().insert(x));
            done = new_done;
        }
    }
    assert(done =~= orig);
    out
}

// ------------------------------------------------------------------
// Rotation, compaction and retention
// ------------------------------------------------------------------

/// The active log is rotated into a segment once it is larger than the
/// configured maximum.
pub fn should_rotate(active_size_bytes: u64, config: &FileStorageConfig) -> (r: bool)
    ensures
        r == (active_size_bytes > config.max_segment_size_bytes),
{
    active_size_bytes > config.max_segment_size_bytes
}

/// The first timestamp of a run of events, or 0 for none.
pub open spec fn events_first_timestamp(events: Seq<ProvenanceEvent>) -> i64 {
    if events.len() == 0 {
        0
    } else {
        events[0].timestamp
    }
}

/// The last timestamp of a run of events, or 0 for none.
pub open spec fn events_last_timestamp(events: Seq<ProvenanceEvent>) -> i64 {
    if events.len() == 0 {
        0
    } else {
        events.last().timestamp
    }
}

/// The metadata written beside a freshly rotated segment: the cached events
/// of the shard give its count and time range, the segment id is its
/// version.
pub fn rotation_metadata(shard_id: u64, events: &Vec<ProvenanceEvent>, size_bytes: u64, segment_id: u64) -> (m: ShardMetadata)
    ensures
        m.shard_id == shard_id,
        m.event_count == events@.len(),
        m.first_timestamp == events_first_timestamp(events@),
        m.last_timestamp == events_last_timestamp(events@),
        m.size_bytes == size_bytes,
        m.merkle_root@.len() == 0,
        m.version == segment_id,
{
    let n = events.len();
    let first = if n == 0 {
        0
    } else {
        events[0].timestamp
    };
    let last = if n == 0 {
        0
    } else {
        events[n - 1].timestamp
    };
    ShardMetadata {
        shard_id,
        event_count: n as u64,
        first_timestamp: first,
        last_timestamp: last,
        size_bytes,
        merkle_root: Vec::new(),
        version: segment_id,
    }
}

/// The archived-segment record for a freshly rotated segment.
pub fn rotated_segment(segment_id: u64, file_path: String, events: &Vec<ProvenanceEvent>, size_bytes: u64) -> (s: SegmentInfo)
    ensures
        s.segment_id == segment_id,
        s.file_path == file_path,
        s.first_timestamp == events_first_timestamp(events@),
        s.last_timestamp == events_last_timestamp(events@),
        s.event_count == events@.len(),
        s.size_bytes == size_bytes,
        !s.is_active,
{
    let n = events.len();
    SegmentInfo {
        segment_id,
        file_path,
        first_timestamp: if n == 0 {
            0
        } else {
            events[0].timestamp
        },
        last_timestamp: if n == 0 {
            0
        } else {
            events[n - 1].timestamp
        },
        event_count: n as u64,
        size_bytes,
        is_active: false,
    }
}

/// How many segments a shard must have before its oldest are merged.
pub const COMPACTION_THRESHOLD: usize = 10;

/// How many of the oldest segments one compaction merges.
pub const COMPACTION_BATCH: usize = 5;

/// Takes the oldest segments of a shard out for merging: when the shard has
/// at least ten segments, the first five are removed and returned; otherwise
/// nothing changes.
pub fn take_compaction_batch(segs: &mut Vec<SegmentInfo>) -> (batch: Option<Vec<SegmentInfo>>)
    ensures
        batch is None <==> old(segs)@.len() < COMPACTION_THRESHOLD,
        batch is None ==> final(segs)@ == old(segs)@,
        batch matches Some(b) ==> b@ == old(segs)@.take(COMPACTION_BATCH as int) && final(segs)@
            == old(segs)@.skip(COMPACTION_BATCH as int),
{
    if segs.len() < COMPACTION_THRESHOLD {
        return None;
    }
    let ghost orig = segs@;
    let mut batch: Vec<SegmentInfo> = Vec::new();
    let mut k: usize = 0;
    while k < COMPACTION_BATCH
        invariant
            0 <= k <= COMPACTION_BATCH,
            orig.len() >= COMPACTION_THRESHOLD,
            batch@ == orig.take(k as int),
            segs@ == orig.skip(k as int),
        decreases COMPACTION_BATCH - k,
    {
        let s = segs.remove(0);
        batch.push(s);
        k = k + 1;
        assert(batch@ =~= orig.take(k as int));
        assert(segs@ =~= orig.skip(k as int));
    }
    Some(batch)
}

/// The segment that replaces a merged batch: it spans from the first
/// timestamp of the first merged segment to the last timestamp of the last
/// one (0 where the batch is empty), and holds the events that were read
/// back from the batch.
pub fn merged_segment(batch: &Vec<SegmentInfo>, segment_id: u64, file_path: String, event_count: u64, size_bytes: u64) -> (s: SegmentInfo)
    ensures
        s.segment_id == segment_id,
        s.file_path == file_path,
        s.first_timestamp == (if batch@.len() == 0 { 0 } else { batch@[0].first_timestamp }),
        s.last_timestamp == (if batch@.len() == 0 { 0 } else { batch@.last().last_timestamp }),
        s.event_count == event_count,
        s.size_bytes == size_bytes,
        !s.is_active,
{
    let n = batch.len();
    SegmentInfo {
        segment_id,
        file_path,
        first_timestamp: if n == 0 {
            0
        } else {
            batch[0].first_timestamp
        },
        last_timestamp: if n == 0 {
            0
        } else {
            batch[n - 1].last_timestamp
        },
        event_count,
        size_bytes,
        is_active: false,
    }
}

/// Puts the merged segment in front of the shard's remaining segments.
pub fn record_compaction(segs: &mut Vec<SegmentInfo>, merged: SegmentInfo)
    ensures
        final(segs)@ == seq![merged] + old(segs)@,
{
    segs.insert(0, merged);
    assert(segs@ =~= seq![merged] + old(segs)@);
}

/// A segment is kept by retention when its last timestamp is past the
/// threshold.
pub open spec fn retained(s: SegmentInfo, threshold: i64) -> bool {
    s.last_timestamp > threshold
}

/// Drops the segments whose last timestamp is not past `threshold`, keeping
/// the others in order, and returns the dropped ones in order so that their
/// files can be removed.
pub fn apply_retention(segs: &mut Vec<SegmentInfo>, threshold: i64) -> (dropped: Vec<SegmentInfo>)
    ensures
        final(segs)@ == old(segs)@.filter(|s: SegmentInfo| retained(s, threshold)),
        dropped@ == old(segs)@.filter(|s: SegmentInfo| !retained(s, threshold)),
{
    broadcast use vstd::seq::Seq::lemma_filter_push;

    let ghost orig = segs@;
    let ghost keep = |s: SegmentInfo| retained(s, threshold);
    let ghost drop = |s: SegmentInfo| !retained(s, threshold);
    let mut kept: Vec<SegmentInfo> = Vec::new();
    let mut dropped: Vec<SegmentInfo> = Vec::new();
    let ghost mut seen: Seq<SegmentInfo> = Seq::empty();
    assert(seen.filter(keep) =~= Seq::<SegmentInfo>::empty()) by {
        reveal(Seq::filter);
    }
    assert(seen.filter(drop) =~= Seq::<SegmentInfo>::empty()) by {
        reveal(Seq::filter);
    }
    while segs.len() > 0
        invariant
            orig == seen + segs@,
            keep == (|s: SegmentInfo| retained(s, threshold)),
            drop == (|s: SegmentInfo| !retained(s, threshold)),
            kept@ == seen.filter(keep),
            dropped@ == seen.filter(drop),
        decreases segs@.len(),
    {
        let ghost before = segs@;
        let s = segs.remove(0);
        proof {
            assert(before == seq![s] + segs@);
            assert(orig =~= seen.push(s) + segs@);
        }
        if s.last_timestamp > threshold {
            kept.push(s);
        } else {
            dropped.push(s);
        }
        proof {
            seen.lemma_filter_push(s, keep);
            seen.lemma_filter_push(s, drop);
            seen = seen.push(s);
        }
    }
    *segs = kept;
    assert(seen =~= orig);
    dropped
}

} // verus!
