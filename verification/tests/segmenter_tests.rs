use flv::parser::Tag;
use flv::parser::complete_tag;
use flv::segmenter::Segmenter;
use flv::segmenter::SegmenterAction;
use flv::segmenter::WarnKind;
use flv::writer::FlvWriterMuxer;

fn make_tag(tag_type: u8, timestamp: u32, payload: &[u8]) -> Tag {
    let mut m = FlvWriterMuxer::new(Vec::new());
    m.write_flv_header(tag_type, payload.len() as u32, timestamp);
    m.write_flv_tag_body(payload);
    m.write_previous_tag_size(11 + payload.len() as u32);
    complete_tag(&m.writer).unwrap().0
}

fn metadata_tag(ts: u32) -> Tag {
    make_tag(
        18,
        ts,
        &[0x02, 0x00, 0x0A, b'o', b'n', b'M', b'e', b't', b'a', b'D', b'a', b't', b'a', 0x05],
    )
}

fn aac_header_tag(ts: u32) -> Tag {
    make_tag(8, ts, &[0xAF, 0x00, 0x12, 0x10])
}

fn avc_header_tag(ts: u32, body: &[u8]) -> Tag {
    let mut payload = vec![0x27, 0x00, 0x00, 0x00, 0x00];
    payload.extend_from_slice(body);
    make_tag(9, ts, &payload)
}

fn keyframe_tag(ts: u32) -> Tag {
    make_tag(9, ts, &[0x17, 0x01, 0x00, 0x00, 0x00, 0x65])
}

fn inter_tag(ts: u32) -> Tag {
    make_tag(9, ts, &[0x27, 0x01, 0x00, 0x00, 0x00, 0x41])
}

fn written_payloads(actions: &[SegmenterAction]) -> Vec<Vec<u8>> {
    actions
        .iter()
        .filter_map(|a| match a {
            SegmenterAction::WriteTag(t) => Some(t.payload.clone()),
            _ => None,
        })
        .collect()
}

#[test]
fn segment_split_reemits_headers_at_each_keyframe() {
    // A tiny size limit: once exceeded, every keyframe boundary starts a
    // new segment, and each new segment's first three tags are the
    // cached metadata, AAC header and AVC header, byte for byte.
    let mut seg = Segmenter::new(1, 0);
    let meta = metadata_tag(0);
    let aac = aac_header_tag(0);
    let avc = avc_header_tag(0, &[0x01, 0x64]);
    let mut all: Vec<SegmenterAction> = Vec::new();
    all.extend(seg.push_tag(metadata_tag(0)));
    all.extend(seg.push_tag(aac_header_tag(0)));
    all.extend(seg.push_tag(avc_header_tag(0, &[0x01, 0x64])));
    all.extend(seg.push_tag(keyframe_tag(100)));
    all.extend(seg.push_tag(inter_tag(120)));
    all.extend(seg.push_tag(inter_tag(140)));
    all.extend(seg.push_tag(keyframe_tag(200)));
    all.extend(seg.push_tag(inter_tag(220)));
    all.extend(seg.push_tag(keyframe_tag(300)));
    all.extend(seg.close());
    assert!(seg.is_closed());

    let splits = all
        .iter()
        .filter(|a| matches!(a, SegmenterAction::StartNewFile))
        .count();
    assert_eq!(splits, 3, "one new segment per keyframe once the limit is exceeded");

    // Between consecutive StartNewFile actions, the first three written
    // tags are the three cached headers.
    let mut segments: Vec<Vec<&SegmenterAction>> = vec![Vec::new()];
    for a in &all {
        if matches!(a, SegmenterAction::StartNewFile) {
            segments.push(Vec::new());
        } else {
            segments.last_mut().unwrap().push(a);
        }
    }
    assert_eq!(segments.len(), 4);
    // Segment 0 received the pre-keyframe flush: headers in stream order.
    for written in segments.iter().map(|s| {
        let owned: Vec<SegmenterAction> = s.iter().map(|a| (*a).clone()).collect();
        written_payloads(&owned)
    }) {
        assert!(written.len() >= 3);
        assert_eq!(written[0], meta.payload, "metadata first, byte-identical");
        assert_eq!(written[1], aac.payload, "AAC header second, byte-identical");
        assert_eq!(written[2], avc.payload, "AVC header third, byte-identical");
    }
}

#[test]
fn timestamp_regression_warns_but_still_writes() {
    let mut seg = Segmenter::new(0, 0);
    seg.push_tag(keyframe_tag(100));
    seg.push_tag(inter_tag(50));
    let actions = seg.push_tag(keyframe_tag(200));
    let warned = actions
        .iter()
        .any(|a| matches!(a, SegmenterAction::Warn(WarnKind::NonMonotonicTimestamp)));
    assert!(warned, "a backwards timestamp is reported");
    let written = written_payloads(&actions);
    assert_eq!(written.len(), 2, "the late tag is still written, nothing dropped");
    assert_eq!(written[0], keyframe_tag(100).payload);
    assert_eq!(written[1], inter_tag(50).payload);
}

#[test]
fn changed_avc_header_forces_split_without_limits() {
    // No size or duration limit: only the header change forces the next
    // keyframe to start a new file.
    let mut seg = Segmenter::new(0, 0);
    seg.push_tag(metadata_tag(0));
    seg.push_tag(aac_header_tag(0));
    seg.push_tag(avc_header_tag(0, &[0x01, 0x64]));
    seg.push_tag(keyframe_tag(100));
    let change = seg.push_tag(avc_header_tag(150, &[0x01, 0x4D]));
    assert!(
        change
            .iter()
            .any(|a| matches!(a, SegmenterAction::Warn(WarnKind::ChangedAvcHeader))),
        "a different AVC sequence header is reported"
    );
    let actions = seg.push_tag(keyframe_tag(200));
    assert!(
        actions.iter().any(|a| matches!(a, SegmenterAction::StartNewFile)),
        "the next keyframe starts a new file"
    );
}

#[test]
fn identical_avc_header_does_not_force_split() {
    let mut seg = Segmenter::new(0, 0);
    seg.push_tag(avc_header_tag(0, &[0x01, 0x64]));
    seg.push_tag(keyframe_tag(100));
    let again = seg.push_tag(avc_header_tag(150, &[0x01, 0x64]));
    assert!(again.is_empty());
    let actions = seg.push_tag(keyframe_tag(200));
    assert!(!actions.iter().any(|a| matches!(a, SegmenterAction::StartNewFile)));
}

#[test]
fn duplicate_metadata_and_aac_headers_warn() {
    let mut seg = Segmenter::new(0, 0);
    assert!(seg.push_tag(metadata_tag(0)).is_empty());
    let a = seg.push_tag(metadata_tag(1));
    assert_eq!(a, vec![SegmenterAction::Warn(WarnKind::DuplicateMetadata)]);
    assert!(seg.push_tag(aac_header_tag(0)).is_empty());
    let b = seg.push_tag(aac_header_tag(1));
    assert_eq!(b, vec![SegmenterAction::Warn(WarnKind::DuplicateAacHeader)]);
}

#[test]
fn missing_headers_reported_on_split() {
    // A split with nothing cached: recording continues, the gaps are
    // reported.
    let mut seg = Segmenter::new(1, 0);
    seg.push_tag(keyframe_tag(0));
    let actions = seg.push_tag(keyframe_tag(100));
    assert!(actions.iter().any(|a| matches!(a, SegmenterAction::StartNewFile)));
    for k in [WarnKind::MissingMetadata, WarnKind::MissingAacHeader, WarnKind::MissingAvcHeader] {
        assert!(
            actions.iter().any(|a| matches!(a, SegmenterAction::Warn(w) if *w == k)),
            "missing header {:?} is reported",
            k
        );
    }
}

#[test]
fn close_flushes_pending_tags() {
    let mut seg = Segmenter::new(0, 0);
    seg.push_tag(keyframe_tag(10));
    seg.push_tag(inter_tag(20));
    let actions = seg.close();
    let written = written_payloads(&actions);
    assert_eq!(written.len(), 2);
    assert_eq!(written[0], keyframe_tag(10).payload);
    assert_eq!(written[1], inter_tag(20).payload);
    assert!(seg.is_closed());
}

#[test]
fn duration_limit_splits_at_keyframe() {
    let mut seg = Segmenter::new(0, 1000);
    seg.push_tag(keyframe_tag(0));
    let early = seg.push_tag(keyframe_tag(500));
    assert!(!early.iter().any(|a| matches!(a, SegmenterAction::StartNewFile)));
    let late = seg.push_tag(keyframe_tag(1500));
    assert!(late.iter().any(|a| matches!(a, SegmenterAction::StartNewFile)));
}
