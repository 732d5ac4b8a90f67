//! Stream segmenter: consumes the live tag sequence and decides how to
//! split it into self-contained output files.
//!
//! Tags accumulate in a pending cache and are flushed at keyframes, the
//! only legal split points.  The segmenter tracks the last metadata, AAC
//! sequence-header and AVC sequence-header tags; every new segment starts
//! with them so each output file is independently decodable.  It never
//! performs I/O itself: each step returns the ordered actions (open a new
//! file, write a tag, log a warning) for the caller to carry out.
use vstd::prelude::*;
use crate::parser::Tag;
use crate::parser::TagData;
use crate::parser::TagDataView;
use crate::parser::TagType;
use crate::parser::TagView;
use crate::parser::clone_tag;

verus! {

/// A condition the segmenter reports without stopping.
#[derive(Debug, Clone, Copy, PartialEq, Eq, Structural)]
pub enum WarnKind {
    /// A second metadata script tag replaced the cached one.
    DuplicateMetadata,
    /// A second AAC sequence header replaced the cached one.
    DuplicateAacHeader,
    /// An AVC sequence header with different bytes arrived mid-stream.
    ChangedAvcHeader,
    /// A flushed tag's timestamp went backwards; it is written anyway.
    NonMonotonicTimestamp,
    /// A segment started with no metadata tag cached.
    MissingMetadata,
    /// A segment started with no AAC sequence header cached.
    MissingAacHeader,
    /// A segment started with no AVC sequence header cached.
    MissingAvcHeader,
}

/// One thing the caller must do, in order.
#[derive(Debug, Clone, PartialEq, Eq)]
pub enum SegmenterAction {
    /// Close the open output file and start the next one.
    StartNewFile,
    /// Write this tag to the open output file.
    WriteTag(Tag),
    /// Record this condition in the log.
    Warn(WarnKind),
}

/// The shape of an action.
#[verifier::ext_equal]
pub enum ActionView {
    StartNewFile,
    WriteTag(TagView),
    Warn(WarnKind),
}

impl View for SegmenterAction {
    type V = ActionView;

    open spec fn view(&self) -> ActionView {
        match self {
            SegmenterAction::StartNewFile => ActionView::StartNewFile,
            SegmenterAction::WriteTag(t) => ActionView::WriteTag(t@),
            SegmenterAction::Warn(k) => ActionView::Warn(*k),
        }
    }
}

/// The shape of the segmenter state.
#[verifier::ext_equal]
pub struct SegView {
    pub filesize_limit: u64,
    pub duration_limit: u64,
    pub metadata: Option<TagView>,
    pub aac_header: Option<TagView>,
    pub avc_header: Option<TagView>,
    pub pending: Seq<TagView>,
    pub segment_size: int,
    pub segment_start_ts: int,
    pub force_new_segment: bool,
    pub prev_flushed_ts: int,
    pub closed: bool,
}

/// A script tag; the segmenter treats each as the stream's metadata.
pub open spec fn is_script(t: TagView) -> bool {
    t.header.tag_type == TagType::Script
}

/// An audio tag carrying an AAC sequence header.
pub open spec fn is_aac_seq_header(t: TagView) -> bool {
    &&& t.data matches TagDataView::Audio(a)
    &&& t.data->Audio_0.sound_format == crate::parser::SoundFormat::AAC
    &&& t.data->Audio_0.sound_data.len() > 0
    &&& t.data->Audio_0.sound_data[0] == 0
}

/// A video tag carrying an AVC sequence header.
pub open spec fn is_avc_seq_header(t: TagView) -> bool {
    &&& t.data matches TagDataView::Video(v)
    &&& t.data->Video_0.codec_id == crate::parser::CodecId::H264
    &&& t.data->Video_0.video_data.len() > 0
    &&& t.data->Video_0.video_data[0] == 0
}

/// A video keyframe: the only legal split point.
pub open spec fn is_keyframe(t: TagView) -> bool {
    &&& t.data matches TagDataView::Video(v)
    &&& t.data->Video_0.frame_type == crate::parser::FrameType::Key
}

/// Saturating add within the 64-bit size counter.
pub open spec fn sat_add(a: int, b: int) -> int {
    if a + b > u64::MAX {
        u64::MAX as int
    } else {
        a + b
    }
}

/// Bytes a tag occupies on the wire: header, payload, previous-tag-size.
pub open spec fn tag_wire_size(t: TagView) -> int {
    11 + t.header.data_size + 4
}

/// Flushing the pending tags, oldest first: each is written; one whose
/// timestamp went backwards gets a warning first but is written all the
/// same.  Returns the actions, the last flushed timestamp, and the grown
/// segment size.
pub open spec fn spec_flush(pending: Seq<TagView>, prev: int, size: int) -> (
    Seq<ActionView>,
    int,
    int,
)
    decreases pending.len(),
{
    if pending.len() == 0 {
        (Seq::empty(), prev, size)
    } else {
        let h = pending[0];
        let warn: Seq<ActionView> = if (h.header.timestamp as int) < prev {
            seq![ActionView::Warn(WarnKind::NonMonotonicTimestamp)]
        } else {
            Seq::empty()
        };
        let (rest, last, sz) = spec_flush(
            pending.drop_first(),
            h.header.timestamp as int,
            sat_add(size, tag_wire_size(h)),
        );
        (warn + seq![ActionView::WriteTag(h)] + rest, last, sz)
    }
}

/// Caching the arriving tag: metadata and AAC headers replace with a
/// warning, an AVC header with different bytes forces a segment split.
pub open spec fn spec_classify(st: SegView, t: TagView) -> (SegView, Seq<ActionView>) {
    if is_script(t) {
        let w: Seq<ActionView> = if st.metadata is Some {
            seq![ActionView::Warn(WarnKind::DuplicateMetadata)]
        } else {
            Seq::empty()
        };
        (SegView { metadata: Some(t), ..st }, w)
    } else if is_aac_seq_header(t) {
        let w: Seq<ActionView> = if st.aac_header is Some {
            seq![ActionView::Warn(WarnKind::DuplicateAacHeader)]
        } else {
            Seq::empty()
        };
        (SegView { aac_header: Some(t), ..st }, w)
    } else if is_avc_seq_header(t) {
        match st.avc_header {
            Some(old) => if old.payload != t.payload {
                (
                    SegView { avc_header: Some(t), force_new_segment: true, ..st },
                    seq![ActionView::Warn(WarnKind::ChangedAvcHeader)],
                )
            } else {
                (SegView { avc_header: Some(t), ..st }, Seq::empty())
            },
            None => (SegView { avc_header: Some(t), ..st }, Seq::empty()),
        }
    } else {
        (st, Seq::empty())
    }
}

/// Opening the next segment at keyframe `t`: the cached headers are
/// queued, in order, ahead of all data tags; a missing one is reported
/// and recording continues without it.  On a header-change split the AVC
/// header is not re-queued: the changed header tag itself is in the
/// stream.
pub open spec fn spec_split(st: SegView, t: TagView) -> (SegView, Seq<ActionView>) {
    let (mq, mw) = match st.metadata {
        Some(m) => (seq![m], Seq::<ActionView>::empty()),
        None => (Seq::<TagView>::empty(), seq![ActionView::Warn(WarnKind::MissingMetadata)]),
    };
    let (aq, aw) = match st.aac_header {
        Some(a) => (seq![a], Seq::<ActionView>::empty()),
        None => (Seq::<TagView>::empty(), seq![ActionView::Warn(WarnKind::MissingAacHeader)]),
    };
    let (vq, vw) = if st.force_new_segment {
        (Seq::<TagView>::empty(), Seq::<ActionView>::empty())
    } else {
        match st.avc_header {
            Some(v) => (seq![v], Seq::<ActionView>::empty()),
            None => (Seq::<TagView>::empty(), seq![ActionView::Warn(WarnKind::MissingAvcHeader)]),
        }
    };
    (
        SegView {
            pending: mq + aq + vq,
            segment_size: 13,
            segment_start_ts: t.header.timestamp as int,
            force_new_segment: false,
            ..st
        },
        seq![ActionView::StartNewFile] + mw + aw + vw,
    )
}

/// One step of the segmenter on an arriving tag: cache classification,
/// then, at a keyframe, flush the pending tags and split if the size or
/// duration limit is crossed or a split is forced.
pub open spec fn spec_step(st: SegView, t: TagView) -> (SegView, Seq<ActionView>) {
    let (st1, w1) = spec_classify(st, t);
    if is_keyframe(t) {
        let (fa, last, sz) = spec_flush(st1.pending, st1.prev_flushed_ts, st1.segment_size);
        let st2 = SegView { pending: Seq::empty(), prev_flushed_ts: last, segment_size: sz, ..st1 };
        let dur: int = if t.header.timestamp as int >= st2.segment_start_ts {
            t.header.timestamp - st2.segment_start_ts
        } else {
            0
        };
        let needed = (st2.filesize_limit != 0 && sz >= st2.filesize_limit) || (st2.duration_limit
            != 0 && dur >= st2.duration_limit);
        if needed || st2.force_new_segment {
            let (st3, sa) = spec_split(st2, t);
            (SegView { pending: st3.pending.push(t), ..st3 }, w1 + fa + sa)
        } else {
            (SegView { pending: seq![t], ..st2 }, w1 + fa)
        }
    } else {
        (SegView { pending: st1.pending.push(t), ..st1 }, w1)
    }
}

/// Ending the stream: the pending tags are flushed, nothing is discarded,
/// and the segmenter closes.
pub open spec fn spec_close(st: SegView) -> (SegView, Seq<ActionView>) {
    let (fa, last, sz) = spec_flush(st.pending, st.prev_flushed_ts, st.segment_size);
    (
        SegView {
            pending: Seq::empty(),
            prev_flushed_ts: last,
            segment_size: sz,
            closed: true,
            ..st
        },
        fa,
    )
}

/// The segmenter state: limits, cached header tags, the pending cache and
/// the running counters.
pub struct Segmenter {
    pub filesize_limit: u64,
    pub duration_limit: u64,
    metadata: Option<Tag>,
    aac_header: Option<Tag>,
    avc_header: Option<Tag>,
    pending: Vec<Tag>,
    segment_size: u64,
    segment_start_ts: u32,
    force_new_segment: bool,
    prev_flushed_ts: u32,
    closed: bool,
}

impl View for Segmenter {
    type V = SegView;

    closed spec fn view(&self) -> SegView {
        SegView {
            filesize_limit: self.filesize_limit,
            duration_limit: self.duration_limit,
            metadata: match self.metadata {
                Some(m) => Some(m@),
                None => None,
            },
            aac_header: match self.aac_header {
                Some(a) => Some(a@),
                None => None,
            },
            avc_header: match self.avc_header {
                Some(v) => Some(v@),
                None => None,
            },
            pending: Seq::new(self.pending@.len(), |i: int| self.pending@[i]@),
            segment_size: self.segment_size as int,
            segment_start_ts: self.segment_start_ts as int,
            force_new_segment: self.force_new_segment,
            prev_flushed_ts: self.prev_flushed_ts as int,
            closed: self.closed,
        }
    }
}

impl Segmenter {
    /// A segmenter with the given limits; zero means unbounded.  The
    /// first output file counts as open, holding its 13 header bytes.
    pub fn new(filesize_limit: u64, duration_limit: u64) -> (r: Self)
        ensures
            r@ == (SegView {
                filesize_limit,
                duration_limit,
                metadata: None::<TagView>,
                aac_header: None::<TagView>,
                avc_header: None::<TagView>,
                pending: Seq::empty(),
                segment_size: 13,
                segment_start_ts: 0,
                force_new_segment: false,
                prev_flushed_ts: 0,
                closed: false,
            }),
    {
        let r = Segmenter {
            filesize_limit,
            duration_limit,
            metadata: None,
            aac_header: None,
            avc_header: None,
            pending: Vec::new(),
            segment_size: 13,
            segment_start_ts: 0,
            force_new_segment: false,
            prev_flushed_ts: 0,
            closed: false,
        };
        proof {
            assert(r@.pending =~= Seq::<TagView>::empty());
        }
        r
    }

    /// Whether the stream has ended and the segmenter closed.
    pub fn is_closed(&self) -> (r: bool)
        ensures
            r == self@.closed,
    {
        self.closed
    }

    /// Flushes the pending cache into write actions.
    fn flush_pending(&mut self, actions: &mut Vec<SegmenterAction>)
        ensures
            ({
                let (fa, last, sz) = spec_flush(
                    old(self)@.pending,
                    old(self)@.prev_flushed_ts,
                    old(self)@.segment_size,
                );
                &&& final(actions)@.map_values(|a: SegmenterAction| a@) == old(actions)@.map_values(
                    |a: SegmenterAction| a@,
                ) + fa
                &&& final(self)@ == (SegView {
                    pending: Seq::empty(),
                    prev_flushed_ts: last,
                    segment_size: sz,
                    ..old(self)@
                })
            }),
    {
        let ghost p0 = self@.pending;
        let ghost prev0 = self@.prev_flushed_ts;
        let ghost size0 = self@.segment_size;
        let ghost acts0 = actions@.map_values(|a: SegmenterAction| a@);
        proof {
            assert(p0.skip(0) =~= p0);
        }
        let mut i: usize = 0;
        while i < self.pending.len()
            invariant
                i <= self.pending@.len(),
                self.pending@ == old(self).pending@,
                self.metadata == old(self).metadata,
                self.aac_header == old(self).aac_header,
                self.avc_header == old(self).avc_header,
                self.filesize_limit == old(self).filesize_limit,
                self.duration_limit == old(self).duration_limit,
                self.segment_start_ts == old(self).segment_start_ts,
                self.force_new_segment == old(self).force_new_segment,
                self.closed == old(self).closed,
                p0 == old(self)@.pending,
                prev0 == old(self)@.prev_flushed_ts,
                size0 == old(self)@.segment_size,
                acts0 == old(actions)@.map_values(|a: SegmenterAction| a@),
                p0.len() == self.pending@.len(),
                forall|j: int| 0 <= j < p0.len() ==> p0[j] == #[trigger] self.pending@[j]@,
                ({
                    let (fa, last, sz) = spec_flush(
                        p0.skip(i as int),
                        self.prev_flushed_ts as int,
                        self.segment_size as int,
                    );
                    let (fa0, last0, sz0) = spec_flush(p0, prev0, size0);
                    &&& actions@.map_values(|a: SegmenterAction| a@) + fa == acts0 + fa0
                    &&& last == last0
                    &&& sz == sz0
                }),
            decreases self.pending@.len() - i,
        {
            let ghost before = actions@.map_values(|a: SegmenterAction| a@);
            let ghost old_prev = self.prev_flushed_ts;
            let t = clone_tag(&self.pending[i]);
            let ghost tv = t@;
            let wire: u64 = 11 + (t.header.data_size as u64) + 4;
            if t.header.timestamp < self.prev_flushed_ts {
                actions.push(SegmenterAction::Warn(WarnKind::NonMonotonicTimestamp));
            }
            actions.push(SegmenterAction::WriteTag(t));
            proof {
                let w: Seq<ActionView> = if (tv.header.timestamp as int) < old_prev as int {
                    seq![ActionView::Warn(WarnKind::NonMonotonicTimestamp)]
                } else {
                    Seq::empty()
                };
                assert(actions@.map_values(|a: SegmenterAction| a@) =~= before + w + seq![
                    ActionView::WriteTag(tv),
                ]);
                assert(p0.skip(i as int).drop_first() =~= p0.skip(i + 1));
                assert(p0.skip(i as int)[0] == tv);
            }
            let ghost w: Seq<ActionView> = if (tv.header.timestamp as int) < old_prev as int {
                seq![ActionView::Warn(WarnKind::NonMonotonicTimestamp)]
            } else {
                Seq::empty()
            };
            let new_size: u64 = if self.segment_size <= u64::MAX - wire {
                self.segment_size + wire
            } else {
                u64::MAX
            };
            self.segment_size = new_size;
            self.prev_flushed_ts = self.pending[i].header.timestamp;
            proof {
                let (fa2, last2, sz2) = spec_flush(
                    p0.skip(i + 1),
                    self.prev_flushed_ts as int,
                    self.segment_size as int,
                );
                assert((before + w + seq![ActionView::WriteTag(tv)]) + fa2 =~= before + (w + seq![
                    ActionView::WriteTag(tv),
                ] + fa2));
            }
            i = i + 1;
        }
        self.pending.clear();
        proof {
            assert(p0.skip(p0.len() as int) =~= Seq::<TagView>::empty());
            assert(self@.pending =~= Seq::<TagView>::empty());
        }
    }

    /// Takes one arriving tag and returns the ordered actions it causes.
    #[verifier::rlimit(60)]
    pub fn push_tag(&mut self, tag: Tag) -> (r: Vec<SegmenterAction>)
        requires
            !old(self)@.closed,
        ensures
            final(self)@ == spec_step(old(self)@, tag@).0,
            r@.map_values(|a: SegmenterAction| a@) == spec_step(old(self)@, tag@).1,
    {
        let ghost st0 = self@;
        let ghost tv = tag@;
        let mut actions: Vec<SegmenterAction> = Vec::new();
        let is_scr = match tag.header.tag_type {
            TagType::Script => true,
            _ => false,
        };
        let is_aac_hdr = match &tag.data {
            TagData::Audio(a) => match a.sound_format {
                crate::parser::SoundFormat::AAC => a.sound_data.len() > 0 && a.sound_data[0] == 0,
                _ => false,
            },
            _ => false,
        };
        let is_avc_hdr = match &tag.data {
            TagData::Video(v) => match v.codec_id {
                crate::parser::CodecId::H264 => v.video_data.len() > 0 && v.video_data[0] == 0,
                _ => false,
            },
            _ => false,
        };
        let is_kf = match &tag.data {
            TagData::Video(v) => match v.frame_type {
                crate::parser::FrameType::Key => true,
                _ => false,
            },
            _ => false,
        };
        if is_scr {
            if self.metadata.is_some() {
                actions.push(SegmenterAction::Warn(WarnKind::DuplicateMetadata));
            }
            self.metadata = Some(clone_tag(&tag));
        } else if is_aac_hdr {
            if self.aac_header.is_some() {
                actions.push(SegmenterAction::Warn(WarnKind::DuplicateAacHeader));
            }
            self.aac_header = Some(clone_tag(&tag));
        } else if is_avc_hdr {
            let changed = match &self.avc_header {
                Some(old_hdr) => !crate::wire::bytes_eq(
                    old_hdr.payload.as_slice(),
                    tag.payload.as_slice(),
                ),
                None => false,
            };
            if changed {
                actions.push(SegmenterAction::Warn(WarnKind::ChangedAvcHeader));
                self.force_new_segment = true;
            }
            self.avc_header = Some(clone_tag(&tag));
        }
        let ghost st1 = spec_classify(st0, tv).0;
        proof {
            assert(self@ =~~= st1);
            assert(actions@.map_values(|a: SegmenterAction| a@) =~= spec_classify(st0, tv).1);
        }
        if is_kf {
            self.flush_pending(&mut actions);
            let ghost st2 = SegView {
                pending: Seq::empty(),
                prev_flushed_ts: spec_flush(st1.pending, st1.prev_flushed_ts, st1.segment_size).1,
                segment_size: spec_flush(st1.pending, st1.prev_flushed_ts, st1.segment_size).2,
                ..st1
            };
            proof {
                assert(self@ =~~= st2);
            }
            let dur: u64 = if tag.header.timestamp >= self.segment_start_ts {
                (tag.header.timestamp - self.segment_start_ts) as u64
            } else {
                0
            };
            let needed = (self.filesize_limit != 0 && self.segment_size >= self.filesize_limit) || (
            self.duration_limit != 0 && dur >= self.duration_limit);
            if needed || self.force_new_segment {
                let ghost before_split = actions@.map_values(|a: SegmenterAction| a@);
                let force = self.force_new_segment;
                actions.push(SegmenterAction::StartNewFile);
                match &self.metadata {
                    Some(m) => {
                        let c = clone_tag(m);
                        self.pending.push(c);
                    },
                    None => {
                        actions.push(SegmenterAction::Warn(WarnKind::MissingMetadata));
                    },
                }
                match &self.aac_header {
                    Some(a) => {
                        let c = clone_tag(a);
                        self.pending.push(c);
                    },
                    None => {
                        actions.push(SegmenterAction::Warn(WarnKind::MissingAacHeader));
                    },
                }
                if !force {
                    match &self.avc_header {
                        Some(v) => {
                            let c = clone_tag(v);
                            self.pending.push(c);
                        },
                        None => {
                            actions.push(SegmenterAction::Warn(WarnKind::MissingAvcHeader));
                        },
                    }
                }
                self.segment_size = 13;
                self.segment_start_ts = tag.header.timestamp;
                self.force_new_segment = false;
                proof {
                    let (st3, sa) = spec_split(st2, tv);
                    assert(self@.pending =~~= st3.pending);
                    assert(self@ =~~= st3);
                    assert(actions@.map_values(|a: SegmenterAction| a@) =~= before_split + sa);
                }
                let ghost st3 = spec_split(st2, tv).0;
                self.pending.push(tag);
                proof {
                    assert(self@.pending =~~= st3.pending.push(tv));
                    assert(self@ =~~= spec_step(st0, tv).0);
                    assert(actions@.map_values(|a: SegmenterAction| a@) =~= spec_step(st0, tv).1);
                }
            } else {
                self.pending.push(tag);
                proof {
                    assert(self@.pending =~~= seq![tv]);
                    assert(self@ =~~= spec_step(st0, tv).0);
                    assert(actions@.map_values(|a: SegmenterAction| a@) =~= spec_step(st0, tv).1);
                }
            }
        } else {
            self.pending.push(tag);
            proof {
                assert(self@.pending =~~= st1.pending.push(tv));
                assert(self@ =~~= spec_step(st0, tv).0);
                assert(actions@.map_values(|a: SegmenterAction| a@) =~= spec_step(st0, tv).1);
            }
        }
        actions
    }

    /// Ends the stream: flushes whatever is pending and closes.  Nothing
    /// buffered is discarded.
    pub fn close(&mut self) -> (r: Vec<SegmenterAction>)
        requires
            !old(self)@.closed,
        ensures
            final(self)@ == spec_close(old(self)@).0,
            r@.map_values(|a: SegmenterAction| a@) == spec_close(old(self)@).1,
    {
        let ghost st0 = self@;
        let mut actions: Vec<SegmenterAction> = Vec::new();
        self.flush_pending(&mut actions);
        self.closed = true;
        proof {
            assert(self@ =~~= spec_close(st0).0);
            assert(actions@.map_values(|a: SegmenterAction| a@) =~= spec_close(st0).1);
        }
        actions
    }
}

/// The tags written by a list of actions, in order.
pub open spec fn written_tags(acts: Seq<ActionView>) -> Seq<TagView>
    decreases acts.len(),
{
    if acts.len() == 0 {
        Seq::empty()
    } else {
        let head: Seq<TagView> = match acts[0] {
            ActionView::WriteTag(t) => seq![t],
            _ => Seq::empty(),
        };
        head + written_tags(acts.drop_first())
    }
}

/// Flushing writes every pending tag, in order, whatever its timestamp:
/// a backwards timestamp adds a warning but never drops or reorders a
/// tag.
pub proof fn lemma_flush_writes_all(pending: Seq<TagView>, prev: int, size: int)
    ensures
        written_tags(spec_flush(pending, prev, size).0) == pending,
    decreases pending.len(),
{
    if pending.len() == 0 {
        assert(written_tags(spec_flush(pending, prev, size).0) =~= pending);
    } else {
        let h = pending[0];
        let warn: Seq<ActionView> = if (h.header.timestamp as int) < prev {
            seq![ActionView::Warn(WarnKind::NonMonotonicTimestamp)]
        } else {
            Seq::empty()
        };
        let (rest, last, sz) = spec_flush(
            pending.drop_first(),
            h.header.timestamp as int,
            sat_add(size, tag_wire_size(h)),
        );
        lemma_flush_writes_all(
            pending.drop_first(),
            h.header.timestamp as int,
            sat_add(size, tag_wire_size(h)),
        );
        let full = spec_flush(pending, prev, size).0;
        let wr = seq![ActionView::WriteTag(h)] + rest;
        assert(wr[0] == ActionView::WriteTag(h));
        assert(wr.drop_first() =~= rest);
        assert(written_tags(wr) == seq![h] + written_tags(rest));
        if (h.header.timestamp as int) < prev {
            assert(full[0] == ActionView::Warn(WarnKind::NonMonotonicTimestamp));
            assert(full.drop_first() =~= wr);
            assert(written_tags(full) == written_tags(wr));
        } else {
            assert(full =~= wr);
            assert(written_tags(full) == written_tags(wr));
        }
        assert(seq![h] + pending.drop_first() =~= pending);
    }
}

/// A flushed tag whose timestamp went backwards is both warned about and
/// still written: the flush opens with the warning, then the write.
pub proof fn lemma_flush_warns_regression(pending: Seq<TagView>, prev: int, size: int)
    requires
        pending.len() > 0,
        (pending[0].header.timestamp as int) < prev,
    ensures
        spec_flush(pending, prev, size).0.len() >= 2,
        spec_flush(pending, prev, size).0[0] == ActionView::Warn(WarnKind::NonMonotonicTimestamp),
        spec_flush(pending, prev, size).0[1] == ActionView::WriteTag(pending[0]),
{
}

/// An AVC sequence header whose bytes differ from the cached one forces a
/// split and is warned about.
pub proof fn lemma_header_change_forces_split(st: SegView, t: TagView)
    requires
        is_avc_seq_header(t),
        !is_script(t),
        !is_aac_seq_header(t),
        st.avc_header matches Some(old_hdr) && old_hdr.payload != t.payload,
    ensures
        spec_classify(st, t).0.force_new_segment,
        spec_classify(st, t).1.contains(ActionView::Warn(WarnKind::ChangedAvcHeader)),
        !is_keyframe(t) ==> spec_step(st, t).0.force_new_segment,
{
    assert(spec_classify(st, t).1[0] == ActionView::Warn(WarnKind::ChangedAvcHeader));
}

/// Once a split is forced, the next keyframe starts a new file even when
/// neither the size nor the duration limit is reached.
pub proof fn lemma_forced_split_on_keyframe(st: SegView, t: TagView)
    requires
        is_keyframe(t),
        !is_script(t),
        !is_aac_seq_header(t),
        !is_avc_seq_header(t),
        st.force_new_segment,
    ensures
        spec_step(st, t).1.contains(ActionView::StartNewFile),
{
    let (st1, w1) = spec_classify(st, t);
    let (fa, last, sz) = spec_flush(st1.pending, st1.prev_flushed_ts, st1.segment_size);
    let st2 = SegView { pending: Seq::empty(), prev_flushed_ts: last, segment_size: sz, ..st1 };
    let (st3, sa) = spec_split(st2, t);
    assert(sa[0] == ActionView::StartNewFile);
    assert(spec_step(st, t).1 == w1 + fa + sa);
    assert(spec_step(st, t).1[w1.len() + fa.len() as int] == ActionView::StartNewFile);
}

} // verus!
