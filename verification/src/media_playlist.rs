//! A media playlist: the list of the media segments of one rendition.
use vstd::prelude::*;

use crate::error::{debug_quoted, push_debug_quoted, Error};
use crate::line::{items, items_of, line_kind, lines, lines_of, Line, LineView, Tag, TagView};
use crate::media_segment::{MediaSegmentBuilder, keys_view, line, segment_text, segment_version, MediaSegment, SegmentView};
use crate::tags::{DateRangeView, ExtXByteRange, ExtXKey, MapView};
use crate::text::{after_tag, chars_of, dec, strip_tag, equals_chars, push_str, push_string, push_u64, string_of};
use crate::slots::{
    slot_capacity, slot_contents, slot_room_limit, slots_get, slots_insert, slots_is_compact,
    slots_len, slots_new, slots_push, slots_reserve_for, Slots,
};
use crate::tags::{
    ExtXDiscontinuitySequence, ExtXMediaSequence, ExtXStart, ExtXTargetDuration, PlaylistType,
};
use crate::types::{duration_debug, key_text, Duration, ProtocolVersion, EncryptionMethod, InitializationVector, KeyFormat, KeyView};

verus! {

/// The segments of a playlist under construction: a stable vector of slots, each
/// empty or holding the index of its segment in `items`.
pub struct SegmentTable {
    slots: Slots,
    items: Vec<MediaSegment>,
}

/// What the slots `slots` hold, each filled slot taken by the view of its segment in
/// `items`.
pub open spec fn slot_views(slots: Seq<Option<usize>>, items: Seq<MediaSegment>) -> Seq<
    Option<SegmentView>,
> {
    Seq::new(
        slots.len(),
        |k: int|
            match slots[k] {
                Some(i) => Some(items[i as int]@),
                None => None,
            },
    )
}

impl SegmentTable {
    /// The slots, each taken by the segment it holds.
    pub closed spec fn view_slots(self) -> Seq<Option<SegmentView>> {
        slot_views(slot_contents(self.slots), self.items@)
    }

    /// The slots point into the segments, no two at the same one, and the room of the
    /// stable vector is at least its length and at most twice its length.
    pub closed spec fn wf(self) -> bool {
        let c = slot_contents(self.slots);
        &&& forall|k: int| 0 <= k < c.len() && (#[trigger] c[k]) is Some ==> c[k]->0 < self.items@.len()
        &&& forall|j: int, k: int|
            0 <= j < k < c.len() && c[j] is Some && c[k] is Some ==> #[trigger] c[j] != #[trigger] c[k]
        &&& c.len() <= slot_capacity(self.slots) <= 2 * c.len()
    }

    /// An empty table.
    fn new() -> (res: SegmentTable)
        ensures
            res.wf(),
            res.view_slots() == Seq::<Option<SegmentView>>::empty(),
    {
        let t = SegmentTable { slots: slots_new(), items: Vec::new() };
        assert(t.view_slots() =~= Seq::<Option<SegmentView>>::empty());
        t
    }

    /// Fills the slot after the last one with the segment at `j`, which no slot holds.
    fn place_next(&mut self, j: usize)
        requires
            old(self).wf(),
            j < old(self).items@.len(),
            forall|k: int|
                0 <= k < slot_contents(old(self).slots).len() ==> #[trigger] slot_contents(
                    old(self).slots,
                )[k] != Some(j),
            old(self).view_slots().len() + 1 <= slot_room_limit() / 2,
        ensures
            final(self).wf(),
            final(self).items == old(self).items,
            slot_contents(final(self).slots) == slot_contents(old(self).slots).push(Some(j)),
            final(self).view_slots() == old(self).view_slots().push(Some(old(self).items@[j as int]@)),
    {
        let ghost before = self.view_slots();
        let ghost c0 = slot_contents(self.slots);
        slots_push(&mut self.slots, j);
        let ghost c1 = slot_contents(self.slots);
        assert(c1 == c0.push(Some(j)));
        assert(self.view_slots() =~= before.push(Some(self.items@[j as int]@)));
    }

    /// Puts the segment at `j`, which no slot holds, into the slot at `index` (see
    /// [`table_insert`]).
    fn place_at(&mut self, index: usize, j: usize)
        requires
            old(self).wf(),
            j < old(self).items@.len(),
            forall|k: int|
                0 <= k < slot_contents(old(self).slots).len() ==> #[trigger] slot_contents(
                    old(self).slots,
                )[k] != Some(j),
            old(self).view_slots().len() + 1 <= slot_room_limit() / 2,
            index + 1 <= slot_room_limit() / 2,
        ensures
            final(self).wf(),
            final(self).items == old(self).items,
            slot_contents(final(self).slots) == table_insert(
                slot_contents(old(self).slots),
                index as nat,
                j,
            ),
            final(self).view_slots() == table_insert(
                old(self).view_slots(),
                index as nat,
                old(self).items@[j as int]@,
            ),
    {
        let ghost before = self.view_slots();
        let ghost c0 = slot_contents(self.slots);
        let n = slots_len(&self.slots);
        slots_reserve_for(&mut self.slots, index);
        slots_insert(&mut self.slots, index, j);
        let ghost c1 = slot_contents(self.slots);
        proof {
            if index < n {
                assert(c1 == c0.update(index as int, Some(j)));
            } else {
                assert(c1 == c0 + Seq::new((index - c0.len()) as nat, |i: int| None::<usize>).push(
                    Some(j),
                ));
            }
            assert(c1 == table_insert(c0, index as nat, j));
            assert forall|k: int| 0 <= k < c1.len() && (#[trigger] c1[k]) is Some implies c1[k]->0
                < self.items@.len() by {
                if k < c0.len() && k != index {
                    assert(c1[k] == c0[k]);
                }
            }
            assert forall|a: int, b: int|
                0 <= a < b < c1.len() && c1[a] is Some && c1[b] is Some implies #[trigger] c1[a]
                != #[trigger] c1[b] by {
                if a != index && b != index {
                    assert(c1[a] == c0[a]);
                    assert(c1[b] == c0[b]);
                } else if a == index {
                    assert(c1[b] == c0[b]);
                } else {
                    assert(c1[a] == c0[a]);
                }
            }
            assert(self.view_slots() =~= table_insert(before, index as nat, self.items@[j as int]@));
        }
    }

    /// Fills the slot after the last one with `segment`.
    fn push(&mut self, segment: MediaSegment)
        requires
            old(self).wf(),
            old(self).view_slots().len() + 1 <= slot_room_limit() / 2,
        ensures
            final(self).wf(),
            final(self).view_slots() == old(self).view_slots().push(Some(segment@)),
    {
        let ghost before = self.view_slots();
        let ghost c0 = slot_contents(self.slots);
        let idx = self.items.len();
        self.items.push(segment);
        assert(slot_views(c0, self.items@) =~= before);
        self.place_next(idx);
    }

    /// Puts `segment` into the slot at `index` (see [`table_insert`]).
    fn insert(&mut self, index: usize, segment: MediaSegment)
        requires
            old(self).wf(),
            old(self).view_slots().len() + 1 <= slot_room_limit() / 2,
            index + 1 <= slot_room_limit() / 2,
        ensures
            final(self).wf(),
            final(self).view_slots() == table_insert(
                old(self).view_slots(),
                index as nat,
                segment@,
            ),
    {
        let ghost before = self.view_slots();
        let ghost c0 = slot_contents(self.slots);
        let idx = self.items.len();
        self.items.push(segment);
        assert(slot_views(c0, self.items@) =~= before);
        self.place_at(index, idx);
    }
}

/// The slots `t` with `x` put into the slot at `index`: the slot is replaced when it
/// exists, else it is added after empty slots up to it.
pub open spec fn table_insert<T>(t: Seq<Option<T>>, index: nat, x: T) -> Seq<Option<T>> {
    if index < t.len() {
        t.update(index as int, Some(x))
    } else {
        t + Seq::new((index - t.len()) as nat, |i: int| None::<T>).push(Some(x))
    }
}

/// The slots that pushing the segments `vs` gives: those with an explicit number go
/// to the slot of that number first, in order, then the others follow, in order.
pub open spec fn table_of(vs: Seq<SegmentView>) -> Seq<Option<SegmentView>> {
    implicit_fold(vs, explicit_fold(vs, vs.len()), vs.len())
}

/// The slots that the first `k` segments of `vs` with an explicit number fill.
pub open spec fn explicit_fold(vs: Seq<SegmentView>, k: nat) -> Seq<Option<SegmentView>>
    decreases k,
{
    if k == 0 {
        seq![]
    } else {
        let t = explicit_fold(vs, (k - 1) as nat);
        let s = vs[k - 1];
        if s.explicit_number {
            table_insert(t, s.number as nat, s)
        } else {
            t
        }
    }
}

/// The slots `t` followed by the first `k` segments of `vs` without an explicit number.
pub open spec fn implicit_fold(
    vs: Seq<SegmentView>,
    t: Seq<Option<SegmentView>>,
    k: nat,
) -> Seq<Option<SegmentView>>
    decreases k,
{
    if k == 0 {
        t
    } else {
        let r = implicit_fold(vs, t, (k - 1) as nat);
        let s = vs[k - 1];
        if s.explicit_number {
            r
        } else {
            r.push(Some(s))
        }
    }
}

/// The length of the slots that the first `k` segments of `vs` with an explicit
/// number fill is at most `n` when their numbers lie below `n`.
proof fn lemma_explicit_fold_len(vs: Seq<SegmentView>, k: nat, n: nat)
    requires
        k <= vs.len(),
        forall|i: int| 0 <= i < vs.len() && (#[trigger] vs[i]).explicit_number ==> vs[i].number < n,
    ensures
        explicit_fold(vs, k).len() <= n,
    decreases k,
{
    if k > 0 {
        lemma_explicit_fold_len(vs, (k - 1) as nat, n);
    }
}

/// The parts of a media playlist builder; `None` marks a field that was not set.
pub struct PlaylistBuilderView {
    pub target_duration: Option<Duration>,
    pub media_sequence: Option<usize>,
    pub discontinuity_sequence: Option<usize>,
    pub playlist_type: Option<PlaylistType>,
    pub has_i_frames_only: Option<bool>,
    pub has_independent_segments: Option<bool>,
    pub start: Option<ExtXStart>,
    pub has_end_list: Option<bool>,
    pub segments: Option<Seq<Option<SegmentView>>>,
    pub allowable_excess_duration: Option<Duration>,
    pub unknown: Option<Seq<Seq<char>>>,
}

/// The texts `v`, each taken by its characters.
pub open spec fn texts_view(v: Seq<String>) -> Seq<Seq<char>> {
    Seq::new(v.len(), |i: int| v[i]@)
}

/// A builder of a [`MediaPlaylist`]; the target duration and the segments are required.
pub struct MediaPlaylistBuilder {
    target_duration: Option<Duration>,
    media_sequence: Option<usize>,
    discontinuity_sequence: Option<usize>,
    playlist_type: Option<PlaylistType>,
    has_i_frames_only: Option<bool>,
    has_independent_segments: Option<bool>,
    start: Option<ExtXStart>,
    has_end_list: Option<bool>,
    segments: Option<SegmentTable>,
    allowable_excess_duration: Option<Duration>,
    unknown: Option<Vec<String>>,
}

impl View for MediaPlaylistBuilder {
    type V = PlaylistBuilderView;

    closed spec fn view(&self) -> PlaylistBuilderView {
        PlaylistBuilderView {
            target_duration: self.target_duration,
            media_sequence: self.media_sequence,
            discontinuity_sequence: self.discontinuity_sequence,
            playlist_type: self.playlist_type,
            has_i_frames_only: self.has_i_frames_only,
            has_independent_segments: self.has_independent_segments,
            start: self.start,
            has_end_list: self.has_end_list,
            segments: match self.segments {
                Some(t) => Some(t.view_slots()),
                None => None,
            },
            allowable_excess_duration: self.allowable_excess_duration,
            unknown: match self.unknown {
                Some(u) => Some(texts_view(u@)),
                None => None,
            },
        }
    }
}

impl MediaPlaylistBuilder {
    /// The segments of the builder are well formed (every builder that this library
    /// hands out is).
    pub closed spec fn wf(&self) -> bool {
        match self.segments {
            Some(t) => t.wf(),
            None => true,
        }
    }

    /// The view of a builder with no field set.
    pub open spec fn new_view() -> PlaylistBuilderView {
        PlaylistBuilderView {
            target_duration: None,
            media_sequence: None,
            discontinuity_sequence: None,
            playlist_type: None,
            has_i_frames_only: None,
            has_independent_segments: None,
            start: None,
            has_end_list: None,
            segments: None,
            allowable_excess_duration: None,
            unknown: None,
        }
    }

    /// A builder with no field set.
    pub fn new() -> (res: MediaPlaylistBuilder)
        ensures
            res.wf(),
            res@ == (PlaylistBuilderView {
                target_duration: None,
                media_sequence: None,
                discontinuity_sequence: None,
                playlist_type: None,
                has_i_frames_only: None,
                has_independent_segments: None,
                start: None,
                has_end_list: None,
                segments: None,
                allowable_excess_duration: None,
                unknown: None,
            }),
    {
        MediaPlaylistBuilder {
            target_duration: None,
            media_sequence: None,
            discontinuity_sequence: None,
            playlist_type: None,
            has_i_frames_only: None,
            has_independent_segments: None,
            start: None,
            has_end_list: None,
            segments: None,
            allowable_excess_duration: None,
            unknown: None,
        }
    }

    /// Sets the target duration: the longest duration of a segment.
    pub fn target_duration(self, value: Duration) -> (res: MediaPlaylistBuilder)
        ensures
            self.wf() ==> res.wf(),
            res@ == (PlaylistBuilderView { target_duration: Some(value), ..self@ }),
    {
        MediaPlaylistBuilder { target_duration: Some(value), ..self }
    }

    /// Sets the number of the first segment.
    pub fn media_sequence(self, value: usize) -> (res: MediaPlaylistBuilder)
        ensures
            self.wf() ==> res.wf(),
            res@ == (PlaylistBuilderView { media_sequence: Some(value), ..self@ }),
    {
        MediaPlaylistBuilder { media_sequence: Some(value), ..self }
    }

    /// Sets the discontinuity sequence number.
    pub fn discontinuity_sequence(self, value: usize) -> (res: MediaPlaylistBuilder)
        ensures
            self.wf() ==> res.wf(),
            res@ == (PlaylistBuilderView { discontinuity_sequence: Some(value), ..self@ }),
    {
        MediaPlaylistBuilder { discontinuity_sequence: Some(value), ..self }
    }

    /// Sets the type of the playlist.
    pub fn playlist_type(self, value: PlaylistType) -> (res: MediaPlaylistBuilder)
        ensures
            self.wf() ==> res.wf(),
            res@ == (PlaylistBuilderView { playlist_type: Some(value), ..self@ }),
    {
        MediaPlaylistBuilder { playlist_type: Some(value), ..self }
    }

    /// Sets whether each segment holds a single I-frame.
    pub fn has_i_frames_only(self, value: bool) -> (res: MediaPlaylistBuilder)
        ensures
            self.wf() ==> res.wf(),
            res@ == (PlaylistBuilderView { has_i_frames_only: Some(value), ..self@ }),
    {
        MediaPlaylistBuilder { has_i_frames_only: Some(value), ..self }
    }

    /// Sets whether each segment can be decoded on its own.
    pub fn has_independent_segments(self, value: bool) -> (res: MediaPlaylistBuilder)
        ensures
            self.wf() ==> res.wf(),
            res@ == (PlaylistBuilderView { has_independent_segments: Some(value), ..self@ }),
    {
        MediaPlaylistBuilder { has_independent_segments: Some(value), ..self }
    }

    /// Sets the preferred point to start playing.
    pub fn start(self, value: ExtXStart) -> (res: MediaPlaylistBuilder)
        ensures
            self.wf() ==> res.wf(),
            res@ == (PlaylistBuilderView { start: Some(value), ..self@ }),
    {
        MediaPlaylistBuilder { start: Some(value), ..self }
    }

    /// Sets whether no more segments will be added.
    pub fn has_end_list(self, value: bool) -> (res: MediaPlaylistBuilder)
        ensures
            self.wf() ==> res.wf(),
            res@ == (PlaylistBuilderView { has_end_list: Some(value), ..self@ }),
    {
        MediaPlaylistBuilder { has_end_list: Some(value), ..self }
    }

    /// Sets how much longer than the target duration a segment may be.
    pub fn allowable_excess_duration(self, value: Duration) -> (res: MediaPlaylistBuilder)
        ensures
            self.wf() ==> res.wf(),
            res@ == (PlaylistBuilderView { allowable_excess_duration: Some(value), ..self@ }),
    {
        MediaPlaylistBuilder { allowable_excess_duration: Some(value), ..self }
    }

    /// Sets the lines of the tags that are not known.
    pub fn unknown(self, value: Vec<String>) -> (res: MediaPlaylistBuilder)
        ensures
            self.wf() ==> res.wf(),
            res@ == (PlaylistBuilderView { unknown: Some(texts_view(value@)), ..self@ }),
    {
        MediaPlaylistBuilder { unknown: Some(value), ..self }
    }

    /// Adds a segment: one with an explicit number goes to the slot of its number
    /// (replacing what was there), another to the slot after the last one.
    pub fn push_segment(self, segment: MediaSegment) -> (res: MediaPlaylistBuilder)
        requires
            self.wf(),
            match self@.segments {
                Some(t) => t.len(),
                None => 0,
            } + 1 <= slot_room_limit() / 2,
            segment.explicit_number ==> segment.number + 1 <= slot_room_limit() / 2,
        ensures
            res.wf(),
            res@ == (PlaylistBuilderView {
                segments: Some(
                    {
                        let t = match self@.segments {
                            Some(t) => t,
                            None => Seq::empty(),
                        };
                        if segment@.explicit_number {
                            table_insert(t, segment@.number as nat, segment@)
                        } else {
                            t.push(Some(segment@))
                        }
                    },
                ),
                ..self@
            }),
    {
        let mut table = match self.segments {
            Some(t) => t,
            None => SegmentTable::new(),
        };
        if segment.explicit_number {
            let n = segment.number;
            table.insert(n, segment);
        } else {
            table.push(segment);
        }
        MediaPlaylistBuilder { segments: Some(table), ..self }
    }

    /// Sets the segments: those with an explicit number go to the slot of their number
    /// first, then the others follow in order (see [`table_of`]).
    pub fn segments(self, segments: Vec<MediaSegment>) -> (res: MediaPlaylistBuilder)
        requires
            segments@.len() < slot_room_limit() / 4,
            forall|i: int|
                0 <= i < segments@.len() && (#[trigger] segments@[i]).explicit_number
                    ==> segments@[i].number < segments@.len(),
        ensures
            res.wf(),
            res@ == (PlaylistBuilderView {
                segments: Some(table_of(Seq::new(segments@.len(), |i: int| segments@[i]@))),
                ..self@
            }),
    {
        let ghost vs = Seq::new(segments@.len(), |i: int| segments@[i]@);
        let n = segments.len();
        let mut table = SegmentTable { slots: slots_new(), items: segments };
        assert(table.view_slots() =~= Seq::<Option<SegmentView>>::empty());
        let mut j: usize = 0;
        while j < n
            invariant
                n == table.items@.len(),
                n == vs.len(),
                n < slot_room_limit() / 4,
                vs == Seq::new(table.items@.len(), |i: int| table.items@[i]@),
                forall|i: int|
                    0 <= i < vs.len() && (#[trigger] vs[i]).explicit_number ==> vs[i].number < n,
                j <= n,
                table.wf(),
                table.view_slots() == explicit_fold(vs, j as nat),
                forall|k: int|
                    0 <= k < slot_contents(table.slots).len() && (#[trigger] slot_contents(
                        table.slots,
                    )[k]) is Some ==> slot_contents(table.slots)[k]->0 < j && vs[slot_contents(
                        table.slots,
                    )[k]->0 as int].explicit_number,
            decreases n - j,
        {
            proof {
                lemma_explicit_fold_len(vs, j as nat, n as nat);
            }
            if table.items[j].explicit_number {
                let num = table.items[j].number;
                assert(vs[j as int].explicit_number);
                table.place_at(num, j);
            }
            j = j + 1;
        }
        proof {
            lemma_explicit_fold_len(vs, n as nat, n as nat);
        }
        j = 0;
        while j < n
            invariant
                n == table.items@.len(),
                n == vs.len(),
                n < slot_room_limit() / 4,
                vs == Seq::new(table.items@.len(), |i: int| table.items@[i]@),
                j <= n,
                table.wf(),
                explicit_fold(vs, n as nat).len() <= n,
                table.view_slots() == implicit_fold(vs, explicit_fold(vs, n as nat), j as nat),
                table.view_slots().len() <= explicit_fold(vs, n as nat).len() + j,
                forall|k: int|
                    0 <= k < slot_contents(table.slots).len() && (#[trigger] slot_contents(
                        table.slots,
                    )[k]) is Some ==> (vs[slot_contents(table.slots)[k]->0 as int].explicit_number
                        || slot_contents(table.slots)[k]->0 < j),
            decreases n - j,
        {
            if !table.items[j].explicit_number {
                table.place_next(j);
            }
            j = j + 1;
        }
        MediaPlaylistBuilder { segments: Some(table), ..self }
    }
}

/// The keys of the filled slots of `t`, in order.
pub open spec fn slot_keys(t: Seq<Option<SegmentView>>) -> Seq<Option<KeyView>>
    decreases t.len(),
{
    if t.len() == 0 {
        seq![]
    } else {
        slot_keys(t.drop_last()) + match t.last() {
            Some(s) => s.keys,
            None => seq![],
        }
    }
}

/// Whether `k` is a key with the method AES-128.
pub open spec fn is_aes128(k: Option<KeyView>) -> bool {
    k matches Some(kv) && kv.method == EncryptionMethod::Aes128
}

/// Independent segments where one is encrypted with AES-128 must all be.
pub open spec fn independent_failure(independent: Option<bool>, t: Seq<Option<SegmentView>>) -> bool {
    let ks = slot_keys(t);
    &&& independent == Some(true)
    &&& exists|i: int| 0 <= i < ks.len() && #[trigger] is_aes128(ks[i])
    &&& !(forall|i: int| 0 <= i < ks.len() ==> #[trigger] is_aes128(ks[i]))
}

/// Why the segments of a playlist were refused.
pub enum SegmentFailure {
    /// Independent segments are encrypted with AES-128 only in part.
    Independent,
    /// A segment of the duration `actual` and the resource `uri` lasts longer than
    /// the target duration and the allowed excess.
    TooLong { actual: Duration, uri: Seq<char> },
    /// A byte range without a start does not follow a byte range of the same resource.
    RangeUri,
}

/// The check of the first `k` slots of `t`, segment by segment, against the longest
/// duration `max` (in nanoseconds) and for byte ranges: the first failure, and the
/// resource of the last byte range with a start, as long as byte ranges follow it.
pub open spec fn segment_scan(t: Seq<Option<SegmentView>>, k: nat, max: nat) -> (
    Option<SegmentFailure>,
    Option<Seq<char>>,
)
    decreases k,
{
    if k == 0 {
        (None, None)
    } else {
        let (f, last) = segment_scan(t, (k - 1) as nat, max);
        if f is Some {
            (f, last)
        } else {
            match t[k - 1] {
                None => (None, last),
                Some(s) => if s.duration.0.total_nanos() > max {
                    (Some(SegmentFailure::TooLong { actual: s.duration.0, uri: s.uri }), last)
                } else {
                    match s.byte_range {
                        Some(r) => if r.0 is None {
                            if last == Some(s.uri) {
                                (None, last)
                            } else {
                                (Some(SegmentFailure::RangeUri), last)
                            }
                        } else {
                            (None, Some(s.uri))
                        },
                        None => (None, None),
                    }
                },
            }
        }
    }
}

/// The longest duration (in nanoseconds) that a segment may last: the target duration
/// and the allowed excess.
pub open spec fn max_nanos(target: Duration, excess: Option<Duration>) -> nat {
    target.total_nanos() + match excess {
        Some(e) => e.total_nanos(),
        None => 0,
    }
}

/// Whether one of the slots `t` holds a segment.
pub open spec fn has_segment(t: Seq<Option<SegmentView>>) -> bool {
    exists|i: int| 0 <= i < t.len() && #[trigger] t[i] is Some
}

/// The target duration and the allowed excess of `b` add up within 64 bits of seconds
/// wherever a segment is checked against them: when there is a target duration, an
/// excess and a segment, and the independent segments pass their check.
pub open spec fn excess_fits(b: PlaylistBuilderView) -> bool {
    let t = match b.segments {
        Some(x) => x,
        None => seq![],
    };
    b.target_duration matches Some(d) ==> (b.allowable_excess_duration matches Some(e) ==> (
    has_segment(t) && !independent_failure(b.has_independent_segments, t) ==> d.secs()
        + e.secs() + (d.nanos() + e.nanos()) / 1_000_000_000 <= u64::MAX))
}

/// Slots without a segment pass the check of every duration.
proof fn lemma_scan_no_segment(t: Seq<Option<SegmentView>>, k: nat, max: nat)
    requires
        k <= t.len(),
        forall|i: int| 0 <= i < k ==> !(#[trigger] t[i] is Some),
    ensures
        segment_scan(t, k, max) == (None::<SegmentFailure>, None::<Seq<char>>),
    decreases k,
{
    if k > 0 {
        lemma_scan_no_segment(t, (k - 1) as nat, max);
        assert(!(t[k - 1] is Some));
    }
}

/// The first failure of the segments `t` of a builder with the target duration
/// `target`: the encryption of independent segments, then each segment in turn.
pub open spec fn validation(
    independent: Option<bool>,
    t: Seq<Option<SegmentView>>,
    target: Duration,
    excess: Option<Duration>,
) -> Option<SegmentFailure> {
    if independent_failure(independent, t) {
        Some(SegmentFailure::Independent)
    } else {
        segment_scan(t, t.len(), max_nanos(target, excess)).0
    }
}

/// The index of the first filled slot of `t`, if any.
pub open spec fn first_filled(t: Seq<Option<SegmentView>>) -> Option<int> {
    if exists|k: int| 0 <= k < t.len() && (#[trigger] t[k]) is Some {
        Some(choose|k: int| 0 <= k < t.len() && (#[trigger] t[k]) is Some && forall|j: int| 0 <= j < k ==> t[j] is None)
    } else {
        None
    }
}

/// Whether every slot of `t` is filled.
pub open spec fn all_filled(t: Seq<Option<SegmentView>>) -> bool {
    forall|k: int| 0 <= k < t.len() ==> (#[trigger] t[k]) is Some
}

/// Whether the first segment of the slots `t` has an explicit number below `seq_num`.
pub open spec fn before_sequence(t: Seq<Option<SegmentView>>, seq_num: usize) -> bool {
    match first_filled(t) {
        Some(k) => seq_num > t[k]->0.number && t[k]->0.explicit_number,
        None => false,
    }
}

/// Why a builder could not build a playlist.
pub enum BuildFailure {
    /// The segments were refused.
    Segments(SegmentFailure),
    /// No segments were given.
    NoSegments,
    /// The first segment has an explicit number below the media sequence number.
    BeforeSequence,
    /// A slot below the last segment is empty.
    Missing,
    /// No target duration was given.
    NoTarget,
}

/// The first reason, if any, why the builder `b` cannot build a playlist.
pub open spec fn build_failure(b: PlaylistBuilderView) -> Option<BuildFailure> {
    let t = match b.segments {
        Some(t) => t,
        None => seq![],
    };
    let seq_num = match b.media_sequence {
        Some(n) => n,
        None => 0,
    };
    if b.target_duration is Some && validation(
        b.has_independent_segments,
        t,
        b.target_duration->0,
        b.allowable_excess_duration,
    ) is Some {
        Some(BuildFailure::Segments(
            validation(b.has_independent_segments, t, b.target_duration->0, b.allowable_excess_duration)->0,
        ))
    } else if b.segments is None {
        Some(BuildFailure::NoSegments)
    } else if before_sequence(t, seq_num) {
        Some(BuildFailure::BeforeSequence)
    } else if !all_filled(t) {
        Some(BuildFailure::Missing)
    } else if b.target_duration is None {
        Some(BuildFailure::NoTarget)
    } else {
        None
    }
}

/// The key `k` of a segment numbered `n`: an AES-128 key without an initialization
/// vector gets the number as its vector.
pub open spec fn numbered_key(k: Option<KeyView>, n: usize) -> Option<KeyView> {
    match k {
        Some(kv) => if kv.method == EncryptionMethod::Aes128 && kv.iv is Missing {
            Some(KeyView { iv: InitializationVector::Number(n as u128), ..kv })
        } else {
            k
        },
        None => None,
    }
}

/// The byte range `r` of a segment after the byte range `prev` (the last one before
/// it): a range without a start starts where `prev` ends (and is moved by as much), or
/// at 0 when there is none before it.
pub open spec fn placed_range(
    r: (Option<usize>, usize),
    prev: Option<(Option<usize>, usize)>,
) -> (Option<usize>, usize) {
    if r.0 is None {
        match prev {
            Some(p) => (
                Some(p.1),
                if r.1 + p.1 <= usize::MAX {
                    (r.1 + p.1) as usize
                } else {
                    usize::MAX
                },
            ),
            None => (Some(0usize), r.1),
        }
    } else {
        r
    }
}

/// The last byte range, once placed, among the first `k` slots of `t`.
pub open spec fn last_range(t: Seq<Option<SegmentView>>, k: nat) -> Option<(Option<usize>, usize)>
    decreases k,
{
    if k == 0 {
        None
    } else {
        let p = last_range(t, (k - 1) as nat);
        match t[k - 1] {
            Some(s) => match s.byte_range {
                Some(r) => Some(placed_range(r, p)),
                None => p,
            },
            None => p,
        }
    }
}

/// The segment `s` in the slot `k` of the slots `t` of a playlist whose first segment
/// is numbered `seq_num`: numbered by its slot unless its number is explicit, its keys
/// given their vectors and its byte range placed.
pub open spec fn numbered_segment(
    t: Seq<Option<SegmentView>>,
    k: int,
    s: SegmentView,
    seq_num: usize,
) -> SegmentView {
    let n = if s.explicit_number {
        s.number
    } else {
        (k + seq_num) as usize
    };
    SegmentView {
        number: n,
        keys: Seq::new(s.keys.len(), |i: int| numbered_key(s.keys[i], n)),
        byte_range: match s.byte_range {
            Some(r) => Some(placed_range(r, last_range(t, k as nat))),
            None => None,
        },
        ..s
    }
}

/// The segments of a playlist built from the filled slots `t`.
pub open spec fn built_segments(t: Seq<Option<SegmentView>>, seq_num: usize) -> Seq<SegmentView> {
    Seq::new(t.len(), |k: int| numbered_segment(t, k, t[k]->0, seq_num))
}

/// The parts of a media playlist, with its text fields taken by their characters.
pub struct MediaPlaylistView {
    pub target_duration: Duration,
    pub media_sequence: usize,
    pub discontinuity_sequence: usize,
    pub playlist_type: Option<PlaylistType>,
    pub has_i_frames_only: bool,
    pub has_independent_segments: bool,
    pub start: Option<ExtXStart>,
    pub has_end_list: bool,
    pub segments: Seq<SegmentView>,
    pub allowable_excess_duration: Duration,
    pub unknown: Seq<Seq<char>>,
}

/// The playlist that the builder `b` builds, when it builds one.
pub open spec fn built_playlist(b: PlaylistBuilderView) -> MediaPlaylistView {
    let seq_num = match b.media_sequence {
        Some(n) => n,
        None => 0,
    };
    MediaPlaylistView {
        target_duration: b.target_duration->0,
        media_sequence: seq_num,
        discontinuity_sequence: match b.discontinuity_sequence {
            Some(n) => n,
            None => 0,
        },
        playlist_type: b.playlist_type,
        has_i_frames_only: b.has_i_frames_only == Some(true),
        has_independent_segments: b.has_independent_segments == Some(true),
        start: b.start,
        has_end_list: b.has_end_list == Some(true),
        segments: built_segments(b.segments->0, seq_num),
        allowable_excess_duration: match b.allowable_excess_duration {
            Some(e) => e,
            None => Duration::spec_new(0, 0),
        },
        unknown: match b.unknown {
            Some(u) => u,
            None => seq![],
        },
    }
}

/// A media playlist: the segments of one rendition and the tags that apply to them.
#[derive(Debug, Clone, PartialEq, Eq)]
pub struct MediaPlaylist {
    /// The longest duration of a segment.
    pub target_duration: Duration,
    /// The number of the first segment.
    pub media_sequence: usize,
    /// The discontinuity sequence number of the first segment.
    pub discontinuity_sequence: usize,
    /// Whether the playlist may change, and how.
    pub playlist_type: Option<PlaylistType>,
    /// Whether each segment holds a single I-frame.
    pub has_i_frames_only: bool,
    /// Whether each segment can be decoded on its own.
    pub has_independent_segments: bool,
    /// The preferred point to start playing.
    pub start: Option<ExtXStart>,
    /// Whether no more segments will be added.
    pub has_end_list: bool,
    /// The segments, in order.
    pub segments: Vec<MediaSegment>,
    /// How much longer than the target duration a segment may be.
    pub allowable_excess_duration: Duration,
    /// The lines of the tags that are not known.
    pub unknown: Vec<String>,
}

impl View for MediaPlaylist {
    type V = MediaPlaylistView;

    open spec fn view(&self) -> MediaPlaylistView {
        MediaPlaylistView {
            target_duration: self.target_duration,
            media_sequence: self.media_sequence,
            discontinuity_sequence: self.discontinuity_sequence,
            playlist_type: self.playlist_type,
            has_i_frames_only: self.has_i_frames_only,
            has_independent_segments: self.has_independent_segments,
            start: self.start,
            has_end_list: self.has_end_list,
            segments: Seq::new(self.segments@.len(), |i: int| self.segments@[i]@),
            allowable_excess_duration: self.allowable_excess_duration,
            unknown: texts_view(self.unknown@),
        }
    }
}

/// Whether one of the keys `ks` is an AES-128 key.
pub open spec fn any_aes128(ks: Seq<Option<KeyView>>) -> bool {
    exists|i: int| 0 <= i < ks.len() && #[trigger] is_aes128(ks[i])
}

/// Whether all the keys `ks` are AES-128 keys.
pub open spec fn all_aes128(ks: Seq<Option<KeyView>>) -> bool {
    forall|i: int| 0 <= i < ks.len() ==> #[trigger] is_aes128(ks[i])
}

/// Whether the tag `k` holds an AES-128 key.
fn key_is_aes128(k: &ExtXKey) -> (res: bool)
    ensures
        res == is_aes128(k@),
{
    match &k.0 {
        Some(dk) => match dk.method {
            EncryptionMethod::Aes128 => true,
            _ => false,
        },
        None => false,
    }
}

impl SegmentTable {
    /// The filled slot `k` holds the segment at `i`.
    proof fn lemma_slot(self, k: int)
        requires
            self.wf(),
            0 <= k < slot_contents(self.slots).len(),
            slot_contents(self.slots)[k] is Some,
        ensures
            slot_contents(self.slots)[k]->0 < self.items@.len(),
            self.view_slots()[k] == Some(self.items@[slot_contents(self.slots)[k]->0 as int]@),
    {
    }

    /// The length of the slots.
    proof fn lemma_len(self)
        ensures
            self.view_slots().len() == slot_contents(self.slots).len(),
    {
    }

    /// Whether any key, and whether every key, of the filled slots is an AES-128 key.
    fn aes128_keys(&self) -> (res: (bool, bool))
        requires
            self.wf(),
        ensures
            res.0 == any_aes128(slot_keys(self.view_slots())),
            res.1 == all_aes128(slot_keys(self.view_slots())),
    {
        let ghost t = self.view_slots();
        let n = slots_len(&self.slots);
        proof {
            self.lemma_len();
        }
        let mut any = false;
        let mut all = true;
        let mut k: usize = 0;
        while k < n
            invariant
                self.wf(),
                t == self.view_slots(),
                n == t.len(),
                k <= n,
                any == any_aes128(slot_keys(t.take(k as int))),
                all == all_aes128(slot_keys(t.take(k as int))),
            decreases n - k,
        {
            let ghost pre = slot_keys(t.take(k as int));
            assert(t.take(k + 1).drop_last() == t.take(k as int));
            assert(t.take(k + 1).last() == t[k as int]);
            match slots_get(&self.slots, k) {
                Some(idx) => {
                    proof {
                        self.lemma_slot(k as int);
                    }
                    let seg = &self.items[idx];
                    let ghost ks = seg@.keys;
                    assert(slot_keys(t.take(k + 1)) == pre + ks);
                    let mut i: usize = 0;
                    while i < seg.keys.len()
                        invariant
                            ks == seg@.keys,
                            ks.len() == seg.keys@.len(),
                            i <= ks.len(),
                            any == any_aes128(pre + ks.take(i as int)),
                            all == all_aes128(pre + ks.take(i as int)),
                        decreases ks.len() - i,
                    {
                        let a = key_is_aes128(&seg.keys[i]);
                        let ghost p0 = pre + ks.take(i as int);
                        let ghost p1 = pre + ks.take(i + 1);
                        assert(p1 == p0.push(ks[i as int]));
                        assert(ks[i as int] == seg.keys@[i as int]@);
                        proof {
                            if any_aes128(p0) {
                                let w = choose|j: int| 0 <= j < p0.len() && #[trigger] is_aes128(p0[j]);
                                assert(p1[w] == p0[w]);
                            }
                            if any_aes128(p1) && !a {
                                let w = choose|j: int| 0 <= j < p1.len() && #[trigger] is_aes128(p1[j]);
                                assert(w < p0.len());
                                assert(p1[w] == p0[w]);
                            }
                            if all_aes128(p1) {
                                assert forall|j: int| 0 <= j < p0.len() implies #[trigger] is_aes128(p0[j]) by {
                                    assert(p1[j] == p0[j]);
                                }
                            }
                            if all && a {
                                assert forall|j: int| 0 <= j < p1.len() implies #[trigger] is_aes128(p1[j]) by {
                                    if j < p0.len() {
                                        assert(p1[j] == p0[j]);
                                    }
                                }
                            }
                            if !a {
                                assert(!is_aes128(p1[p0.len() as int]));
                            }
                            if a {
                                assert(is_aes128(p1[p0.len() as int]));
                            }
                        }
                        any = any || a;
                        all = all && a;
                        i = i + 1;
                    }
                    assert(ks.take(i as int) == ks);
                },
                None => {
                    assert(t[k as int] is None);
                    assert(slot_keys(t.take(k + 1)) == pre + Seq::<Option<KeyView>>::empty());
                    assert(pre + Seq::<Option<KeyView>>::empty() == pre);
                },
            }
            k = k + 1;
        }
        assert(t.take(n as int) == t);
        (any, all)
    }
}

/// Once the check of the first `j` slots failed, the check of more slots fails the
/// same way.
proof fn lemma_scan_persists(t: Seq<Option<SegmentView>>, j: nat, k: nat, max: nat)
    requires
        j <= k,
        segment_scan(t, j, max).0 is Some,
    ensures
        segment_scan(t, k, max).0 == segment_scan(t, j, max).0,
    decreases k - j,
{
    if j < k {
        lemma_scan_persists(t, j, (k - 1) as nat, max);
    }
}

/// The check of the segments never fails for the encryption of independent segments.
proof fn lemma_scan_not_independent(t: Seq<Option<SegmentView>>, k: nat, max: nat)
    ensures
        !(segment_scan(t, k, max).0 matches Some(SegmentFailure::Independent)),
    decreases k,
{
    if k > 0 {
        lemma_scan_not_independent(t, (k - 1) as nat, max);
    }
}

/// Whether two texts are the same.
fn same_text(a: &String, b: &String) -> (res: bool)
    ensures
        res == (a@ == b@),
{
    equals_chars(&chars_of(a.as_str()), &chars_of(b.as_str()))
}

/// The message for a segment of `actual` nanoseconds and the resource `uri` that
/// lasts longer than `max` nanoseconds, where the target duration is `target`
/// nanoseconds.
pub open spec fn too_long_text(actual: nat, max: nat, target: nat, uri: Seq<char>) -> Seq<char> {
    "Too large segment duration: actual="@ + duration_debug(actual) + ", max="@ + duration_debug(max)
        + ", target_duration="@ + duration_debug(target) + ", uri="@ + debug_quoted(uri)
}

/// The message for a segment `uri` of the duration `actual` that lasts longer than
/// `max`, where the target duration is `target` (see [`too_long_text`]).
fn too_long_message(actual: Duration, max: Duration, target: Duration, uri: &String) -> (res: String)
    ensures
        res@ == too_long_text(actual.total_nanos(), max.total_nanos(), target.total_nanos(), uri@),
{
    let mut out: Vec<char> = Vec::new();
    push_str(&mut out, "Too large segment duration: actual=");
    actual.write_debug(&mut out);
    push_str(&mut out, ", max=");
    max.write_debug(&mut out);
    push_str(&mut out, ", target_duration=");
    target.write_debug(&mut out);
    push_str(&mut out, ", uri=");
    push_debug_quoted(&mut out, uri);
    string_of(&out)
}

impl SegmentTable {
    /// Checks the segments in turn (see [`segment_scan`]) against the longest duration
    /// `max`; `target` is the target duration, for the message.
    fn scan_segments(&self, target: Duration, max: Duration) -> (res: Result<(), String>)
        requires
            self.wf(),
        ensures
            res is Ok <==> segment_scan(
                self.view_slots(),
                self.view_slots().len(),
                max.total_nanos(),
            ).0 is None,
            segment_scan(self.view_slots(), self.view_slots().len(), max.total_nanos()).0 matches Some(
                SegmentFailure::RangeUri,
            ) ==> (res matches Err(m) && m@ == "invalid input"@),
            segment_scan(self.view_slots(), self.view_slots().len(), max.total_nanos()).0 matches Some(
                SegmentFailure::TooLong { actual, uri },
            ) ==> (res matches Err(m) && m@ == too_long_text(
                actual.total_nanos(),
                max.total_nanos(),
                target.total_nanos(),
                uri,
            )),
    {
        let ghost t = self.view_slots();
        let ghost m = max.total_nanos();
        let n = slots_len(&self.slots);
        proof {
            self.lemma_len();
        }
        let mut last: Option<usize> = None;
        let mut k: usize = 0;
        while k < n
            invariant
                self.wf(),
                t == self.view_slots(),
                m == max.total_nanos(),
                n == t.len(),
                k <= n,
                last matches Some(li) ==> li < self.items@.len(),
                segment_scan(t, k as nat, m) == (None::<SegmentFailure>, match last {
                    Some(li) => Some(self.items@[li as int]@.uri),
                    None => None,
                }),
            decreases n - k,
        {
            match slots_get(&self.slots, k) {
                Some(idx) => {
                    proof {
                        self.lemma_slot(k as int);
                    }
                    let seg = &self.items[idx];
                    let d = seg.duration.duration();
                    if d.is_longer_than(&max) {
                        proof {
                            lemma_scan_persists(t, (k + 1) as nat, t.len(), m);
                        }
                        return Err(too_long_message(d, max, target, &seg.uri));
                    }
                    match &seg.byte_range {
                        Some(br) => {
                            if br.0.start().is_none() {
                                let same = match last {
                                    Some(li) => same_text(&self.items[li].uri, &seg.uri),
                                    None => false,
                                };
                                if !same {
                                    proof {
                                        lemma_scan_persists(t, (k + 1) as nat, t.len(), m);
                                    }
                                    return Err(String::from_str("invalid input"));
                                }
                            } else {
                                last = Some(idx);
                            }
                        },
                        None => {
                            last = None;
                        },
                    }
                },
                None => {},
            }
            k = k + 1;
        }
        Ok(())
    }
}

/// The keys `keys` of a segment numbered `n` (see [`numbered_key`]).
fn numbered_keys(keys: &Vec<ExtXKey>, n: usize) -> (res: Vec<ExtXKey>)
    ensures
        keys_view(res@) == Seq::new(keys@.len(), |i: int| numbered_key(keys_view(keys@)[i], n)),
{
    let mut res: Vec<ExtXKey> = Vec::new();
    let mut i: usize = 0;
    while i < keys.len()
        invariant
            i <= keys@.len(),
            res@.len() == i,
            forall|j: int| 0 <= j < i ==> (#[trigger] res@[j])@ == numbered_key(keys@[j]@, n),
        decreases keys@.len() - i,
    {
        let k = match &keys[i].0 {
            Some(dk) => {
                let missing = match dk.iv {
                    InitializationVector::Missing => true,
                    _ => false,
                };
                let aes = match dk.method {
                    EncryptionMethod::Aes128 => true,
                    _ => false,
                };
                if aes && missing {
                    let mut c = dk.copy();
                    c.iv = InitializationVector::Number(n as u128);
                    ExtXKey(Some(c))
                } else {
                    keys[i].copy()
                }
            },
            None => ExtXKey(None),
        };
        res.push(k);
        i = i + 1;
    }
    assert(keys_view(res@) =~= Seq::new(keys@.len(), |i: int| numbered_key(keys_view(keys@)[i], n)));
    res
}

/// The byte range `r` placed after `prev` (see [`placed_range`]).
fn place_range(r: ExtXByteRange, prev: Option<ExtXByteRange>) -> (res: ExtXByteRange)
    ensures
        res.0@ == placed_range(
            r.0@,
            match prev {
                Some(p) => Some(p.0@),
                None => None,
            },
        ),
{
    if r.0.start().is_none() {
        match prev {
            Some(p) => {
                let e = p.0.end();
                let mut x = r.saturating_add(e);
                x.0.set_start(Some(e));
                x
            },
            None => {
                let mut x = r;
                x.0.set_start(Some(0));
                x
            },
        }
    } else {
        r
    }
}

/// The items of `v`, each wrapped in `Some`.
fn into_options(v: Vec<MediaSegment>) -> (res: Vec<Option<MediaSegment>>)
    ensures
        res@.len() == v@.len(),
        forall|i: int| 0 <= i < v@.len() ==> #[trigger] res@[i] == Some(v@[i]),
{
    let ghost orig = v@;
    let mut v = v;
    let mut res: Vec<Option<MediaSegment>> = Vec::new();
    let mut i: usize = 0;
    while i < v.len()
        invariant
            v@ == orig,
            i <= v@.len(),
            res@.len() == i,
            forall|j: int| 0 <= j < i ==> #[trigger] res@[j] is None,
        decreases v@.len() - i,
    {
        res.push(None);
        i = i + 1;
    }
    while v.len() > 0
        invariant
            res@.len() == orig.len(),
            v@.len() <= orig.len(),
            v@ == orig.take(v@.len() as int),
            forall|j: int| 0 <= j < v@.len() ==> #[trigger] res@[j] is None,
            forall|j: int| v@.len() <= j < orig.len() ==> #[trigger] res@[j] == Some(orig[j]),
        decreases v@.len(),
    {
        let x = v.pop().unwrap();
        let idx = v.len();
        res.set(idx, Some(x));
    }
    res
}

/// Whether the segments in the slots `t` without an explicit number can be numbered
/// by their slot from `seq_num` on.
pub open spec fn numbering_fits(t: Seq<Option<SegmentView>>, seq_num: usize) -> bool {
    forall|k: int|
        0 <= k < t.len() && (#[trigger] t[k]) is Some && !t[k]->0.explicit_number ==> k
            + seq_num <= usize::MAX
}

impl SegmentTable {
    /// The segments of the filled slots, in order, numbered and with their keys and
    /// byte ranges completed (see [`built_segments`]).
    fn into_segments(self, seq_num: usize) -> (res: Vec<MediaSegment>)
        requires
            self.wf(),
            forall|k: int| 0 <= k < self.view_slots().len() ==> (#[trigger] self.view_slots()[k]) is Some,
            numbering_fits(self.view_slots(), seq_num),
        ensures
            Seq::new(res@.len(), |i: int| res@[i]@) == built_segments(self.view_slots(), seq_num),
    {
        let ghost t = self.view_slots();
        let ghost c = slot_contents(self.slots);
        let ghost items = self.items@;
        proof {
            self.lemma_len();
        }
        let n = slots_len(&self.slots);
        let slots = self.slots;
        let mut opt = into_options(self.items);
        let mut out: Vec<MediaSegment> = Vec::new();
        let mut prev: Option<ExtXByteRange> = None;
        proof {
            assert forall|j: int| 0 <= j < n implies #[trigger] opt@[c[j]->0 as int] == Some(
                items[c[j]->0 as int],
            ) by {
                assert(t[j] is Some);
                assert(c[j] is Some);
            }
        }
        let mut k: usize = 0;
        while k < n
            invariant
                n == t.len(),
                c == slot_contents(slots),
                c.len() == n,
                t == slot_views(c, items),
                forall|j: int| 0 <= j < n ==> (#[trigger] t[j]) is Some,
                forall|j: int| 0 <= j < n && (#[trigger] c[j]) is Some ==> c[j]->0 < items.len(),
                forall|a: int, b: int|
                    0 <= a < b < n && c[a] is Some && c[b] is Some ==> #[trigger] c[a] != #[trigger] c[b],
                numbering_fits(t, seq_num),
                opt@.len() == items.len(),
                k <= n,
                forall|j: int| k <= j < n ==> #[trigger] opt@[c[j]->0 as int] == Some(items[c[j]->0 as int]),
                out@.len() == k,
                forall|j: int| 0 <= j < k ==> (#[trigger] out@[j])@ == built_segments(t, seq_num)[j],
                match prev {
                    Some(p) => Some(p.0@),
                    None => None,
                } == last_range(t, k as nat),
            decreases n - k,
        {
            assert(t[k as int] is Some);
            assert(c[k as int] is Some);
            let idx = slots_get(&slots, k).unwrap();
            let mut tmp: Option<MediaSegment> = None;
            opt.set_and_swap(idx, &mut tmp);
            let mut seg = tmp.unwrap();
            assert(seg == items[idx as int]);
            assert(t[k as int] == Some(seg@));
            let num = if seg.explicit_number {
                seg.number
            } else {
                k + seq_num
            };
            let keys = numbered_keys(&seg.keys, num);
            seg.keys = keys;
            seg.number = num;
            match seg.byte_range {
                Some(r) => {
                    let placed = place_range(r, prev);
                    seg.byte_range = Some(placed);
                    prev = Some(placed);
                },
                None => {},
            }
            proof {
                assert forall|j: int| k + 1 <= j < n implies #[trigger] opt@[c[j]->0 as int] == Some(
                    items[c[j]->0 as int],
                ) by {
                    assert(t[j] is Some);
                    assert(c[j] is Some);
                    assert(c[j] != c[k as int]);
                }
            }
            assert(seg@ == built_segments(t, seq_num)[k as int]);
            out.push(seg);
            k = k + 1;
        }
        assert(Seq::new(out@.len(), |i: int| out@[i]@) =~= built_segments(t, seq_num));
        out
    }
}

impl SegmentTable {
    /// The index of the first filled slot, if any (see [`first_filled`]).
    fn first_index(&self) -> (res: Option<usize>)
        requires
            self.wf(),
        ensures
            match res {
                Some(k) => first_filled(self.view_slots()) == Some(k as int) && k
                    < self.view_slots().len() && k < slot_contents(self.slots).len()
                    && slot_contents(self.slots)[k as int] is Some,
                None => first_filled(self.view_slots()) is None,
            },
    {
        let ghost t = self.view_slots();
        proof {
            self.lemma_len();
        }
        let n = slots_len(&self.slots);
        let mut k: usize = 0;
        while k < n
            invariant
                self.wf(),
                t == self.view_slots(),
                n == t.len(),
                k <= n,
                forall|j: int| 0 <= j < k ==> (#[trigger] t[j]) is None,
            decreases n - k,
        {
            match slots_get(&self.slots, k) {
                Some(_) => {
                    proof {
                        self.lemma_slot(k as int);
                        assert(t[k as int] is Some);
                        let w = choose|w: int|
                            0 <= w < t.len() && (#[trigger] t[w]) is Some && forall|j: int|
                                0 <= j < w ==> t[j] is None;
                        assert(0 <= w < t.len() && t[w] is Some && forall|j: int|
                            0 <= j < w ==> t[j] is None);
                        if w < k {
                            assert(t[w] is None);
                        }
                        if w > k {
                            assert(t[k as int] is None);
                        }
                    }
                    return Some(k);
                },
                None => {
                    assert(t[k as int] is None);
                },
            }
            k = k + 1;
        }
        None
    }
}

impl SegmentTable {
    /// The check that the first segment, if its number is explicit, is not numbered
    /// below the media sequence number `seq_num`.
    fn check_first(&self, seq_num: usize) -> (res: Result<(), String>)
        requires
            self.wf(),
        ensures
            res is Ok <==> !before_sequence(self.view_slots(), seq_num),
            res matches Err(e) ==> e@ == "there should be no segment ("@ + segment_text(
                self.view_slots()[first_filled(self.view_slots())->0]->0,
            ) + ") before the sequence_number ("@ + dec(seq_num as nat) + ")"@,
    {
        match self.first_index() {
            Some(k) => {
                let idx = slots_get(&self.slots, k).unwrap();
                proof {
                    self.lemma_slot(k as int);
                }
                let seg = &self.items[idx];
                if seq_num > seg.number && seg.explicit_number {
                    let mut out: Vec<char> = Vec::new();
                    push_str(&mut out, "there should be no segment (");
                    seg.write(&mut out);
                    push_str(&mut out, ") before the sequence_number (");
                    push_u64(&mut out, seq_num as u64);
                    push_str(&mut out, ")");
                    return Err(string_of(&out));
                }
                Ok(())
            },
            None => Ok(()),
        }
    }
}

/// The message that a builder fails with, for a reason `f`.
pub open spec fn failure_text(f: BuildFailure, b: PlaylistBuilderView) -> Option<Seq<char>> {
    match f {
        BuildFailure::Segments(SegmentFailure::Independent) => Some(
            "if any independent segment is encrypted with Aes128, all must be encrypted with Aes128"@,
        ),
        BuildFailure::Segments(SegmentFailure::RangeUri) => Some("invalid input"@),
        BuildFailure::Segments(SegmentFailure::TooLong { actual, uri }) => Some(
            too_long_text(
                actual.total_nanos(),
                max_nanos(b.target_duration->0, b.allowable_excess_duration),
                b.target_duration->0.total_nanos(),
                uri,
            ),
        ),
        BuildFailure::NoSegments => Some("missing field `segments`"@),
        BuildFailure::BeforeSequence => Some(
            "there should be no segment ("@ + segment_text(
                b.segments->0[first_filled(b.segments->0)->0]->0,
            ) + ") before the sequence_number ("@ + dec(
                match b.media_sequence {
                    Some(n) => n,
                    None => 0,
                } as nat,
            ) + ")"@,
        ),
        BuildFailure::Missing => Some("a segment is missing"@),
        BuildFailure::NoTarget => Some("missing field `target_duration`"@),
    }
}

impl MediaPlaylistBuilder {
    /// The check of the segments against the target duration, when it is given.
    fn check_segments(&self) -> (res: Result<(), String>)
        requires
            self.wf(),
            excess_fits(self@),
        ensures
            res is Ok <==> !(self@.target_duration is Some && validation(
                self@.has_independent_segments,
                match self@.segments {
                    Some(t) => t,
                    None => seq![],
                },
                self@.target_duration->0,
                self@.allowable_excess_duration,
            ) is Some),
            self@.target_duration is Some ==> (validation(
                self@.has_independent_segments,
                match self@.segments {
                    Some(t) => t,
                    None => seq![],
                },
                self@.target_duration->0,
                self@.allowable_excess_duration,
            ) matches Some(f) ==> (failure_text(BuildFailure::Segments(f), self@) matches Some(m)
                ==> (res matches Err(e) && e@ == m))),
    {
        match self.target_duration {
            Some(target) => {
                match &self.segments {
                    Some(t) => {
                        let independent = match self.has_independent_segments {
                            Some(x) => x,
                            None => false,
                        };
                        if independent {
                            let (any, all) = t.aes128_keys();
                            if any && !all {
                                return Err(
                                    String::from_str(
                                        "if any independent segment is encrypted with Aes128, all must be encrypted with Aes128",
                                    ),
                                );
                            }
                        }
                        let sum = match self.allowable_excess_duration {
                            Some(e) => target.checked_add(&e),
                            None => Some(target),
                        };
                        let max = match sum {
                            Some(m) => m,
                            None => {
                                proof {
                                    let vs = t.view_slots();
                                    assert(!independent_failure(self@.has_independent_segments, vs));
                                    assert(!has_segment(vs));
                                    lemma_scan_no_segment(vs, vs.len(), max_nanos(target, self.allowable_excess_duration));
                                    assert(slot_keys(vs) == slot_keys(vs));
                                }
                                return Ok(());
                            },
                        };
                        assert(max.total_nanos() == max_nanos(target, self.allowable_excess_duration));
                        let r = t.scan_segments(target, max);
                        proof {
                            let vs = t.view_slots();
                            assert(self@.segments == Some(vs));
                            if independent {
                                assert(!independent_failure(self@.has_independent_segments, vs));
                            } else {
                                assert(!independent_failure(self@.has_independent_segments, vs));
                            }
                            assert(validation(self@.has_independent_segments, vs, target, self@.allowable_excess_duration)
                                == segment_scan(vs, vs.len(), max.total_nanos()).0);
                            lemma_scan_not_independent(vs, vs.len(), max.total_nanos());
                            if let Some(SegmentFailure::TooLong { actual, uri }) = segment_scan(
                                vs,
                                vs.len(),
                                max.total_nanos(),
                            ).0 {
                                assert(failure_text(
                                    BuildFailure::Segments(SegmentFailure::TooLong { actual, uri }),
                                    self@,
                                ) == Some(too_long_text(
                                    actual.total_nanos(),
                                    max.total_nanos(),
                                    target.total_nanos(),
                                    uri,
                                )));
                            }
                        }
                        r
                    },
                    None => {
                        assert(slot_keys(seq![]) =~= Seq::<Option<KeyView>>::empty());
                        Ok(())
                    },
                }
            },
            None => Ok(()),
        }
    }

    /// Builds the playlist (see [`build_failure`] and [`built_playlist`]): the segments
    /// are checked against the target duration when it is given, then numbered by
    /// their slot from the media sequence number on (unless their number is explicit),
    /// AES-128 keys without a vector get the number as their vector, and byte ranges
    /// without a start start where the one before ends.
    pub fn build(self) -> (res: Result<MediaPlaylist, String>)
        requires
            self.wf(),
            numbering_fits(
                match self@.segments {
                    Some(t) => t,
                    None => seq![],
                },
                match self@.media_sequence {
                    Some(n) => n,
                    None => 0,
                },
            ),
            excess_fits(self@),
        ensures
            res is Ok <==> build_failure(self@) is None,
            res matches Ok(p) ==> p@ == built_playlist(self@),
            build_failure(self@) matches Some(f) ==> (failure_text(f, self@) matches Some(m) ==> (
            res matches Err(e) && e@ == m)),
    {
        let ghost b = self@;
        let seq_num = match self.media_sequence {
            Some(n) => n,
            None => 0,
        };
        match self.check_segments() {
            Ok(()) => {},
            Err(m) => {
                return Err(m);
            },
        }
        let table = match self.segments {
            Some(t) => t,
            None => {
                return Err(String::from_str("missing field `segments`"));
            },
        };
        let ghost t = table.view_slots();
        match table.check_first(seq_num) {
            Ok(()) => {},
            Err(m) => {
                return Err(m);
            },
        }
        if !slots_is_compact(&table.slots) {
            proof {
                table.lemma_len();
                let k = choose|k: int| 0 <= k < slot_contents(table.slots).len() && !(#[trigger] slot_contents(table.slots)[k] is Some);
                assert(t[k] is None);
                assert(b.segments == Some(t));
                assert(!all_filled(t));
            }
            return Err(String::from_str("a segment is missing"));
        }
        proof {
            table.lemma_len();
            assert forall|k: int| 0 <= k < t.len() implies (#[trigger] t[k]) is Some by {
                assert(slot_contents(table.slots)[k] is Some);
            }
        }
        let target = match self.target_duration {
            Some(t) => t,
            None => {
                return Err(String::from_str("missing field `target_duration`"));
            },
        };
        let segments = table.into_segments(seq_num);
        let excess = match self.allowable_excess_duration {
            Some(e) => e,
            None => {
                let z = Duration::zero();
                proof {
                    Duration::lemma_spec_new(0, 0);
                    Duration::lemma_ext(z, Duration::spec_new(0, 0));
                }
                z
            },
        };
        let unknown = match self.unknown {
            Some(u) => u,
            None => {
                let u: Vec<String> = Vec::new();
                assert(texts_view(u@) =~= Seq::<Seq<char>>::empty());
                u
            },
        };
        let p = MediaPlaylist {
            target_duration: target,
            media_sequence: seq_num,
            discontinuity_sequence: match self.discontinuity_sequence {
                Some(n) => n,
                None => 0,
            },
            playlist_type: self.playlist_type,
            has_i_frames_only: match self.has_i_frames_only {
                Some(x) => x,
                None => false,
            },
            has_independent_segments: match self.has_independent_segments {
                Some(x) => x,
                None => false,
            },
            start: self.start,
            has_end_list: match self.has_end_list {
                Some(x) => x,
                None => false,
            },
            segments,
            allowable_excess_duration: excess,
            unknown,
        };
        assert(p@.segments == built_segments(t, seq_num));
        Ok(p)
    }
}

/// The key `k` as a playlist writes it: a vector given by the segment number is left
/// out (a reader gives it back from the number).
pub open spec fn written_key(k: KeyView) -> KeyView {
    if k.iv is Number {
        KeyView { iv: InitializationVector::Missing, ..k }
    } else {
        k
    }
}

/// The keys of `a` that are not empty.
pub open spec fn without_empty(a: Seq<Option<KeyView>>) -> Seq<Option<KeyView>>
    decreases a.len(),
{
    if a.len() == 0 {
        seq![]
    } else {
        let r = without_empty(a.drop_last());
        if a.last() is Some {
            r.push(a.last())
        } else {
            r
        }
    }
}

/// The keys of `a` without those of the key format `f`.
pub open spec fn without_format(a: Seq<Option<KeyView>>, f: Option<KeyFormat>) -> Seq<Option<KeyView>>
    decreases a.len(),
{
    if a.len() == 0 {
        seq![]
    } else {
        let r = without_format(a.drop_last(), f);
        if a.last() matches Some(k) && k.format == f {
            r
        } else {
            r.push(a.last())
        }
    }
}

/// A key tag `k` met while writing a playlist whose keys in force are `a`: the keys in
/// force afterwards, and the line written. An empty key is always written and then
/// alone in force; another key is written only when it is not in force already, and
/// then replaces the key in force of its key format.
pub open spec fn key_step(a: Seq<Option<KeyView>>, k: Option<KeyView>) -> (Seq<Option<KeyView>>, Seq<char>) {
    match k {
        None => (seq![None], line("#EXT-X-KEY:METHOD=NONE"@)),
        Some(kv) => {
            let b = without_empty(a);
            let d = written_key(kv);
            if b.contains(Some(d)) {
                (b, seq![])
            } else {
                (without_format(b, d.format).push(Some(d)), line("#EXT-X-KEY:"@ + key_text(d)))
            }
        },
    }
}

/// The key tags `ks` met in turn from the keys in force `a` (see [`key_step`]).
pub open spec fn keys_fold(a: Seq<Option<KeyView>>, ks: Seq<Option<KeyView>>) -> (Seq<Option<KeyView>>, Seq<char>)
    decreases ks.len(),
{
    if ks.len() == 0 {
        (a, seq![])
    } else {
        let (b, out) = keys_fold(a, ks.drop_last());
        let (c, o) = key_step(b, ks.last());
        (c, out + o)
    }
}

/// The first `k` segments of `segs` written in turn, each after its keys: the keys in
/// force afterwards and the text.
pub open spec fn body_fold(segs: Seq<SegmentView>, k: nat) -> (Seq<Option<KeyView>>, Seq<char>)
    decreases k,
{
    if k == 0 {
        (seq![], seq![])
    } else {
        let (a, out) = body_fold(segs, (k - 1) as nat);
        let (b, o) = keys_fold(a, segs[k - 1].keys);
        (b, out + o + segment_text(segs[k - 1]))
    }
}

/// Whether two key formats are the same.
fn same_format(a: Option<KeyFormat>, b: Option<KeyFormat>) -> (res: bool)
    ensures
        res == (a == b),
{
    match a {
        Some(x) => match b {
            Some(y) => {
                assert(x == KeyFormat::Identity);
                assert(y == KeyFormat::Identity);
                true
            },
            None => false,
        },
        None => b.is_none(),
    }
}

/// Appends what writing the key tag `k`, with the keys in force `avail`, gives (see
/// [`key_step`]).
fn write_key_step(avail: &mut Vec<ExtXKey>, k: &ExtXKey, out: &mut Vec<char>)
    ensures
        keys_view(final(avail)@) == key_step(keys_view(old(avail)@), k@).0,
        final(out)@ == old(out)@ + key_step(keys_view(old(avail)@), k@).1,
{
    let ghost a0 = keys_view(avail@);
    match &k.0 {
        None => {
            let mut fresh: Vec<ExtXKey> = Vec::new();
            fresh.push(ExtXKey(None));
            *avail = fresh;
            assert(keys_view(avail@) =~= seq![None::<KeyView>]);
            let ghost o0 = out@;
            push_str(out, "#EXT-X-KEY:METHOD=NONE");
            out.push('\n');
            assert(out@ =~= o0 + line("#EXT-X-KEY:METHOD=NONE"@));
        },
        Some(dk) => {
            let mut d = dk.copy();
            match d.iv {
                InitializationVector::Number(_) => {
                    d.iv = InitializationVector::Missing;
                },
                _ => {},
            }
            assert(d@ == written_key(dk@));
            let mut kept: Vec<ExtXKey> = Vec::new();
            let mut found = false;
            let mut i: usize = 0;
            while i < avail.len()
                invariant
                    a0 == keys_view(avail@),
                    i <= avail@.len(),
                    keys_view(kept@) == without_empty(a0.take(i as int)),
                    found == without_empty(a0.take(i as int)).contains(Some(d@)),
                decreases avail@.len() - i,
            {
                let ghost t1 = a0.take(i + 1);
                assert(t1.drop_last() == a0.take(i as int));
                assert(t1.last() == avail@[i as int]@);
                let ghost w0 = without_empty(a0.take(i as int));
                match &avail[i].0 {
                    Some(x) => {
                        let same = x.same_as(&d);
                        kept.push(ExtXKey(Some(x.copy())));
                        assert(keys_view(kept@) =~= w0.push(Some(x@)));
                        proof {
                            let w1 = w0.push(Some(x@));
                            if found {
                                let j = choose|j: int| 0 <= j < w0.len() && w0[j] == Some(d@);
                                assert(w1[j] == w0[j]);
                            }
                            if same {
                                assert(w1[w0.len() as int] == Some(d@));
                            }
                            if w1.contains(Some(d@)) && !same {
                                let j = choose|j: int| 0 <= j < w1.len() && w1[j] == Some(d@);
                                assert(j < w0.len());
                                assert(w0[j] == w1[j]);
                            }
                        }
                        found = found || same;
                    },
                    None => {},
                }
                i = i + 1;
            }
            assert(a0.take(i as int) == a0);
            if found {
                *avail = kept;
            } else {
                let ghost b = keys_view(kept@);
                let mut next: Vec<ExtXKey> = Vec::new();
                let mut j: usize = 0;
                while j < kept.len()
                    invariant
                        b == keys_view(kept@),
                        j <= kept@.len(),
                        keys_view(next@) == without_format(b.take(j as int), d@.format),
                    decreases kept@.len() - j,
                {
                    let ghost t1 = b.take(j + 1);
                    assert(t1.drop_last() == b.take(j as int));
                    assert(t1.last() == kept@[j as int]@);
                    let ghost w0 = without_format(b.take(j as int), d@.format);
                    let same_format = match &kept[j].0 {
                        Some(x) => same_format(x.format, d.format),
                        None => false,
                    };
                    proof {
                        match kept@[j as int]@ {
                            Some(x) => {
                                assert(same_format == (x.format == d@.format));
                            },
                            None => {},
                        }
                    }
                    if !same_format {
                        let c = kept[j].copy();
                        next.push(c);
                        assert(keys_view(next@) =~= w0.push(kept@[j as int]@));
                    }
                    j = j + 1;
                }
                assert(b.take(j as int) == b);
                let ghost o0 = out@;
                let tag = ExtXKey(Some(d));
                tag.write(out);
                out.push('\n');
                next.push(tag);
                assert(keys_view(next@) =~= without_format(b, d@.format).push(Some(d@)));
                *avail = next;
                assert(out@ =~= o0 + line("#EXT-X-KEY:"@ + key_text(d@)));
            }
        },
    }
}

/// The highest protocol version that the segments `segs` need (version 1 for none).
pub open spec fn segments_version(segs: Seq<SegmentView>) -> ProtocolVersion
    decreases segs.len(),
{
    if segs.len() == 0 {
        ProtocolVersion::V1
    } else {
        segments_version(segs.drop_last()).spec_max(segment_version(segs.last()))
    }
}

/// The highest protocol version that the tags of a playlist need: version 4 for
/// I-frames only, and what its segments need (the other tags need version 1).
pub open spec fn playlist_version(v: MediaPlaylistView) -> ProtocolVersion {
    (if v.has_i_frames_only {
        ProtocolVersion::V4
    } else {
        ProtocolVersion::V1
    }).spec_max(segments_version(v.segments))
}

/// The first lines of a playlist: `#EXTM3U`, its version (unless it is 1), its target
/// duration and its media sequence number (unless it is 0).
pub open spec fn head_text(v: MediaPlaylistView) -> Seq<char> {
    line("#EXTM3U"@) + (if playlist_version(v) != ProtocolVersion::V1 {
        line("#EXT-X-VERSION:"@ + playlist_version(v).spec_to_string())
    } else {
        seq![]
    }) + line("#EXT-X-TARGETDURATION:"@ + dec(v.target_duration.secs())) + (if v.media_sequence
        != 0 {
        line("#EXT-X-MEDIA-SEQUENCE:"@ + dec(v.media_sequence as nat))
    } else {
        seq![]
    })
}

/// The lines of the discontinuity sequence number and the type of a playlist, those it
/// has.
pub open spec fn sequence_type_text(v: MediaPlaylistView) -> Seq<char> {
    (if v.discontinuity_sequence != 0 {
        line("#EXT-X-DISCONTINUITY-SEQUENCE:"@ + dec(v.discontinuity_sequence as nat))
    } else {
        seq![]
    }) + (match v.playlist_type {
        Some(t) => line(t.spec_to_string()),
        None => seq![],
    })
}

/// The lines of the flags and the start of a playlist, those it has.
pub open spec fn flags_start_text(v: MediaPlaylistView) -> Seq<char> {
    (if v.has_i_frames_only {
        line("#EXT-X-I-FRAMES-ONLY"@)
    } else {
        seq![]
    }) + (if v.has_independent_segments {
        line("#EXT-X-INDEPENDENT-SEGMENTS"@)
    } else {
        seq![]
    }) + (match v.start {
        Some(t) => line(t.spec_to_string()),
        None => seq![],
    })
}

/// The lines of the other tags of a playlist before its segments, those it has.
pub open spec fn tags_text(v: MediaPlaylistView) -> Seq<char> {
    sequence_type_text(v) + flags_start_text(v)
}

/// The lines `u`, each followed by a line feed.
pub open spec fn lines_text(u: Seq<Seq<char>>) -> Seq<char>
    decreases u.len(),
{
    if u.len() == 0 {
        seq![]
    } else {
        lines_text(u.drop_last()) + line(u.last())
    }
}

/// The text of a playlist: its first lines, its tags, its segments each after the key
/// tags that change, its unknown tags and its end tag.
pub open spec fn playlist_text(v: MediaPlaylistView) -> Seq<char> {
    head_text(v) + tags_text(v) + body_fold(v.segments, v.segments.len()).1 + lines_text(v.unknown)
        + (if v.has_end_list {
        line("#EXT-X-ENDLIST"@)
    } else {
        seq![]
    })
}

/// The summed duration of the segments `segs`, in nanoseconds.
pub open spec fn total_nanos(segs: Seq<SegmentView>) -> nat
    decreases segs.len(),
{
    if segs.len() == 0 {
        0
    } else {
        total_nanos(segs.drop_last()) + segs.last().duration.0.total_nanos()
    }
}

/// The summed duration grows with the segments.
proof fn lemma_total_nanos_grows(segs: Seq<SegmentView>, k: nat)
    requires
        k <= segs.len(),
    ensures
        total_nanos(segs.take(k as int)) <= total_nanos(segs),
    decreases segs.len() - k,
{
    if k < segs.len() {
        lemma_total_nanos_grows(segs, k + 1);
        assert(segs.take(k as int + 1).drop_last() == segs.take(k as int));
    } else {
        assert(segs.take(k as int) == segs);
    }
}

impl MediaPlaylist {
    /// A builder with no field set.
    pub fn builder() -> (res: MediaPlaylistBuilder)
        ensures
            res.wf(),
            res@ == (PlaylistBuilderView {
                target_duration: None,
                media_sequence: None,
                discontinuity_sequence: None,
                playlist_type: None,
                has_i_frames_only: None,
                has_independent_segments: None,
                start: None,
                has_end_list: None,
                segments: None,
                allowable_excess_duration: None,
                unknown: None,
            }),
    {
        MediaPlaylistBuilder::new()
    }

    /// The summed duration of the segments.
    pub fn duration(&self) -> (res: Duration)
        requires
            total_nanos(self@.segments) / 1_000_000_000 <= u64::MAX,
        ensures
            res.total_nanos() == total_nanos(self@.segments),
    {
        let ghost segs = self@.segments;
        let mut d = Duration::zero();
        let mut i: usize = 0;
        while i < self.segments.len()
            invariant
                segs == self@.segments,
                total_nanos(segs) / 1_000_000_000 <= u64::MAX,
                i <= segs.len(),
                d.total_nanos() == total_nanos(segs.take(i as int)),
            decreases segs.len() - i,
        {
            assert(segs.take(i + 1).drop_last() == segs.take(i as int));
            let x = self.segments[i].duration.duration();
            proof {
                lemma_total_nanos_grows(segs, (i + 1) as nat);
            }
            d = d.checked_add(&x).unwrap();
            i = i + 1;
        }
        assert(segs.take(i as int) == segs);
        d
    }

    /// The playlist itself: it owns all its data already.
    pub fn into_owned(self) -> (res: MediaPlaylist)
        ensures
            res@ == self@,
    {
        self
    }

    /// The highest protocol version that the tags of the playlist need.
    pub fn required_version(&self) -> (res: ProtocolVersion)
        ensures
            res == playlist_version(self@),
    {
        let ghost segs = self@.segments;
        let mut v = ProtocolVersion::V1;
        let mut i: usize = 0;
        while i < self.segments.len()
            invariant
                segs == self@.segments,
                i <= segs.len(),
                v == segments_version(segs.take(i as int)),
            decreases segs.len() - i,
        {
            assert(segs.take(i + 1).drop_last() == segs.take(i as int));
            v = v.max(self.segments[i].required_version());
            i = i + 1;
        }
        assert(segs.take(i as int) == segs);
        let f = if self.has_i_frames_only {
            ProtocolVersion::V4
        } else {
            ProtocolVersion::V1
        };
        f.max(v)
    }

    /// Appends the first lines of the playlist to `out`.
    fn write_head(&self, out: &mut Vec<char>)
        ensures
            final(out)@ == old(out)@ + head_text(self@),
    {
        let ghost o0 = out@;
        push_str(out, "#EXTM3U");
        out.push('\n');
        let v = self.required_version();
        let is_one = match v {
            ProtocolVersion::V1 => true,
            _ => false,
        };
        if !is_one {
            push_str(out, "#EXT-X-VERSION:");
            v.write(out);
            out.push('\n');
        }
        let ghost o1 = out@;
        assert(o1 == o0 + line("#EXTM3U"@) + (if playlist_version(self@) != ProtocolVersion::V1 {
            line("#EXT-X-VERSION:"@ + playlist_version(self@).spec_to_string())
        } else {
            seq![]
        }));
        ExtXTargetDuration(self.target_duration).write(out);
        out.push('\n');
        if self.media_sequence != 0 {
            ExtXMediaSequence(self.media_sequence).write(out);
            out.push('\n');
        }
        assert(out@ =~= o0 + head_text(self@));
    }

    /// Appends the lines of the discontinuity sequence number and the type to `out`.
    fn write_sequence_type(&self, out: &mut Vec<char>)
        ensures
            final(out)@ == old(out)@ + sequence_type_text(self@),
    {
        let ghost o0 = out@;
        if self.discontinuity_sequence != 0 {
            ExtXDiscontinuitySequence(self.discontinuity_sequence).write(out);
            out.push('\n');
        }
        let ghost o1 = out@;
        assert(o1 == o0 + (if self@.discontinuity_sequence != 0 {
            line("#EXT-X-DISCONTINUITY-SEQUENCE:"@ + dec(self@.discontinuity_sequence as nat))
        } else {
            seq![]
        }));
        match &self.playlist_type {
            Some(t) => {
                t.write(out);
                out.push('\n');
            },
            None => {},
        }
        assert(out@ =~= o0 + sequence_type_text(self@));
    }

    /// Appends the lines of the flags and the start to `out`.
    fn write_flags_start(&self, out: &mut Vec<char>)
        ensures
            final(out)@ == old(out)@ + flags_start_text(self@),
    {
        let ghost o0 = out@;
        if self.has_i_frames_only {
            push_str(out, "#EXT-X-I-FRAMES-ONLY");
            out.push('\n');
        }
        let ghost o1 = out@;
        if self.has_independent_segments {
            push_str(out, "#EXT-X-INDEPENDENT-SEGMENTS");
            out.push('\n');
        }
        let ghost o2 = out@;
        match &self.start {
            Some(t) => {
                t.write(out);
                out.push('\n');
            },
            None => {},
        }
        assert(out@ =~= o0 + flags_start_text(self@));
    }

    /// Appends the lines of the other tags before the segments to `out`.
    fn write_tags(&self, out: &mut Vec<char>)
        ensures
            final(out)@ == old(out)@ + tags_text(self@),
    {
        let ghost o0 = out@;
        self.write_sequence_type(out);
        self.write_flags_start(out);
        assert(out@ =~= o0 + tags_text(self@));
    }

    /// Appends the segments, each after the key tags that change, to `out`.
    fn write_body(&self, out: &mut Vec<char>)
        ensures
            final(out)@ == old(out)@ + body_fold(self@.segments, self@.segments.len()).1,
    {
        let ghost o0 = out@;
        let ghost segs = self@.segments;
        let mut avail: Vec<ExtXKey> = Vec::new();
        assert(keys_view(avail@) =~= Seq::<Option<KeyView>>::empty());
        let mut i: usize = 0;
        while i < self.segments.len()
            invariant
                segs == self@.segments,
                i <= segs.len(),
                keys_view(avail@) == body_fold(segs, i as nat).0,
                out@ == o0 + body_fold(segs, i as nat).1,
            decreases segs.len() - i,
        {
            let seg = &self.segments[i];
            let ghost a0 = keys_view(avail@);
            let ghost b0 = out@;
            let ghost ks = seg@.keys;
            let mut j: usize = 0;
            while j < seg.keys.len()
                invariant
                    ks == keys_view(seg.keys@),
                    j <= ks.len(),
                    keys_view(avail@) == keys_fold(a0, ks.take(j as int)).0,
                    out@ == b0 + keys_fold(a0, ks.take(j as int)).1,
                decreases ks.len() - j,
            {
                assert(ks.take(j + 1).drop_last() == ks.take(j as int));
                assert(ks.take(j + 1).last() == seg.keys@[j as int]@);
                write_key_step(&mut avail, &seg.keys[j], out);
                j = j + 1;
            }
            assert(ks.take(j as int) == ks);
            seg.write(out);
            assert(out@ =~= o0 + body_fold(segs, (i + 1) as nat).1);
            i = i + 1;
        }
    }

    /// Appends the unknown tags and the end tag to `out`.
    fn write_tail(&self, out: &mut Vec<char>)
        ensures
            final(out)@ == old(out)@ + lines_text(self@.unknown) + (if self@.has_end_list {
                line("#EXT-X-ENDLIST"@)
            } else {
                seq![]
            }),
    {
        let ghost o0 = out@;
        let ghost u = self@.unknown;
        let mut i: usize = 0;
        while i < self.unknown.len()
            invariant
                u == self@.unknown,
                i <= u.len(),
                out@ == o0 + lines_text(u.take(i as int)),
            decreases u.len() - i,
        {
            assert(u.take(i + 1).drop_last() == u.take(i as int));
            push_string(out, &self.unknown[i]);
            out.push('\n');
            assert(out@ =~= o0 + lines_text(u.take(i + 1)));
            i = i + 1;
        }
        assert(u.take(i as int) == u);
        let ghost o1 = out@;
        if self.has_end_list {
            push_str(out, "#EXT-X-ENDLIST");
            out.push('\n');
        }
        assert(out@ =~= o1 + (if self@.has_end_list {
            line("#EXT-X-ENDLIST"@)
        } else {
            seq![]
        }));
    }

    /// Appends the text of the playlist to `out` (see [`playlist_text`]).
    pub fn write(&self, out: &mut Vec<char>)
        ensures
            final(out)@ == old(out)@ + playlist_text(self@),
    {
        let ghost o0 = out@;
        self.write_head(out);
        self.write_tags(out);
        self.write_body(out);
        self.write_tail(out);
        assert(out@ =~= o0 + playlist_text(self@));
    }

    /// The text of the playlist.
    pub fn to_string(&self) -> (res: String)
        ensures
            res@ == playlist_text(self@),
    {
        let mut out: Vec<char> = Vec::new();
        self.write(&mut out);
        string_of(&out)
    }
}

/// What reading a media playlist has gathered so far: the fields of the playlist, the
/// tags of the segment that has begun, the segments, whether a segment has begun and a
/// discontinuity has been seen, the unknown tags and the keys in force.
pub struct MediaParseState {
    pub builder: PlaylistBuilderView,
    pub duration: Option<(Duration, Option<Seq<char>>)>,
    pub byte_range: Option<(Option<usize>, usize)>,
    pub has_discontinuity: bool,
    pub map: Option<MapView>,
    pub program_date_time: Option<Seq<char>>,
    pub date_range: Option<DateRangeView>,
    pub segments: Seq<SegmentView>,
    pub partial: bool,
    pub discontinuity_tag: bool,
    pub unknown: Seq<Seq<char>>,
    pub keys: Seq<Option<KeyView>>,
}

/// The state of reading before the first item, onto the builder `b`.
pub open spec fn initial_state(b: PlaylistBuilderView) -> MediaParseState {
    MediaParseState {
        builder: b,
        duration: None,
        byte_range: None,
        has_discontinuity: false,
        map: None,
        program_date_time: None,
        date_range: None,
        segments: seq![],
        partial: false,
        discontinuity_tag: false,
        unknown: seq![],
        keys: seq![],
    }
}

/// The keys in force after a key tag `k`: an empty key alone, or the key in place of
/// the one of its key format.
pub open spec fn parsed_keys(a: Seq<Option<KeyView>>, k: Option<KeyView>) -> Seq<Option<KeyView>> {
    match k {
        None => seq![None],
        Some(kv) => without_format(without_empty(a), kv.format).push(Some(kv)),
    }
}

/// The state after a tag `t` (see [`media_step`]).
pub open spec fn media_tag_step(st: MediaParseState, t: TagView) -> Option<MediaParseState> {
    match t {
        TagView::Inf(d) => Some(MediaParseState { partial: true, duration: Some(d), ..st }),
        TagView::ByteRange(r) => Some(MediaParseState { partial: true, byte_range: Some(r), ..st }),
        TagView::Discontinuity => Some(
            MediaParseState { partial: true, has_discontinuity: true, discontinuity_tag: true, ..st },
        ),
        TagView::Key(k) => Some(MediaParseState { partial: true, keys: parsed_keys(st.keys, k), ..st }),
        TagView::InitMap(m) => Some(
            MediaParseState {
                partial: true,
                map: Some(MapView { uri: m.0, range: m.1, keys: st.keys }),
                ..st
            },
        ),
        TagView::ProgramDateTime(p) => Some(
            MediaParseState { partial: true, program_date_time: Some(p), ..st },
        ),
        TagView::DateRange(d) => Some(MediaParseState { partial: true, date_range: Some(d), ..st }),
        TagView::TargetDuration(t) => Some(
            MediaParseState {
                builder: PlaylistBuilderView { target_duration: Some(t.0), ..st.builder },
                ..st
            },
        ),
        TagView::MediaSequence(t) => Some(
            MediaParseState {
                builder: PlaylistBuilderView { media_sequence: Some(t.0), ..st.builder },
                ..st
            },
        ),
        TagView::DiscontinuitySequence(t) => if st.segments.len() == 0 || st.discontinuity_tag {
            None
        } else {
            Some(
                MediaParseState {
                    builder: PlaylistBuilderView { discontinuity_sequence: Some(t.0), ..st.builder },
                    ..st
                },
            )
        },
        TagView::EndList => Some(
            MediaParseState {
                builder: PlaylistBuilderView { has_end_list: Some(true), ..st.builder },
                ..st
            },
        ),
        TagView::PlaylistType(t) => Some(
            MediaParseState {
                builder: PlaylistBuilderView { playlist_type: Some(t), ..st.builder },
                ..st
            },
        ),
        TagView::IFramesOnly => Some(
            MediaParseState {
                builder: PlaylistBuilderView { has_i_frames_only: Some(true), ..st.builder },
                ..st
            },
        ),
        TagView::IndependentSegments => Some(
            MediaParseState {
                builder: PlaylistBuilderView { has_independent_segments: Some(true), ..st.builder },
                ..st
            },
        ),
        TagView::Start(x) => Some(
            MediaParseState {
                builder: PlaylistBuilderView {
                    start: Some(ExtXStart::spec_from(x.0, x.1)),
                    ..st.builder
                },
                ..st
            },
        ),
        TagView::Version(_) => Some(st),
        TagView::Unknown(u) => Some(MediaParseState { unknown: st.unknown.push(u), ..st }),
        TagView::Media(_) => None,
        TagView::Variant(_) => None,
        TagView::SessionData(_) => None,
        TagView::SessionKey(_) => None,
    }
}

/// The state after an item `l` of a media playlist: a tag changes the state (tags of
/// master playlists are refused), a comment changes nothing, and a location ends the
/// segment, which needs a duration.
pub open spec fn media_step(st: MediaParseState, l: LineView) -> Option<MediaParseState> {
    match l {
        LineView::Tag(t) => media_tag_step(st, t),
        LineView::Comment(_) => Some(st),
        LineView::Uri(u) => match st.duration {
            Some(d) => Some(
                MediaParseState {
                    duration: None,
                    byte_range: None,
                    has_discontinuity: false,
                    map: None,
                    program_date_time: None,
                    date_range: None,
                    partial: false,
                    segments: st.segments.push(
                        SegmentView {
                            number: 0,
                            explicit_number: false,
                            keys: st.keys,
                            map: st.map,
                            byte_range: st.byte_range,
                            date_range: st.date_range,
                            has_discontinuity: st.has_discontinuity,
                            program_date_time: st.program_date_time,
                            duration: d,
                            uri: u,
                        },
                    ),
                    ..st
                },
            ),
            None => None,
        },
    }
}

/// The state after the item `item` of a media playlist (see [`media_step`]); none when
/// the item cannot be read.
#[verifier::opaque]
pub open spec fn media_item(st: MediaParseState, item: Seq<char>) -> Option<MediaParseState> {
    match line_kind(item) {
        Some(l) => media_step(st, l),
        None => None,
    }
}

/// What [`media_item`] gives for an item that reads as `l`, or that cannot be read.
pub proof fn lemma_media_item(st: MediaParseState, item: Seq<char>)
    ensures
        line_kind(item) matches Some(l) ==> media_item(st, item) == media_step(st, l),
        line_kind(item) is None ==> media_item(st, item) is None,
{
    reveal(media_item);
}

/// The state after the first `k` items of `items`, read onto the builder `b`; none
/// once an item cannot be read or is refused.
pub open spec fn media_fold(b: PlaylistBuilderView, items: Seq<Seq<char>>, k: nat) -> Option<MediaParseState>
    decreases k,
{
    if k == 0 {
        Some(initial_state(b))
    } else {
        match media_fold(b, items, (k - 1) as nat) {
            Some(st) => media_item(st, items[k - 1]),
            None => None,
        }
    }
}

/// The builder that the state `st` ends in: its segments and unknown tags set.
pub open spec fn final_builder(st: MediaParseState) -> PlaylistBuilderView {
    PlaylistBuilderView {
        segments: Some(table_of(st.segments)),
        unknown: Some(st.unknown),
        ..st.builder
    }
}

/// The segments and durations of the builder `b` fit the machine: there are not too
/// many segments, their numbers fit a `usize` and the longest duration fits.
pub open spec fn parse_fits(st: MediaParseState) -> bool {
    let b = st.builder;
    &&& st.segments.len() < slot_room_limit() / 4
    &&& st.segments.len() > 0 ==> st.segments.len() - 1 + match b.media_sequence {
        Some(n) => n,
        None => 0,
    } <= usize::MAX
    &&& st.segments.len() > 0 ==> (b.target_duration matches Some(t) ==> (
    b.allowable_excess_duration matches Some(e) ==> t.secs() + e.secs() + (t.nanos() + e.nanos())
        / 1_000_000_000 <= u64::MAX))
}

/// The state after reading all the items of the text `s` onto the builder `b`, if
/// `s` starts with `#EXTM3U` and every item is accepted.
pub open spec fn media_state(b: PlaylistBuilderView, s: Seq<char>) -> Option<MediaParseState> {
    match after_tag(s, "#EXTM3U"@) {
        Some(r) => media_fold(b, items_of(lines_of(r)), items_of(lines_of(r)).len()),
        None => None,
    }
}

/// The playlist that reading the text `s` onto the builder `b` gives: every item must
/// be accepted, the last segment must have its location, and the builder must build.
pub open spec fn media_parse(b: PlaylistBuilderView, s: Seq<char>) -> Option<MediaPlaylistView> {
    match media_state(b, s) {
        Some(st) => if !st.partial && parse_fits(st) && build_failure(final_builder(st)) is None {
            Some(built_playlist(final_builder(st)))
        } else {
            None
        },
        None => None,
    }
}

/// Once reading stopped on an item, reading more items does not resume.
proof fn lemma_fold_none_persists(b: PlaylistBuilderView, items: Seq<Seq<char>>, j: nat, k: nat)
    requires
        j <= k,
        media_fold(b, items, j) is None,
    ensures
        media_fold(b, items, k) is None,
    decreases k - j,
{
    if j < k {
        lemma_fold_none_persists(b, items, j, (k - 1) as nat);
    }
}

/// Segments without an explicit number fill the slots in order.
pub proof fn lemma_table_of_implicit(vs: Seq<SegmentView>, k: nat)
    requires
        k <= vs.len(),
        forall|i: int| 0 <= i < vs.len() ==> !(#[trigger] vs[i]).explicit_number,
    ensures
        explicit_fold(vs, k) == Seq::<Option<SegmentView>>::empty(),
        implicit_fold(vs, seq![], k) == Seq::new(k, |i: int| Some(vs[i])),
    decreases k,
{
    if k > 0 {
        lemma_table_of_implicit(vs, (k - 1) as nat);
        assert(implicit_fold(vs, seq![], k) =~= Seq::new(k, |i: int| Some(vs[i])));
    }
}

/// The keys in force after the key tag `k` (see [`parsed_keys`]).
fn update_keys(keys: &mut Vec<ExtXKey>, k: ExtXKey)
    ensures
        keys_view(final(keys)@) == parsed_keys(keys_view(old(keys)@), k@),
{
    let ghost a0 = keys_view(keys@);
    match &k.0 {
        None => {
            let mut fresh: Vec<ExtXKey> = Vec::new();
            fresh.push(ExtXKey(None));
            *keys = fresh;
            assert(keys_view(keys@) =~= seq![None::<KeyView>]);
        },
        Some(dk) => {
            let fmt = dk.format;
            let ghost b = without_empty(a0);
            let mut kept: Vec<ExtXKey> = Vec::new();
            let mut i: usize = 0;
            while i < keys.len()
                invariant
                    a0 == keys_view(keys@),
                    i <= keys@.len(),
                    keys_view(kept@) == without_empty(a0.take(i as int)),
                decreases keys@.len() - i,
            {
                assert(a0.take(i + 1).drop_last() == a0.take(i as int));
                assert(a0.take(i + 1).last() == keys@[i as int]@);
                if keys[i].is_some() {
                    let c = keys[i].copy();
                    kept.push(c);
                    assert(keys_view(kept@) =~= without_empty(a0.take(i + 1)));
                }
                i = i + 1;
            }
            assert(a0.take(i as int) == a0);
            let mut next: Vec<ExtXKey> = Vec::new();
            let mut j: usize = 0;
            while j < kept.len()
                invariant
                    b == keys_view(kept@),
                    j <= kept@.len(),
                    keys_view(next@) == without_format(b.take(j as int), fmt),
                decreases kept@.len() - j,
            {
                assert(b.take(j + 1).drop_last() == b.take(j as int));
                assert(b.take(j + 1).last() == kept@[j as int]@);
                let same = match &kept[j].0 {
                    Some(x) => same_format(x.format, fmt),
                    None => false,
                };
                if !same {
                    let c = kept[j].copy();
                    next.push(c);
                    assert(keys_view(next@) =~= without_format(b.take(j + 1), fmt));
                }
                j = j + 1;
            }
            assert(b.take(j as int) == b);
            let ghost kv = k@;
            next.push(k);
            assert(keys_view(next@) =~= without_format(b, fmt).push(kv));
            *keys = next;
        },
    }
}

/// A copy of the keys `keys`.
fn copy_keys(keys: &Vec<ExtXKey>) -> (res: Vec<ExtXKey>)
    ensures
        keys_view(res@) == keys_view(keys@),
{
    let mut res: Vec<ExtXKey> = Vec::new();
    let mut i: usize = 0;
    while i < keys.len()
        invariant
            i <= keys@.len(),
            res@.len() == i,
            forall|j: int| 0 <= j < i ==> (#[trigger] res@[j])@ == keys@[j]@,
        decreases keys@.len() - i,
    {
        res.push(keys[i].copy());
        i = i + 1;
    }
    assert(keys_view(res@) =~= keys_view(keys@));
    res
}

/// The state of reading a media playlist (see [`MediaParseState`]).
struct MediaParser {
    pb: MediaPlaylistBuilder,
    sb: MediaSegmentBuilder,
    segments: Vec<MediaSegment>,
    partial: bool,
    discontinuity_tag: bool,
    unknown: Vec<String>,
    keys: Vec<ExtXKey>,
}

impl MediaParser {
    /// What the parser has gathered.
    closed spec fn view(&self) -> MediaParseState {
        MediaParseState {
            builder: self.pb@,
            duration: match self.sb.duration {
                Some(d) => Some(d@),
                None => None,
            },
            byte_range: match self.sb.byte_range {
                Some(r) => Some(r.0@),
                None => None,
            },
            has_discontinuity: self.sb.has_discontinuity == Some(true),
            map: match self.sb.map {
                Some(m) => Some(m@),
                None => None,
            },
            program_date_time: match self.sb.program_date_time {
                Some(p) => Some(p.date_time@),
                None => None,
            },
            date_range: match self.sb.date_range {
                Some(d) => Some(d@),
                None => None,
            },
            segments: Seq::new(self.segments@.len(), |i: int| self.segments@[i]@),
            partial: self.partial,
            discontinuity_tag: self.discontinuity_tag,
            unknown: texts_view(self.unknown@),
            keys: keys_view(self.keys@),
        }
    }

    /// The builder is well formed, the segment builder holds only the tags that the
    /// reader sets, and no segment has an explicit number.
    closed spec fn wf(&self) -> bool {
        &&& self.pb.wf()
        &&& self.sb.number is None
        &&& self.sb.explicit_number is None
        &&& self.sb.keys is None
        &&& self.sb.uri is None
        &&& (self.sb.has_discontinuity is None || self.sb.has_discontinuity == Some(true))
        &&& forall|i: int| 0 <= i < self.segments@.len() ==> !(#[trigger] self.segments@[i]).explicit_number
    }

    /// A parser that reads onto the builder `pb`.
    fn new(pb: MediaPlaylistBuilder) -> (res: MediaParser)
        requires
            pb.wf(),
        ensures
            res.wf(),
            res.view() == initial_state(pb@),
    {
        let p = MediaParser {
            pb,
            sb: MediaSegment::builder(),
            segments: Vec::new(),
            partial: false,
            discontinuity_tag: false,
            unknown: Vec::new(),
            keys: Vec::new(),
        };
        assert(p.view().segments =~= Seq::<SegmentView>::empty());
        assert(p.view().unknown =~= Seq::<Seq<char>>::empty());
        assert(p.view().keys =~= Seq::<Option<KeyView>>::empty());
        p
    }

    /// Reads a tag of a segment.
    #[verifier::rlimit(40)]
    fn segment_tag(&mut self, t: Tag) -> (res: Result<(), Error>)
        requires
            old(self).wf(),
            t is ExtInf || t is ExtXByteRange || t is ExtXDiscontinuity || t is ExtXKey
                || t is ExtXMap || t is ExtXProgramDateTime || t is ExtXDateRange,
        ensures
            res is Ok,
            final(self).wf(),
            media_tag_step(old(self).view(), t@) == Some(final(self).view()),
    {
        let ghost st = self.view();
        let mut sb = MediaSegment::builder();
        std::mem::swap(&mut sb, &mut self.sb);
        match t {
            Tag::ExtInf(x) => {
                self.sb = sb.duration(x);
            },
            Tag::ExtXByteRange(x) => {
                self.sb = sb.byte_range(x);
            },
            Tag::ExtXDiscontinuity(_) => {
                self.discontinuity_tag = true;
                self.sb = sb.has_discontinuity(true);
            },
            Tag::ExtXKey(k) => {
                self.sb = sb;
                update_keys(&mut self.keys, k);
            },
            Tag::ExtXMap(m) => {
                let mut m = m;
                m.set_keys(copy_keys(&self.keys));
                self.sb = sb.map(m);
            },
            Tag::ExtXProgramDateTime(x) => {
                self.sb = sb.program_date_time(x);
            },
            Tag::ExtXDateRange(x) => {
                self.sb = sb.date_range(x);
            },
            _ => {
                self.sb = sb;
            },
        }
        self.partial = true;
        assert(self.view().segments == st.segments);
        Ok(())
    }
}

/// Whether `t` is a tag of a media segment.
fn is_segment_tag(t: &Tag) -> (res: bool)
    ensures
        res == (t is ExtInf || t is ExtXByteRange || t is ExtXDiscontinuity || t is ExtXKey
            || t is ExtXMap || t is ExtXProgramDateTime || t is ExtXDateRange),
{
    match t {
        Tag::ExtInf(_) => true,
        Tag::ExtXByteRange(_) => true,
        Tag::ExtXDiscontinuity(_) => true,
        Tag::ExtXKey(_) => true,
        Tag::ExtXMap(_) => true,
        Tag::ExtXProgramDateTime(_) => true,
        Tag::ExtXDateRange(_) => true,
        _ => false,
    }
}

impl MediaParser {
    /// Reads a tag of the playlist, an unknown tag, or a tag that a media playlist
    /// cannot hold.
    #[verifier::rlimit(40)]
    fn playlist_tag(&mut self, t: Tag) -> (res: Result<(), Error>)
        requires
            old(self).wf(),
            !(t is ExtInf || t is ExtXByteRange || t is ExtXDiscontinuity || t is ExtXKey
                || t is ExtXMap || t is ExtXProgramDateTime || t is ExtXDateRange),
        ensures
            match media_tag_step(old(self).view(), t@) {
                Some(st) => res is Ok && final(self).wf() && final(self).view() == st,
                None => res is Err,
            },
    {
        let ghost st = self.view();
        let mut pb = MediaPlaylist::builder();
        std::mem::swap(&mut pb, &mut self.pb);
        match t {
            Tag::ExtXTargetDuration(x) => {
                self.pb = pb.target_duration(x.0);
            },
            Tag::ExtXMediaSequence(x) => {
                self.pb = pb.media_sequence(x.0);
            },
            Tag::ExtXDiscontinuitySequence(x) => {
                if self.segments.len() == 0 || self.discontinuity_tag {
                    self.pb = pb;
                    return Err(Error::InvalidInput);
                }
                self.pb = pb.discontinuity_sequence(x.0);
            },
            Tag::ExtXEndList(_) => {
                self.pb = pb.has_end_list(true);
            },
            Tag::PlaylistType(x) => {
                self.pb = pb.playlist_type(x);
            },
            Tag::ExtXIFramesOnly(_) => {
                self.pb = pb.has_i_frames_only(true);
            },
            Tag::ExtXIndependentSegments(_) => {
                self.pb = pb.has_independent_segments(true);
            },
            Tag::ExtXStart(x) => {
                proof {
                    ExtXStart::lemma_from_parts(x);
                }
                self.pb = pb.start(x);
            },
            Tag::ExtXVersion(_) => {
                self.pb = pb;
            },
            Tag::Unknown(u) => {
                self.pb = pb;
                self.unknown.push(u);
                assert(texts_view(self.unknown@) =~= st.unknown.push(u@));
            },
            Tag::ExtXMedia(x) => {
                self.pb = pb;
                return Err(Error::UnexpectedTag { tag: x.to_string() });
            },
            Tag::VariantStream(x) => {
                self.pb = pb;
                return Err(Error::UnexpectedTag { tag: x.to_string() });
            },
            Tag::ExtXSessionData(x) => {
                self.pb = pb;
                return Err(Error::UnexpectedTag { tag: x.to_string() });
            },
            Tag::ExtXSessionKey(x) => {
                self.pb = pb;
                return Err(Error::UnexpectedTag { tag: x.to_string() });
            },
            _ => {
                self.pb = pb;
            },
        }
        Ok(())
    }

    /// Reads the location that ends a segment: the segment gets the keys in force and
    /// needs a duration.
    fn uri(&mut self, u: String) -> (res: Result<(), Error>)
        requires
            old(self).wf(),
        ensures
            match media_step(old(self).view(), LineView::Uri(u@)) {
                Some(st) => res is Ok && final(self).wf() && final(self).view() == st,
                None => res is Err,
            },
    {
        let ghost st = self.view();
        let mut sb = MediaSegment::builder();
        std::mem::swap(&mut sb, &mut self.sb);
        let sb = sb.uri(u.as_str()).keys(copy_keys(&self.keys));
        let seg = sb.build()?;
        let ghost sv = seg@;
        self.segments.push(seg);
        self.partial = false;
        assert(self.view().segments =~= st.segments.push(sv));
        Ok(())
    }

    /// Reads an item of the playlist (see [`media_step`]).
    fn step(&mut self, l: Line) -> (res: Result<(), Error>)
        requires
            old(self).wf(),
        ensures
            match media_step(old(self).view(), l@) {
                Some(st) => res is Ok && final(self).wf() && final(self).view() == st,
                None => res is Err,
            },
    {
        match l {
            Line::Tag(t) => {
                if is_segment_tag(&t) {
                    self.segment_tag(t)
                } else {
                    self.playlist_tag(t)
                }
            },
            Line::Comment(_) => Ok(()),
            Line::Uri(u) => self.uri(u),
        }
    }
}

impl MediaPlaylistBuilder {
    /// Reads a media playlist from the text `input` onto this builder and builds it
    /// (see [`media_parse`]).
    pub fn parse(self, input: &str) -> (res: Result<MediaPlaylist, Error>)
        requires
            self.wf(),
        ensures
            res is Ok <==> media_parse(self@, input@) is Some,
            res matches Ok(p) ==> media_parse(self@, input@) == Some(p@),
            after_tag(input@, "#EXTM3U"@) is None ==> (res matches Err(Error::MissingTag { tag, input: i })
                && tag@ == "#EXTM3U"@ && i@ == input@),
            media_state(self@, input@) matches Some(st) ==> (st.partial ==> (res matches Err(
                Error::Custom(m),
            ) && m@ == "Missing URI for the last `MediaSegment`"@)),
            media_state(self@, input@) matches Some(st) ==> (!st.partial && parse_fits(st)
                ==> (build_failure(final_builder(st)) matches Some(f) ==> (failure_text(
                f,
                final_builder(st),
            ) matches Some(m) ==> (res matches Err(Error::Custom(e)) && e@ == m)))),
    {
        let ghost b0 = self@;
        let v = chars_of(input);
        let rest = match strip_tag(&v, "#EXTM3U") {
            Some(r) => r,
            None => {
                return Err(
                    Error::MissingTag { tag: String::from_str("#EXTM3U"), input: string_of(&v) },
                );
            },
        };
        let ls = lines(&rest);
        let its = items(&ls);
        let ghost all = items_of(lines_of(rest@));
        assert(Seq::new(ls@.len(), |i: int| ls@[i]@) =~= lines_of(rest@));
        let mut p = MediaParser::new(self);
        assert(media_state(b0, input@) == media_fold(b0, all, all.len()));
        let mut i: usize = 0;
        while i < its.len()
            invariant
                b0 == self@,
                after_tag(input@, "#EXTM3U"@) is Some,
                media_state(b0, input@) == media_fold(b0, all, all.len()),
                all.len() == its@.len(),
                forall|j: int| 0 <= j < its@.len() ==> (#[trigger] its@[j])@ == all[j],
                i <= its@.len(),
                p.wf(),
                media_fold(b0, all, i as nat) == Some(p.view()),
            decreases its@.len() - i,
        {
            proof {
                lemma_media_item(p.view(), all[i as int]);
            }
            let l = match Line::parse_chars(&its[i]) {
                Ok(l) => l,
                Err(e) => {
                    proof {
                        assert(media_fold(b0, all, (i + 1) as nat) is None);
                        lemma_fold_none_persists(b0, all, (i + 1) as nat, all.len());
                        assert(media_state(b0, input@) is None);
                    }
                    return Err(e);
                },
            };
            match p.step(l) {
                Ok(()) => {},
                Err(e) => {
                    proof {
                        assert(media_fold(b0, all, (i + 1) as nat) is None);
                        lemma_fold_none_persists(b0, all, (i + 1) as nat, all.len());
                        assert(media_state(b0, input@) is None);
                    }
                    return Err(e);
                },
            }
            i = i + 1;
        }
        let ghost st = p.view();
        assert(media_state(b0, input@) == Some(st));
        if p.partial {
            return Err(Error::Custom(String::from_str("Missing URI for the last `MediaSegment`")));
        }
        let n = p.segments.len();
        if n >= slot_room_limit_value() {
            return Err(Error::Custom(String::from_str("too many media segments")));
        }
        let seq_num = match p.pb.media_sequence {
            Some(x) => x,
            None => 0,
        };
        if n > 0 && seq_num > usize::MAX - (n - 1) {
            return Err(Error::Custom(String::from_str("the segment numbers do not fit")));
        }
        match (p.pb.target_duration, p.pb.allowable_excess_duration) {
            (Some(t), Some(e)) => {
                if n > 0 && t.checked_add(&e).is_none() {
                    return Err(Error::Custom(String::from_str("the longest segment duration does not fit")));
                }
            },
            _ => {},
        }
        assert(parse_fits(st));
        let ghost segs = st.segments;
        proof {
            lemma_table_of_implicit(segs, segs.len());
            assert(table_of(segs) == Seq::new(segs.len(), |i: int| Some(segs[i])));
        }
        let pb = p.pb.unknown(p.unknown);
        let pb = pb.segments(p.segments);
        assert(pb@ == final_builder(st));
        match pb.build() {
            Ok(pl) => Ok(pl),
            Err(m) => Err(Error::Custom(m)),
        }
    }
}

impl MediaPlaylist {
    /// Reads a media playlist from the text `input` (see [`media_parse`], with a
    /// builder that has no field set).
    pub fn try_from(input: &str) -> (res: Result<MediaPlaylist, Error>)
        ensures
            res is Ok <==> media_parse(MediaPlaylistBuilder::new_view(), input@) is Some,
            res matches Ok(p) ==> media_parse(MediaPlaylistBuilder::new_view(), input@) == Some(p@),
    {
        MediaPlaylist::builder().parse(input)
    }
}

/// The largest number of segments that a playlist read from a text may have (the
/// room of its stable vector must fit in memory).
fn slot_room_limit_value() -> (res: usize)
    ensures
        res == slot_room_limit() / 4,
{
    ((isize::MAX as usize) / 8) / 4
}

/// When the check of the first `n` slots passes, each filled slot among them lasts no
/// longer than `max` nanoseconds.
proof fn lemma_scan_durations(t: Seq<Option<SegmentView>>, n: nat, max: nat, k: int)
    requires
        segment_scan(t, n, max).0 is None,
        0 <= k < n,
        t[k] is Some,
    ensures
        t[k]->0.duration.0.total_nanos() <= max,
    decreases n,
{
    if k < n - 1 {
        lemma_scan_durations(t, (n - 1) as nat, max, k);
    }
}

/// A built playlist numbers each segment without an explicit number by its position,
/// counted from the media sequence number.
pub proof fn lemma_built_numbers(b: PlaylistBuilderView, k: int)
    requires
        build_failure(b) is None,
        numbering_fits(b.segments->0, built_playlist(b).media_sequence),
        0 <= k < built_playlist(b).segments.len(),
        !b.segments->0[k]->0.explicit_number,
    ensures
        built_playlist(b).segments[k].number == k + built_playlist(b).media_sequence,
{
}

/// In a built playlist every byte range has a start.
pub proof fn lemma_built_ranges_have_start(b: PlaylistBuilderView, k: int)
    requires
        build_failure(b) is None,
        0 <= k < built_playlist(b).segments.len(),
    ensures
        built_playlist(b).segments[k].byte_range matches Some(r) ==> r.0 is Some,
{
}

/// In a built playlist every AES-128 key has an initialization vector.
pub proof fn lemma_built_keys_have_iv(b: PlaylistBuilderView, k: int, i: int)
    requires
        build_failure(b) is None,
        0 <= k < built_playlist(b).segments.len(),
        0 <= i < built_playlist(b).segments[k].keys.len(),
    ensures
        built_playlist(b).segments[k].keys[i] matches Some(kv) ==> (kv.method
            == EncryptionMethod::Aes128 ==> !(kv.iv is Missing)),
{
}

/// In a playlist built with a target duration, no segment lasts longer than the target
/// duration and the allowed excess.
pub proof fn lemma_built_durations(b: PlaylistBuilderView, k: int)
    requires
        build_failure(b) is None,
        b.target_duration is Some,
        0 <= k < built_playlist(b).segments.len(),
    ensures
        built_playlist(b).segments[k].duration.0.total_nanos() <= max_nanos(
            b.target_duration->0,
            b.allowable_excess_duration,
        ),
{
    let t = b.segments->0;
    assert(all_filled(t));
    assert(t[k] is Some);
    assert(!independent_failure(b.has_independent_segments, t));
    lemma_scan_durations(t, t.len(), max_nanos(b.target_duration->0, b.allowable_excess_duration), k);
}

/// The highest protocol version that the segments of the filled slots `t` need
/// (version 1 for none).
pub open spec fn slots_version(t: Seq<Option<SegmentView>>) -> ProtocolVersion
    decreases t.len(),
{
    if t.len() == 0 {
        ProtocolVersion::V1
    } else {
        slots_version(t.drop_last()).spec_max(
            match t.last() {
                Some(s) => segment_version(s),
                None => ProtocolVersion::V1,
            },
        )
    }
}

/// The highest protocol version that the tags set in the builder `b` need: version 4
/// for I-frames only, and what its segments need.
pub open spec fn builder_version(b: PlaylistBuilderView) -> ProtocolVersion {
    (if b.has_i_frames_only == Some(true) {
        ProtocolVersion::V4
    } else {
        ProtocolVersion::V1
    }).spec_max(
        slots_version(
            match b.segments {
                Some(t) => t,
                None => seq![],
            },
        ),
    )
}

impl SegmentTable {
    /// The highest protocol version that the segments of the filled slots need.
    fn version(&self) -> (res: ProtocolVersion)
        requires
            self.wf(),
        ensures
            res == slots_version(self.view_slots()),
    {
        let ghost t = self.view_slots();
        proof {
            self.lemma_len();
        }
        let n = slots_len(&self.slots);
        let mut v = ProtocolVersion::V1;
        let mut k: usize = 0;
        while k < n
            invariant
                self.wf(),
                t == self.view_slots(),
                n == t.len(),
                k <= n,
                v == slots_version(t.take(k as int)),
            decreases n - k,
        {
            assert(t.take(k + 1).drop_last() == t.take(k as int));
            assert(t.take(k + 1).last() == t[k as int]);
            match slots_get(&self.slots, k) {
                Some(idx) => {
                    proof {
                        self.lemma_slot(k as int);
                    }
                    v = v.max(self.items[idx].required_version());
                },
                None => {
                    v = v.max(ProtocolVersion::V1);
                },
            }
            k = k + 1;
        }
        assert(t.take(n as int) == t);
        v
    }
}

impl MediaPlaylistBuilder {
    /// The highest protocol version that the tags set in the builder need (see
    /// [`builder_version`]).
    pub fn required_version(&self) -> (res: ProtocolVersion)
        requires
            self.wf(),
        ensures
            res == builder_version(self@),
    {
        let f = match self.has_i_frames_only {
            Some(true) => ProtocolVersion::V4,
            _ => ProtocolVersion::V1,
        };
        let s = match &self.segments {
            Some(t) => t.version(),
            None => ProtocolVersion::V1,
        };
        f.max(s)
    }
}

/// Reading a media playlist only makes segments without an explicit number.
proof fn lemma_fold_implicit(b: PlaylistBuilderView, items: Seq<Seq<char>>, k: nat)
    ensures
        media_fold(b, items, k) matches Some(st) ==> forall|i: int|
            0 <= i < st.segments.len() ==> !(#[trigger] st.segments[i]).explicit_number,
    decreases k,
{
    reveal(media_item);
    if k > 0 {
        lemma_fold_implicit(b, items, (k - 1) as nat);
        match media_fold(b, items, (k - 1) as nat) {
            Some(st) => {
                match line_kind(items[k - 1]) {
                    Some(l) => {
                        match media_step(st, l) {
                            Some(st2) => {
                                assert forall|i: int| 0 <= i < st2.segments.len() implies !(
                                #[trigger] st2.segments[i]).explicit_number by {
                                    if i < st.segments.len() {
                                        assert(st2.segments[i] == st.segments[i]);
                                    }
                                }
                            },
                            None => {},
                        }
                    },
                    None => {},
                }
            },
            None => {},
        }
    }
}

/// The segments of a media playlist read from a text are numbered by their position,
/// counted from the media sequence number.
pub proof fn lemma_parsed_numbers(b: PlaylistBuilderView, s: Seq<char>, k: int)
    requires
        media_parse(b, s) is Some,
        0 <= k < media_parse(b, s)->0.segments.len(),
    ensures
        media_parse(b, s)->0.segments[k].number == k + media_parse(b, s)->0.media_sequence,
{
    let r = after_tag(s, "#EXTM3U"@)->0;
    let its = items_of(lines_of(r));
    lemma_fold_implicit(b, its, its.len());
    let st = media_state(b, s)->0;
    lemma_table_of_implicit(st.segments, st.segments.len());
    assert(table_of(st.segments) == Seq::new(st.segments.len(), |i: int| Some(st.segments[i])));
}

/// Every key that the slots `t` hold is a key of one of their segments.
proof fn lemma_slot_keys_from(t: Seq<Option<SegmentView>>, m: int)
    requires
        0 <= m < slot_keys(t).len(),
    ensures
        exists|i: int, j: int|
            0 <= i < t.len() && t[i] is Some && 0 <= j < t[i]->0.keys.len() && slot_keys(t)[m]
                == #[trigger] t[i]->0.keys[j],
    decreases t.len(),
{
    let pre = slot_keys(t.drop_last());
    if m < pre.len() {
        lemma_slot_keys_from(t.drop_last(), m);
        let (i, j) = choose|i: int, j: int|
            0 <= i < t.drop_last().len() && t.drop_last()[i] is Some && 0 <= j
                < t.drop_last()[i]->0.keys.len() && pre[m] == #[trigger] t.drop_last()[i]->0.keys[j];
        assert(t[i] == t.drop_last()[i]);
        assert(slot_keys(t)[m] == t[i]->0.keys[j]);
    } else {
        let i = t.len() - 1;
        assert(t[i] == t.last());
        assert(t[i] is Some);
        let j = m - pre.len();
        assert(slot_keys(t)[m] == t[i]->0.keys[j]);
    }
}

/// Segments that all last at most `max` nanoseconds and whose byte ranges all have a
/// start pass the check of the segments.
proof fn lemma_scan_passes(t: Seq<Option<SegmentView>>, k: nat, max: nat)
    requires
        k <= t.len(),
        forall|i: int|
            0 <= i < t.len() && #[trigger] t[i] is Some ==> t[i]->0.duration.0.total_nanos() <= max
                && (t[i]->0.byte_range matches Some(r) ==> r.0 is Some),
    ensures
        segment_scan(t, k, max).0 is None,
    decreases k,
{
    if k > 0 {
        lemma_scan_passes(t, (k - 1) as nat, max);
        if t[k - 1] is Some {
            assert(t[k - 1]->0.duration.0.total_nanos() <= max);
        }
    }
}

/// A builder builds when it has a target duration and every slot holds a segment that
/// lasts no longer than the target duration and the allowed excess, whose byte range,
/// if any, has a start, and the first of which has no explicit number; and when the
/// keys of its segments are either all AES-128 keys or none of them is one. Whether the
/// segments are independent does not matter then.
pub proof fn lemma_build_succeeds(b: PlaylistBuilderView)
    requires
        b.target_duration is Some,
        b.segments is Some,
        forall|i: int| 0 <= i < b.segments->0.len() ==> (#[trigger] b.segments->0[i]) is Some,
        forall|i: int|
            0 <= i < b.segments->0.len() ==> (#[trigger] b.segments->0[i])->0.duration.0.total_nanos()
                <= max_nanos(b.target_duration->0, b.allowable_excess_duration),
        forall|i: int|
            0 <= i < b.segments->0.len() ==> ((#[trigger] b.segments->0[i])->0.byte_range matches Some(
                r,
            ) ==> r.0 is Some),
        b.segments->0.len() > 0 ==> !b.segments->0[0]->0.explicit_number,
        (forall|i: int, j: int|
            0 <= i < b.segments->0.len() && 0 <= j < b.segments->0[i]->0.keys.len() ==> (
            #[trigger] b.segments->0[i]->0.keys[j] matches Some(k) && k.method
                == EncryptionMethod::Aes128)) || (forall|i: int, j: int|
            0 <= i < b.segments->0.len() && 0 <= j < b.segments->0[i]->0.keys.len() ==> !(
            #[trigger] b.segments->0[i]->0.keys[j] matches Some(k) && k.method
                == EncryptionMethod::Aes128)),
    ensures
        build_failure(b) is None,
{
    let t = b.segments->0;
    let ks = slot_keys(t);
    let max = max_nanos(b.target_duration->0, b.allowable_excess_duration);
    if forall|i: int, j: int|
        0 <= i < t.len() && 0 <= j < t[i]->0.keys.len() ==> (#[trigger] t[i]->0.keys[j] matches Some(k)
            && k.method == EncryptionMethod::Aes128) {
        assert forall|m: int| 0 <= m < ks.len() implies #[trigger] is_aes128(ks[m]) by {
            lemma_slot_keys_from(t, m);
        }
    } else {
        assert forall|m: int| 0 <= m < ks.len() implies !#[trigger] is_aes128(ks[m]) by {
            lemma_slot_keys_from(t, m);
        }
    }
    assert(!independent_failure(b.has_independent_segments, t));
    lemma_scan_passes(t, t.len(), max);
    assert(validation(b.has_independent_segments, t, b.target_duration->0, b.allowable_excess_duration) is None);
    assert(all_filled(t));
    if t.len() > 0 {
        assert(t[0] is Some);
        let k = first_filled(t)->0;
        assert(k == 0) by {
            if k > 0 {
                assert(t[0] is None);
            }
        }
    }
    assert(!before_sequence(t, match b.media_sequence {
        Some(n) => n,
        None => 0,
    }));
}

} // verus!
