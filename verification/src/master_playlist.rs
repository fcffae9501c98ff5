//! A master playlist: the variant streams of a presentation and their renditions.
use vstd::prelude::*;

use crate::error::{debug_quoted, push_debug_quoted, Error};
use crate::line::{items, items_of, line_kind, lines, lines_of, Line, LineView, Tag, TagView};
use crate::media_segment::line;
use crate::tags::{
    associated, media_text, media_version, session_data_text, variant_text, ExtXMedia, ExtXSessionData,
    ExtXSessionKey, ExtXStart, MediaView, SessionDataTagView, VariantStream, VariantView,
};
use crate::text::{after_tag, chars_of, equals_chars, push_str, push_string, string_of, strip_tag};
use crate::types::{key_text, key_version, opt_view, ClosedCaptions, KeyView, MediaType, ProtocolVersion};

verus! {

/// The parts of a master playlist, with its text fields taken by their characters.
pub struct MasterPlaylistView {
    pub has_independent_segments: bool,
    pub start: Option<ExtXStart>,
    pub media: Seq<MediaView>,
    pub variant_streams: Seq<VariantView>,
    pub session_data: Seq<SessionDataTagView>,
    pub session_keys: Seq<KeyView>,
    pub unknown_tags: Seq<Seq<char>>,
}

/// The renditions `m`, each taken by its view.
pub open spec fn media_views(m: Seq<ExtXMedia>) -> Seq<MediaView> {
    Seq::new(m.len(), |i: int| m[i]@)
}

/// The variant streams `v`, each taken by its view.
pub open spec fn variant_views(v: Seq<VariantStream>) -> Seq<VariantView> {
    Seq::new(v.len(), |i: int| v[i]@)
}

/// The session data tags `d`, each taken by its view.
pub open spec fn session_data_views(d: Seq<ExtXSessionData>) -> Seq<SessionDataTagView> {
    Seq::new(d.len(), |i: int| d[i]@)
}

/// The session keys `k`, each taken by its view.
pub open spec fn session_key_views(k: Seq<ExtXSessionKey>) -> Seq<KeyView> {
    Seq::new(k.len(), |i: int| k[i]@)
}

/// The texts `v`, each taken by its characters.
pub open spec fn text_views(v: Seq<String>) -> Seq<Seq<char>> {
    Seq::new(v.len(), |i: int| v[i]@)
}

/// A master playlist: the variant streams of a presentation, their renditions, its
/// session data and keys.
#[derive(Debug, Clone, PartialEq, Eq)]
pub struct MasterPlaylist {
    /// Whether each segment can be decoded on its own.
    pub has_independent_segments: bool,
    /// The preferred point to start playing.
    pub start: Option<ExtXStart>,
    /// The renditions (`#EXT-X-MEDIA` tags).
    pub media: Vec<ExtXMedia>,
    /// The variant streams.
    pub variant_streams: Vec<VariantStream>,
    /// The session data.
    pub session_data: Vec<ExtXSessionData>,
    /// The session keys.
    pub session_keys: Vec<ExtXSessionKey>,
    /// The lines of the tags that are not known.
    pub unknown_tags: Vec<String>,
}

impl View for MasterPlaylist {
    type V = MasterPlaylistView;

    open spec fn view(&self) -> MasterPlaylistView {
        MasterPlaylistView {
            has_independent_segments: self.has_independent_segments,
            start: self.start,
            media: media_views(self.media@),
            variant_streams: variant_views(self.variant_streams@),
            session_data: session_data_views(self.session_data@),
            session_keys: session_key_views(self.session_keys@),
            unknown_tags: text_views(self.unknown_tags@),
        }
    }
}

/// The parts of a master playlist builder; `None` marks a field that was not set.
pub struct MasterBuilderView {
    pub has_independent_segments: Option<bool>,
    pub start: Option<ExtXStart>,
    pub media: Option<Seq<MediaView>>,
    pub variant_streams: Option<Seq<VariantView>>,
    pub session_data: Option<Seq<SessionDataTagView>>,
    pub session_keys: Option<Seq<KeyView>>,
    pub unknown_tags: Option<Seq<Seq<char>>>,
}

/// A builder of a [`MasterPlaylist`]; every field is optional.
pub struct MasterPlaylistBuilder {
    pub has_independent_segments: Option<bool>,
    pub start: Option<ExtXStart>,
    pub media: Option<Vec<ExtXMedia>>,
    pub variant_streams: Option<Vec<VariantStream>>,
    pub session_data: Option<Vec<ExtXSessionData>>,
    pub session_keys: Option<Vec<ExtXSessionKey>>,
    pub unknown_tags: Option<Vec<String>>,
}

impl View for MasterPlaylistBuilder {
    type V = MasterBuilderView;

    open spec fn view(&self) -> MasterBuilderView {
        MasterBuilderView {
            has_independent_segments: self.has_independent_segments,
            start: self.start,
            media: match self.media {
                Some(m) => Some(media_views(m@)),
                None => None,
            },
            variant_streams: match self.variant_streams {
                Some(v) => Some(variant_views(v@)),
                None => None,
            },
            session_data: match self.session_data {
                Some(d) => Some(session_data_views(d@)),
                None => None,
            },
            session_keys: match self.session_keys {
                Some(k) => Some(session_key_views(k@)),
                None => None,
            },
            unknown_tags: match self.unknown_tags {
                Some(u) => Some(text_views(u@)),
                None => None,
            },
        }
    }
}

/// The renditions of the builder `b`, none when not given.
pub open spec fn media_of(b: MasterBuilderView) -> Seq<MediaView> {
    match b.media {
        Some(m) => m,
        None => seq![],
    }
}

/// Whether one of the renditions `media` has the type `t` and the group `g`.
pub open spec fn has_group(media: Seq<MediaView>, t: MediaType, g: Seq<char>) -> bool {
    exists|i: int| 0 <= i < media.len() && #[trigger] media[i].media_type == t && media[i].group_id == g
}

/// Why the variant streams or the session data of a master playlist were refused.
pub enum MasterFailure {
    /// A variant stream names a group that no rendition of its type has.
    UnmatchedGroup(Seq<char>),
    /// A variant stream names closed captions after one said it has none.
    ClosedCaptionsNone,
    /// Two session data tags have the same id and language; the index of the second.
    Conflict(int),
}

/// The check of the group `g` (if given) of the type `t` against the renditions.
pub open spec fn group_check(media: Seq<MediaView>, t: MediaType, g: Option<Seq<char>>) -> Option<MasterFailure> {
    match g {
        Some(x) => if has_group(media, t, x) {
            None
        } else {
            Some(MasterFailure::UnmatchedGroup(x))
        },
        None => None,
    }
}

/// The check of the variant stream `v` against the renditions, where `cc_none` tells
/// whether a stream before it said it has no closed captions: the first failure and
/// whether a stream so far said so.
pub open spec fn variant_check(media: Seq<MediaView>, v: VariantView, cc_none: bool) -> (Option<MasterFailure>, bool) {
    match v {
        VariantView::StreamInf(s) => if group_check(media, MediaType::Audio, s.audio) is Some {
            (group_check(media, MediaType::Audio, s.audio), cc_none)
        } else if group_check(media, MediaType::Video, s.stream.video) is Some {
            (group_check(media, MediaType::Video, s.stream.video), cc_none)
        } else if group_check(media, MediaType::Subtitles, s.subtitles) is Some {
            (group_check(media, MediaType::Subtitles, s.subtitles), cc_none)
        } else {
            match s.closed_captions {
                Some(Some(g)) => if cc_none {
                    (Some(MasterFailure::ClosedCaptionsNone), cc_none)
                } else {
                    (group_check(media, MediaType::ClosedCaptions, Some(g)), cc_none)
                },
                Some(None) => (None, true),
                None => (None, cc_none),
            }
        },
        VariantView::IFrame(i) => (group_check(media, MediaType::Video, i.stream.video), cc_none),
    }
}

/// The check of the first `k` variant streams of `vs`, in turn.
pub open spec fn variants_scan(media: Seq<MediaView>, vs: Seq<VariantView>, k: nat) -> (Option<MasterFailure>, bool)
    decreases k,
{
    if k == 0 {
        (None, false)
    } else {
        let (f, cc) = variants_scan(media, vs, (k - 1) as nat);
        if f is Some {
            (f, cc)
        } else {
            variant_check(media, vs[k - 1], cc)
        }
    }
}

/// Whether the session data tags `a` and `b` have the same id and language.
pub open spec fn same_session(a: SessionDataTagView, b: SessionDataTagView) -> bool {
    a.data_id == b.data_id && a.language == b.language
}

/// Whether the session data tag `j` of `d` has the same id and language as one
/// before it.
pub open spec fn has_earlier(d: Seq<SessionDataTagView>, j: int) -> bool {
    0 <= j < d.len() && exists|i: int| 0 <= i < j && #[trigger] same_session(d[i], d[j])
}

/// The index of the first session data tag of `d` that has the same id and language
/// as one before it, if any.
pub open spec fn first_conflict(d: Seq<SessionDataTagView>) -> Option<int> {
    if exists|j: int| #[trigger] has_earlier(d, j) {
        Some(
            choose|j: int|
                #[trigger] has_earlier(d, j) && forall|j2: int| 0 <= j2 < j ==> !#[trigger] has_earlier(d, j2),
        )
    } else {
        None
    }
}

/// The first reason, if any, why the builder `b` cannot build a master playlist:
/// the variant streams are checked first, then the session data.
pub open spec fn master_failure(b: MasterBuilderView) -> Option<MasterFailure> {
    let media = match b.media {
        Some(m) => m,
        None => seq![],
    };
    let sd = match b.session_data {
        Some(d) => d,
        None => seq![],
    };
    if b.variant_streams is Some && variants_scan(
        media,
        b.variant_streams->0,
        b.variant_streams->0.len(),
    ).0 is Some {
        variants_scan(media, b.variant_streams->0, b.variant_streams->0.len()).0
    } else if first_conflict(sd) is Some {
        Some(MasterFailure::Conflict(first_conflict(sd)->0))
    } else {
        None
    }
}

/// The master playlist that the builder `b` builds (fields not set are empty).
pub open spec fn built_master(b: MasterBuilderView) -> MasterPlaylistView {
    MasterPlaylistView {
        has_independent_segments: b.has_independent_segments == Some(true),
        start: b.start,
        media: match b.media {
            Some(m) => m,
            None => seq![],
        },
        variant_streams: match b.variant_streams {
            Some(v) => v,
            None => seq![],
        },
        session_data: match b.session_data {
            Some(d) => d,
            None => seq![],
        },
        session_keys: match b.session_keys {
            Some(k) => k,
            None => seq![],
        },
        unknown_tags: match b.unknown_tags {
            Some(u) => u,
            None => seq![],
        },
    }
}

/// The message of a failure `f` of the builder `b`.
pub open spec fn master_failure_text(f: MasterFailure, b: MasterBuilderView) -> Option<Seq<char>> {
    match f {
        MasterFailure::UnmatchedGroup(g) => Some(unmatched_text(g)),
        MasterFailure::ClosedCaptionsNone => Some("ClosedCaptions has to be `None`"@),
        MasterFailure::Conflict(j) => Some("conflict: "@ + session_data_text(b.session_data->0[j])),
    }
}

/// Whether two texts are the same.
fn same_text(a: &String, b: &String) -> (res: bool)
    ensures
        res == (a@ == b@),
{
    equals_chars(&chars_of(a.as_str()), &chars_of(b.as_str()))
}

/// Whether two optional texts are the same.
fn same_opt_text(a: &Option<String>, b: &Option<String>) -> (res: bool)
    ensures
        res == (opt_view(*a) == opt_view(*b)),
{
    match a {
        Some(x) => match b {
            Some(y) => same_text(x, y),
            None => false,
        },
        None => b.is_none(),
    }
}

/// Whether one of the renditions `media` (none when not given) has the type `t` and
/// the group `g`.
fn check_media_group(media: &Option<Vec<ExtXMedia>>, t: MediaType, g: &String) -> (res: bool)
    ensures
        res == has_group(
            match media {
                Some(m) => media_views(m@),
                None => seq![],
            },
            t,
            g@,
        ),
{
    match media {
        Some(m) => {
            let ghost ms = media_views(m@);
            let mut i: usize = 0;
            while i < m.len()
                invariant
                    ms == media_views(m@),
                    *media == Some(*m),
                    i <= m@.len(),
                    forall|j: int| 0 <= j < i ==> !(#[trigger] ms[j].media_type == t && ms[j].group_id == g@),
                decreases m@.len() - i,
            {
                if m[i].media_type() == t && same_text(m[i].group_id(), g) {
                    assert(ms[i as int].media_type == t && ms[i as int].group_id == g@);
                    return true;
                }
                i = i + 1;
            }
            false
        },
        None => false,
    }
}

/// The message for a group `g` that no rendition has: `unmatched group: "<g>"`.
pub open spec fn unmatched_text(g: Seq<char>) -> Seq<char> {
    "unmatched group: "@ + debug_quoted(g)
}

/// The message for the group `g` that no rendition has (see [`unmatched_text`]).
fn unmatched_message(g: &String) -> (res: String)
    ensures
        res@ == unmatched_text(g@),
{
    let mut out: Vec<char> = Vec::new();
    push_str(&mut out, "unmatched group: ");
    push_debug_quoted(&mut out, g);
    string_of(&out)
}

/// The check of the group `g` (if given) of the type `t` against the renditions.
fn check_group(media: &Option<Vec<ExtXMedia>>, t: MediaType, g: Option<&String>) -> (res: Result<(), String>)
    ensures
        res is Ok <==> group_check(
            match media {
                Some(m) => media_views(m@),
                None => seq![],
            },
            t,
            opt_view(
                match g {
                    Some(x) => Some(*x),
                    None => None,
                },
            ),
        ) is None,
        group_check(
            match media {
                Some(m) => media_views(m@),
                None => seq![],
            },
            t,
            opt_view(
                match g {
                    Some(x) => Some(*x),
                    None => None,
                },
            ),
        ) matches Some(MasterFailure::UnmatchedGroup(x)) ==> (res matches Err(m) && m@ == unmatched_text(x)),
{
    match g {
        Some(x) => if check_media_group(media, t, x) {
            Ok(())
        } else {
            Err(unmatched_message(x))
        },
        None => Ok(()),
    }
}

impl MasterPlaylistBuilder {
    /// Checks the variant stream `v`, where `cc_none` tells whether a stream before it
    /// said it has no closed captions (see [`variant_check`]).
    fn check_variant(&self, v: &VariantStream, cc_none: bool) -> (res: Result<bool, String>)
        ensures
            match variant_check(
                media_of(self@),
                v@,
                cc_none,
            ) {
                (Some(f), _) => res is Err && (f is ClosedCaptionsNone ==> (res matches Err(m) && m@
                    == "ClosedCaptions has to be `None`"@)) && (f matches MasterFailure::UnmatchedGroup(
                    x,
                ) ==> (res matches Err(m) && m@ == unmatched_text(x))),
                (None, c) => res == Ok::<bool, String>(c),
            },
    {
        match v {
            VariantStream::ExtXStreamInf { audio, subtitles, closed_captions, stream_data, .. } => {
                check_group(&self.media, MediaType::Audio, audio.as_ref())?;
                check_group(&self.media, MediaType::Video, stream_data.video())?;
                check_group(&self.media, MediaType::Subtitles, subtitles.as_ref())?;
                match closed_captions {
                    Some(crate::types::ClosedCaptions::GroupId(g)) => {
                        if cc_none {
                            return Err(String::from_str("ClosedCaptions has to be `None`"));
                        }
                        check_group(&self.media, MediaType::ClosedCaptions, Some(g))?;
                        Ok(cc_none)
                    },
                    Some(crate::types::ClosedCaptions::Absent) => Ok(true),
                    None => Ok(cc_none),
                }
            },
            VariantStream::ExtXIFrame { stream_data, .. } => {
                check_group(&self.media, MediaType::Video, stream_data.video())?;
                Ok(cc_none)
            },
        }
    }

    /// Checks the variant streams in turn (see [`variants_scan`]).
    fn validate_variants(&self, vs: &Vec<VariantStream>) -> (res: Result<(), String>)
        ensures
            res is Ok <==> variants_scan(
                media_of(self@),
                variant_views(vs@),
                vs@.len(),
            ).0 is None,
            variants_scan(
                media_of(self@),
                variant_views(vs@),
                vs@.len(),
            ).0 matches Some(MasterFailure::ClosedCaptionsNone) ==> (res matches Err(m) && m@
                == "ClosedCaptions has to be `None`"@),
            variants_scan(
                media_of(self@),
                variant_views(vs@),
                vs@.len(),
            ).0 matches Some(MasterFailure::UnmatchedGroup(x)) ==> (res matches Err(m) && m@
                == unmatched_text(x)),
    {
        let ghost media = media_of(self@);
        let ghost views = variant_views(vs@);
        let mut cc = false;
        let mut i: usize = 0;
        while i < vs.len()
            invariant
                media == media_of(self@),
                views == variant_views(vs@),
                i <= vs@.len(),
                variants_scan(media, views, i as nat) == (None::<MasterFailure>, cc),
            decreases vs@.len() - i,
        {
            match self.check_variant(&vs[i], cc) {
                Ok(c) => {
                    cc = c;
                },
                Err(m) => {
                    proof {
                        lemma_variants_scan_persists(media, views, (i + 1) as nat, vs@.len());
                    }
                    return Err(m);
                },
            }
            i = i + 1;
        }
        Ok(())
    }
}

/// Once the check of the first `j` variant streams failed, the check of more fails
/// the same way.
proof fn lemma_variants_scan_persists(media: Seq<MediaView>, vs: Seq<VariantView>, j: nat, k: nat)
    requires
        j <= k,
        variants_scan(media, vs, j).0 is Some,
    ensures
        variants_scan(media, vs, k).0 == variants_scan(media, vs, j).0,
    decreases k - j,
{
    if j < k {
        lemma_variants_scan_persists(media, vs, j, (k - 1) as nat);
    }
}

/// The check of the variant streams never fails for session data.
proof fn lemma_variants_scan_no_conflict(media: Seq<MediaView>, vs: Seq<VariantView>, k: nat)
    ensures
        !(variants_scan(media, vs, k).0 matches Some(MasterFailure::Conflict(_))),
    decreases k,
{
    if k > 0 {
        lemma_variants_scan_no_conflict(media, vs, (k - 1) as nat);
    }
}

/// Checks that no two session data tags have the same id and language (see
/// [`first_conflict`]).
fn validate_session_data(d: &Option<Vec<ExtXSessionData>>) -> (res: Result<(), String>)
    ensures
        res is Ok <==> first_conflict(
            match d {
                Some(v) => session_data_views(v@),
                None => seq![],
            },
        ) is None,
        res matches Err(m) ==> m@ == "conflict: "@ + session_data_text(
            session_data_views(d->0@)[first_conflict(session_data_views(d->0@))->0],
        ),
{
    match d {
        Some(v) => {
            let ghost sd = session_data_views(v@);
            let mut j: usize = 0;
            while j < v.len()
                invariant
                    sd == session_data_views(v@),
                    *d == Some(*v),
                    j <= v@.len(),
                    forall|j2: int| 0 <= j2 < j ==> !#[trigger] has_earlier(sd, j2),
                decreases v@.len() - j,
            {
                let mut i: usize = 0;
                while i < j
                    invariant
                        sd == session_data_views(v@),
                        *d == Some(*v),
                        j < v@.len(),
                        i <= j,
                        forall|j2: int| 0 <= j2 < j ==> !#[trigger] has_earlier(sd, j2),
                        forall|i2: int| 0 <= i2 < i ==> !#[trigger] same_session(sd[i2], sd[j as int]),
                    decreases j - i,
                {
                    if same_text(v[i].data_id(), v[j].data_id()) && same_opt_text(
                        v[i].language(),
                        v[j].language(),
                    ) {
                        proof {
                            assert(same_session(sd[i as int], sd[j as int]));
                            assert(has_earlier(sd, j as int));
                            let w = choose|w: int|
                                #[trigger] has_earlier(sd, w) && forall|j2: int|
                                    0 <= j2 < w ==> !#[trigger] has_earlier(sd, j2);
                            assert(has_earlier(sd, w) && forall|j2: int|
                                0 <= j2 < w ==> !#[trigger] has_earlier(sd, j2));
                            if w < j {
                                assert(!has_earlier(sd, w));
                            }
                            if w > j {
                                assert(!has_earlier(sd, j as int));
                            }
                        }
                        let mut out: Vec<char> = Vec::new();
                        push_str(&mut out, "conflict: ");
                        v[j].write(&mut out);
                        return Err(string_of(&out));
                    }
                    i = i + 1;
                }
                assert(!has_earlier(sd, j as int));
                j = j + 1;
            }
            proof {
                if exists|w: int| #[trigger] has_earlier(sd, w) {
                    let w = choose|w: int| #[trigger] has_earlier(sd, w);
                    assert(!has_earlier(sd, w));
                }
            }
            Ok(())
        },
        None => {
            proof {
                let sd = Seq::<SessionDataTagView>::empty();
                if exists|w: int| #[trigger] has_earlier(sd, w) {
                    let w = choose|w: int| #[trigger] has_earlier(sd, w);
                    assert(!has_earlier(sd, w));
                }
            }
            Ok(())
        },
    }
}

/// A vector taken out of an option, empty when there is none.
fn media_or_empty(v: Option<Vec<ExtXMedia>>) -> (res: Vec<ExtXMedia>)
    ensures
        res@ == match v {
            Some(x) => x@,
            None => Seq::empty(),
        },
{
    match v {
        Some(x) => x,
        None => Vec::new(),
    }
}

impl MasterPlaylistBuilder {
    /// Checks the variant streams, then the session data (see [`master_failure`]).
    fn validate(&self) -> (res: Result<(), String>)
        ensures
            res is Ok <==> master_failure(self@) is None,
            master_failure(self@) matches Some(f) ==> (master_failure_text(f, self@) matches Some(m)
                ==> (res matches Err(e) && e@ == m)),
    {
        match &self.variant_streams {
            Some(vs) => {
                proof {
                    lemma_variants_scan_no_conflict(media_of(self@), variant_views(vs@), vs@.len());
                }
                self.validate_variants(vs)?;
            },
            None => {},
        }
        validate_session_data(&self.session_data)
    }

    /// Builds the master playlist (see [`master_failure`] and [`built_master`]).
    pub fn build(self) -> (res: Result<MasterPlaylist, String>)
        ensures
            res is Ok <==> master_failure(self@) is None,
            res matches Ok(p) ==> p@ == built_master(self@),
            master_failure(self@) matches Some(f) ==> (master_failure_text(f, self@) matches Some(m)
                ==> (res matches Err(e) && e@ == m)),
    {
        self.validate()?;
        let media = media_or_empty(self.media);
        let variant_streams = match self.variant_streams {
            Some(x) => x,
            None => Vec::new(),
        };
        let session_data = match self.session_data {
            Some(x) => x,
            None => Vec::new(),
        };
        let session_keys = match self.session_keys {
            Some(x) => x,
            None => Vec::new(),
        };
        let unknown_tags = match self.unknown_tags {
            Some(x) => x,
            None => Vec::new(),
        };
        let p = MasterPlaylist {
            has_independent_segments: match self.has_independent_segments {
                Some(x) => x,
                None => false,
            },
            start: self.start,
            media,
            variant_streams,
            session_data,
            session_keys,
            unknown_tags,
        };
        assert(p@.media =~= built_master(self@).media);
        assert(p@.variant_streams =~= built_master(self@).variant_streams);
        assert(p@.session_data =~= built_master(self@).session_data);
        assert(p@.session_keys =~= built_master(self@).session_keys);
        assert(p@.unknown_tags =~= built_master(self@).unknown_tags);
        Ok(p)
    }
}

/// The variant streams of `vs` for which `f` holds, in order.
pub open spec fn keep_variants(vs: Seq<VariantView>, f: spec_fn(VariantView) -> bool) -> Seq<VariantView>
    decreases vs.len(),
{
    if vs.len() == 0 {
        seq![]
    } else {
        let r = keep_variants(vs.drop_last(), f);
        if f(vs.last()) {
            r.push(vs.last())
        } else {
            r
        }
    }
}

/// The renditions of `ms` for which `f` holds, in order.
pub open spec fn keep_media(ms: Seq<MediaView>, f: spec_fn(MediaView) -> bool) -> Seq<MediaView>
    decreases ms.len(),
{
    if ms.len() == 0 {
        seq![]
    } else {
        let r = keep_media(ms.drop_last(), f);
        if f(ms.last()) {
            r.push(ms.last())
        } else {
            r
        }
    }
}

/// A stream with an audio group.
pub open spec fn audio_stream(v: VariantView) -> bool {
    v matches VariantView::StreamInf(s) && s.audio is Some
}

/// A stream with a video group.
pub open spec fn video_stream(v: VariantView) -> bool {
    match v {
        VariantView::StreamInf(s) => s.stream.video is Some,
        VariantView::IFrame(i) => i.stream.video is Some,
    }
}

/// A stream with no group id: no audio, video or subtitles group, and closed captions
/// that are absent or `NONE`.
pub open spec fn unassociated_stream(v: VariantView) -> bool {
    match v {
        VariantView::StreamInf(s) => s.audio is None && s.subtitles is None && !(s.closed_captions
            matches Some(Some(_))) && s.stream.video is None,
        VariantView::IFrame(i) => i.stream.video is None,
    }
}

/// The highest protocol version that the renditions `ms` need (version 1 for none).
pub open spec fn media_list_version(ms: Seq<MediaView>) -> ProtocolVersion
    decreases ms.len(),
{
    if ms.len() == 0 {
        ProtocolVersion::V1
    } else {
        media_list_version(ms.drop_last()).spec_max(media_version(ms.last()))
    }
}

/// The highest protocol version that the session keys `ks` need (version 1 for none).
pub open spec fn key_list_version(ks: Seq<KeyView>) -> ProtocolVersion
    decreases ks.len(),
{
    if ks.len() == 0 {
        ProtocolVersion::V1
    } else {
        key_list_version(ks.drop_last()).spec_max(key_version(ks.last()))
    }
}

/// The highest protocol version that the tags of a master playlist need: its
/// renditions and its session keys (the other tags need version 1).
pub open spec fn master_version(v: MasterPlaylistView) -> ProtocolVersion {
    media_list_version(v.media).spec_max(key_list_version(v.session_keys))
}

/// The texts `u`, each followed by a line feed.
pub open spec fn joined_lines(u: Seq<Seq<char>>) -> Seq<char>
    decreases u.len(),
{
    if u.len() == 0 {
        seq![]
    } else {
        joined_lines(u.drop_last()) + line(u.last())
    }
}

/// The first lines of a master playlist: `#EXTM3U`, its version (unless it is 1), and
/// its renditions.
pub open spec fn master_head(v: MasterPlaylistView) -> Seq<char> {
    line("#EXTM3U"@) + (if master_version(v) != ProtocolVersion::V1 {
        line("#EXT-X-VERSION:"@ + master_version(v).spec_to_string())
    } else {
        seq![]
    }) + joined_lines(Seq::new(v.media.len(), |i: int| "#EXT-X-MEDIA:"@ + media_text(v.media[i])))
}

/// The lines of the variant streams, session data and session keys.
pub open spec fn master_body(v: MasterPlaylistView) -> Seq<char> {
    joined_lines(Seq::new(v.variant_streams.len(), |i: int| variant_text(v.variant_streams[i])))
        + joined_lines(Seq::new(v.session_data.len(), |i: int| session_data_text(v.session_data[i])))
        + joined_lines(Seq::new(v.session_keys.len(), |i: int| "#EXT-X-SESSION-KEY:"@ + key_text(v.session_keys[i])))
}

/// The last lines: the flag of independent segments, the start and the unknown tags.
pub open spec fn master_tail(v: MasterPlaylistView) -> Seq<char> {
    (if v.has_independent_segments {
        line("#EXT-X-INDEPENDENT-SEGMENTS"@)
    } else {
        seq![]
    }) + (match v.start {
        Some(t) => line(t.spec_to_string()),
        None => seq![],
    }) + joined_lines(v.unknown_tags)
}

/// The text of a master playlist.
pub open spec fn master_text(v: MasterPlaylistView) -> Seq<char> {
    master_head(v) + master_body(v) + master_tail(v)
}

impl MasterPlaylist {
    /// A builder with no field set.
    pub fn builder() -> (res: MasterPlaylistBuilder)
        ensures
            res.has_independent_segments is None && res.start is None && res.media is None
                && res.variant_streams is None && res.session_data is None
                && res.session_keys is None && res.unknown_tags is None,
    {
        MasterPlaylistBuilder {
            has_independent_segments: None,
            start: None,
            media: None,
            variant_streams: None,
            session_data: None,
            session_keys: None,
            unknown_tags: None,
        }
    }

    /// The streams of `self` for which `f` holds: `which` picks the audio streams (0),
    /// the video streams (1) or the streams without groups (2).
    fn streams_where(&self, which: u8) -> (res: Vec<&VariantStream>)
        requires
            which <= 2,
        ensures
            Seq::new(res@.len(), |i: int| res@[i]@) == keep_variants(
                self@.variant_streams,
                if which == 0 {
                    |v: VariantView| audio_stream(v)
                } else if which == 1 {
                    |v: VariantView| video_stream(v)
                } else {
                    |v: VariantView| unassociated_stream(v)
                },
            ),
    {
        let ghost f: spec_fn(VariantView) -> bool = if which == 0 {
            |v: VariantView| audio_stream(v)
        } else if which == 1 {
            |v: VariantView| video_stream(v)
        } else {
            |v: VariantView| unassociated_stream(v)
        };
        let ghost vs = self@.variant_streams;
        let mut res: Vec<&VariantStream> = Vec::new();
        let mut i: usize = 0;
        while i < self.variant_streams.len()
            invariant
                vs == self@.variant_streams,
                which <= 2,
                f == if which == 0 {
                    |v: VariantView| audio_stream(v)
                } else if which == 1 {
                    |v: VariantView| video_stream(v)
                } else {
                    |v: VariantView| unassociated_stream(v)
                },
                i <= vs.len(),
                Seq::new(res@.len(), |j: int| res@[j]@) == keep_variants(vs.take(i as int), f),
            decreases vs.len() - i,
        {
            let v = &self.variant_streams[i];
            assert(vs.take(i + 1).drop_last() == vs.take(i as int));
            assert(vs.take(i + 1).last() == v@);
            let keep = match v {
                VariantStream::ExtXStreamInf { audio, subtitles, closed_captions, stream_data, .. } => {
                    if which == 0 {
                        audio.is_some()
                    } else if which == 1 {
                        stream_data.video().is_some()
                    } else {
                        let no_group = match closed_captions {
                            Some(ClosedCaptions::GroupId(_)) => false,
                            _ => true,
                        };
                        audio.is_none() && subtitles.is_none() && no_group
                            && stream_data.video().is_none()
                    }
                },
                VariantStream::ExtXIFrame { stream_data, .. } => {
                    if which == 0 {
                        false
                    } else if which == 1 {
                        stream_data.video().is_some()
                    } else {
                        stream_data.video().is_none()
                    }
                },
            };
            assert(keep == f(v@));
            let ghost before = Seq::new(res@.len(), |j: int| res@[j]@);
            if keep {
                res.push(v);
                assert(Seq::new(res@.len(), |j: int| res@[j]@) =~= before.push(v@));
            }
            i = i + 1;
        }
        assert(vs.take(i as int) == vs);
        res
    }

    /// The streams with an audio group.
    pub fn audio_streams(&self) -> (res: Vec<&VariantStream>)
        ensures
            Seq::new(res@.len(), |i: int| res@[i]@) == keep_variants(
                self@.variant_streams,
                |v: VariantView| audio_stream(v),
            ),
    {
        self.streams_where(0)
    }

    /// The streams with a video group.
    pub fn video_streams(&self) -> (res: Vec<&VariantStream>)
        ensures
            Seq::new(res@.len(), |i: int| res@[i]@) == keep_variants(
                self@.variant_streams,
                |v: VariantView| video_stream(v),
            ),
    {
        self.streams_where(1)
    }

    /// The streams with no group of renditions.
    pub fn unassociated_streams(&self) -> (res: Vec<&VariantStream>)
        ensures
            Seq::new(res@.len(), |i: int| res@[i]@) == keep_variants(
                self@.variant_streams,
                |v: VariantView| unassociated_stream(v),
            ),
    {
        self.streams_where(2)
    }

    /// The renditions that the stream `stream` uses.
    pub fn associated_with(&self, stream: &VariantStream) -> (res: Vec<&ExtXMedia>)
        ensures
            Seq::new(res@.len(), |i: int| res@[i]@) == keep_media(
                self@.media,
                |m: MediaView| associated(stream@, m),
            ),
    {
        let ghost f = |m: MediaView| associated(stream@, m);
        let ghost ms = self@.media;
        let mut res: Vec<&ExtXMedia> = Vec::new();
        let mut i: usize = 0;
        while i < self.media.len()
            invariant
                ms == self@.media,
                f == |m: MediaView| associated(stream@, m),
                i <= ms.len(),
                Seq::new(res@.len(), |j: int| res@[j]@) == keep_media(ms.take(i as int), f),
            decreases ms.len() - i,
        {
            let m = &self.media[i];
            assert(ms.take(i + 1).drop_last() == ms.take(i as int));
            assert(ms.take(i + 1).last() == m@);
            let ghost before = Seq::new(res@.len(), |j: int| res@[j]@);
            if stream.is_associated(m) {
                res.push(m);
                assert(Seq::new(res@.len(), |j: int| res@[j]@) =~= before.push(m@));
            }
            i = i + 1;
        }
        assert(ms.take(i as int) == ms);
        res
    }

    /// The playlist itself: it owns all its data already.
    pub fn into_owned(self) -> (res: MasterPlaylist)
        ensures
            res@ == self@,
    {
        self
    }

    /// The highest protocol version that the tags of the playlist need.
    pub fn required_version(&self) -> (res: ProtocolVersion)
        ensures
            res == master_version(self@),
    {
        let ghost ms = self@.media;
        let mut v = ProtocolVersion::V1;
        let mut i: usize = 0;
        while i < self.media.len()
            invariant
                ms == self@.media,
                i <= ms.len(),
                v == media_list_version(ms.take(i as int)),
            decreases ms.len() - i,
        {
            assert(ms.take(i + 1).drop_last() == ms.take(i as int));
            v = v.max(self.media[i].required_version());
            i = i + 1;
        }
        assert(ms.take(i as int) == ms);
        let ghost ks = self@.session_keys;
        let mut w = ProtocolVersion::V1;
        let mut j: usize = 0;
        while j < self.session_keys.len()
            invariant
                ks == self@.session_keys,
                j <= ks.len(),
                w == key_list_version(ks.take(j as int)),
            decreases ks.len() - j,
        {
            assert(ks.take(j + 1).drop_last() == ks.take(j as int));
            w = w.max(self.session_keys[j].required_version());
            j = j + 1;
        }
        assert(ks.take(j as int) == ks);
        v.max(w)
    }

    /// Appends the first lines of the playlist to `out`.
    fn write_head(&self, out: &mut Vec<char>)
        ensures
            final(out)@ == old(out)@ + master_head(self@),
    {
        let ghost o0 = out@;
        push_str(out, "#EXTM3U");
        out.push('\n');
        let v = self.required_version();
        let is_one = match v {
            ProtocolVersion::V1 => true,
            _ => false,
        };
        if !is_one {
            push_str(out, "#EXT-X-VERSION:");
            v.write(out);
            out.push('\n');
        }
        let ghost o1 = out@;
        let ghost ts = Seq::new(self@.media.len(), |i: int| "#EXT-X-MEDIA:"@ + media_text(self@.media[i]));
        let mut i: usize = 0;
        while i < self.media.len()
            invariant
                ts == Seq::new(self@.media.len(), |i: int| "#EXT-X-MEDIA:"@ + media_text(self@.media[i])),
                i <= ts.len(),
                out@ == o1 + joined_lines(ts.take(i as int)),
            decreases ts.len() - i,
        {
            assert(ts.take(i + 1).drop_last() == ts.take(i as int));
            self.media[i].write(out);
            out.push('\n');
            assert(out@ =~= o1 + joined_lines(ts.take(i + 1)));
            i = i + 1;
        }
        assert(ts.take(i as int) == ts);
        assert(out@ =~= o0 + master_head(self@));
    }

    /// Appends the lines of the variant streams to `out`.
    fn write_variants(&self, out: &mut Vec<char>)
        ensures
            final(out)@ == old(out)@ + joined_lines(
                Seq::new(self@.variant_streams.len(), |i: int| variant_text(self@.variant_streams[i])),
            ),
    {
        let ghost o1 = out@;
        let ghost ts = Seq::new(self@.variant_streams.len(), |i: int| variant_text(self@.variant_streams[i]));
        let mut i: usize = 0;
        while i < self.variant_streams.len()
            invariant
                ts == Seq::new(self@.variant_streams.len(), |i: int| variant_text(self@.variant_streams[i])),
                i <= ts.len(),
                out@ == o1 + joined_lines(ts.take(i as int)),
            decreases ts.len() - i,
        {
            assert(ts.take(i + 1).drop_last() == ts.take(i as int));
            self.variant_streams[i].write(out);
            out.push('\n');
            assert(out@ =~= o1 + joined_lines(ts.take(i + 1)));
            i = i + 1;
        }
        assert(ts.take(i as int) == ts);
    }

    /// Appends the lines of the session data to `out`.
    fn write_session_data(&self, out: &mut Vec<char>)
        ensures
            final(out)@ == old(out)@ + joined_lines(
                Seq::new(self@.session_data.len(), |i: int| session_data_text(self@.session_data[i])),
            ),
    {
        let ghost o1 = out@;
        let ghost ts = Seq::new(self@.session_data.len(), |i: int| session_data_text(self@.session_data[i]));
        let mut i: usize = 0;
        while i < self.session_data.len()
            invariant
                ts == Seq::new(self@.session_data.len(), |i: int| session_data_text(self@.session_data[i])),
                i <= ts.len(),
                out@ == o1 + joined_lines(ts.take(i as int)),
            decreases ts.len() - i,
        {
            assert(ts.take(i + 1).drop_last() == ts.take(i as int));
            self.session_data[i].write(out);
            out.push('\n');
            assert(out@ =~= o1 + joined_lines(ts.take(i + 1)));
            i = i + 1;
        }
        assert(ts.take(i as int) == ts);
    }

    /// Appends the lines of the session keys to `out`.
    fn write_session_keys(&self, out: &mut Vec<char>)
        ensures
            final(out)@ == old(out)@ + joined_lines(
                Seq::new(self@.session_keys.len(), |i: int| "#EXT-X-SESSION-KEY:"@ + key_text(self@.session_keys[i])),
            ),
    {
        let ghost o1 = out@;
        let ghost ts = Seq::new(self@.session_keys.len(), |i: int| "#EXT-X-SESSION-KEY:"@ + key_text(self@.session_keys[i]));
        let mut i: usize = 0;
        while i < self.session_keys.len()
            invariant
                ts == Seq::new(self@.session_keys.len(), |i: int| "#EXT-X-SESSION-KEY:"@ + key_text(self@.session_keys[i])),
                i <= ts.len(),
                out@ == o1 + joined_lines(ts.take(i as int)),
            decreases ts.len() - i,
        {
            assert(ts.take(i + 1).drop_last() == ts.take(i as int));
            self.session_keys[i].write(out);
            out.push('\n');
            assert(out@ =~= o1 + joined_lines(ts.take(i + 1)));
            i = i + 1;
        }
        assert(ts.take(i as int) == ts);
    }

    /// Appends the last lines of the playlist to `out`.
    fn write_tail(&self, out: &mut Vec<char>)
        ensures
            final(out)@ == old(out)@ + master_tail(self@),
    {
        let ghost o0 = out@;
        if self.has_independent_segments {
            push_str(out, "#EXT-X-INDEPENDENT-SEGMENTS");
            out.push('\n');
        }
        match &self.start {
            Some(t) => {
                t.write(out);
                out.push('\n');
            },
            None => {},
        }
        let ghost o1 = out@;
        let ghost u = self@.unknown_tags;
        let mut i: usize = 0;
        while i < self.unknown_tags.len()
            invariant
                u == self@.unknown_tags,
                i <= u.len(),
                out@ == o1 + joined_lines(u.take(i as int)),
            decreases u.len() - i,
        {
            assert(u.take(i + 1).drop_last() == u.take(i as int));
            push_string(out, &self.unknown_tags[i]);
            out.push('\n');
            assert(out@ =~= o1 + joined_lines(u.take(i + 1)));
            i = i + 1;
        }
        assert(u.take(i as int) == u);
        assert(out@ =~= o0 + master_tail(self@));
    }

    /// Appends the text of the playlist to `out` (see [`master_text`]).
    pub fn write(&self, out: &mut Vec<char>)
        ensures
            final(out)@ == old(out)@ + master_text(self@),
    {
        let ghost o0 = out@;
        self.write_head(out);
        self.write_variants(out);
        self.write_session_data(out);
        self.write_session_keys(out);
        self.write_tail(out);
        assert(out@ =~= o0 + master_text(self@));
    }

    /// The text of the playlist.
    pub fn to_string(&self) -> (res: String)
        ensures
            res@ == master_text(self@),
    {
        let mut out: Vec<char> = Vec::new();
        self.write(&mut out);
        string_of(&out)
    }
}

impl MasterPlaylistBuilder {
    /// Sets whether each segment can be decoded on its own.
    pub fn has_independent_segments(self, value: bool) -> (res: MasterPlaylistBuilder)
        ensures
            res@ == (MasterBuilderView { has_independent_segments: Some(value), ..self@ }),
    {
        MasterPlaylistBuilder { has_independent_segments: Some(value), ..self }
    }

    /// Sets the preferred point to start playing.
    pub fn start(self, value: ExtXStart) -> (res: MasterPlaylistBuilder)
        ensures
            res@ == (MasterBuilderView { start: Some(value), ..self@ }),
    {
        MasterPlaylistBuilder { start: Some(value), ..self }
    }

    /// Sets the renditions.
    pub fn media(self, value: Vec<ExtXMedia>) -> (res: MasterPlaylistBuilder)
        ensures
            res@ == (MasterBuilderView { media: Some(media_views(value@)), ..self@ }),
    {
        MasterPlaylistBuilder { media: Some(value), ..self }
    }

    /// Sets the variant streams.
    pub fn variant_streams(self, value: Vec<VariantStream>) -> (res: MasterPlaylistBuilder)
        ensures
            res@ == (MasterBuilderView { variant_streams: Some(variant_views(value@)), ..self@ }),
    {
        MasterPlaylistBuilder { variant_streams: Some(value), ..self }
    }

    /// Sets the session data.
    pub fn session_data(self, value: Vec<ExtXSessionData>) -> (res: MasterPlaylistBuilder)
        ensures
            res@ == (MasterBuilderView { session_data: Some(session_data_views(value@)), ..self@ }),
    {
        MasterPlaylistBuilder { session_data: Some(value), ..self }
    }

    /// Sets the session keys.
    pub fn session_keys(self, value: Vec<ExtXSessionKey>) -> (res: MasterPlaylistBuilder)
        ensures
            res@ == (MasterBuilderView { session_keys: Some(session_key_views(value@)), ..self@ }),
    {
        MasterPlaylistBuilder { session_keys: Some(value), ..self }
    }

    /// Sets the lines of the tags that are not known.
    pub fn unknown_tags(self, value: Vec<String>) -> (res: MasterPlaylistBuilder)
        ensures
            res@ == (MasterBuilderView { unknown_tags: Some(text_views(value@)), ..self@ }),
    {
        MasterPlaylistBuilder { unknown_tags: Some(value), ..self }
    }
}

/// What reading a master playlist has gathered so far.
pub struct MasterParseState {
    pub has_independent_segments: Option<bool>,
    pub start: Option<ExtXStart>,
    pub media: Seq<MediaView>,
    pub variant_streams: Seq<VariantView>,
    pub session_data: Seq<SessionDataTagView>,
    pub session_keys: Seq<KeyView>,
    pub unknown_tags: Seq<Seq<char>>,
}

/// The state after a tag `t`: the tags of media playlists are refused.
pub open spec fn master_tag_step(st: MasterParseState, t: TagView) -> Option<MasterParseState> {
    match t {
        TagView::Version(_) => Some(st),
        TagView::Media(m) => Some(MasterParseState { media: st.media.push(m), ..st }),
        TagView::Variant(v) => Some(
            MasterParseState { variant_streams: st.variant_streams.push(v), ..st },
        ),
        TagView::SessionData(d) => Some(
            MasterParseState { session_data: st.session_data.push(d), ..st },
        ),
        TagView::SessionKey(k) => Some(
            MasterParseState { session_keys: st.session_keys.push(k), ..st },
        ),
        TagView::IndependentSegments => Some(
            MasterParseState { has_independent_segments: Some(true), ..st },
        ),
        TagView::Start(x) => Some(MasterParseState { start: Some(ExtXStart::spec_from(x.0, x.1)), ..st }),
        TagView::Unknown(u) => Some(MasterParseState { unknown_tags: st.unknown_tags.push(u), ..st }),
        _ => None,
    }
}

/// The state after an item of a master playlist; none when it cannot be read or is
/// refused (a location outside a stream tag is refused).
#[verifier::opaque]
pub open spec fn master_item(st: MasterParseState, item: Seq<char>) -> Option<MasterParseState> {
    match line_kind(item) {
        Some(LineView::Tag(t)) => master_tag_step(st, t),
        Some(LineView::Comment(_)) => Some(st),
        Some(LineView::Uri(_)) => None,
        None => None,
    }
}

/// What [`master_item`] gives for an item that reads as `l`, or that cannot be read.
pub proof fn lemma_master_item(st: MasterParseState, item: Seq<char>)
    ensures
        line_kind(item) matches Some(LineView::Tag(t)) ==> master_item(st, item) == master_tag_step(st, t),
        line_kind(item) matches Some(LineView::Comment(_)) ==> master_item(st, item) == Some(st),
        line_kind(item) matches Some(LineView::Uri(_)) ==> master_item(st, item) is None,
        line_kind(item) is None ==> master_item(st, item) is None,
{
    reveal(master_item);
}

/// The state before the first item.
pub open spec fn master_initial() -> MasterParseState {
    MasterParseState {
        has_independent_segments: None,
        start: None,
        media: seq![],
        variant_streams: seq![],
        session_data: seq![],
        session_keys: seq![],
        unknown_tags: seq![],
    }
}

/// The state after the first `k` items of `items`.
pub open spec fn master_fold(items: Seq<Seq<char>>, k: nat) -> Option<MasterParseState>
    decreases k,
{
    if k == 0 {
        Some(master_initial())
    } else {
        match master_fold(items, (k - 1) as nat) {
            Some(st) => master_item(st, items[k - 1]),
            None => None,
        }
    }
}

/// Once reading stopped on an item, reading more items does not resume.
proof fn lemma_master_fold_none(items: Seq<Seq<char>>, j: nat, k: nat)
    requires
        j <= k,
        master_fold(items, j) is None,
    ensures
        master_fold(items, k) is None,
    decreases k - j,
{
    if j < k {
        lemma_master_fold_none(items, j, (k - 1) as nat);
    }
}

/// The builder that the state `st` ends in.
pub open spec fn master_builder_of(st: MasterParseState) -> MasterBuilderView {
    MasterBuilderView {
        has_independent_segments: st.has_independent_segments,
        start: st.start,
        media: Some(st.media),
        variant_streams: Some(st.variant_streams),
        session_data: Some(st.session_data),
        session_keys: Some(st.session_keys),
        unknown_tags: Some(st.unknown_tags),
    }
}

/// The master playlist that the text `s` holds: it starts with `#EXTM3U`, every item
/// is accepted, and the builder builds.
pub open spec fn master_parse(s: Seq<char>) -> Option<MasterPlaylistView> {
    match after_tag(s, "#EXTM3U"@) {
        Some(r) => match master_fold(items_of(lines_of(r)), items_of(lines_of(r)).len()) {
            Some(st) => if master_failure(master_builder_of(st)) is None {
                Some(built_master(master_builder_of(st)))
            } else {
                None
            },
            None => None,
        },
        None => None,
    }
}

/// The state of reading a master playlist.
struct MasterParser {
    has_independent_segments: Option<bool>,
    start: Option<ExtXStart>,
    media: Vec<ExtXMedia>,
    variant_streams: Vec<VariantStream>,
    session_data: Vec<ExtXSessionData>,
    session_keys: Vec<ExtXSessionKey>,
    unknown_tags: Vec<String>,
}

impl MasterParser {
    /// What the parser has gathered.
    closed spec fn view(&self) -> MasterParseState {
        MasterParseState {
            has_independent_segments: self.has_independent_segments,
            start: self.start,
            media: media_views(self.media@),
            variant_streams: variant_views(self.variant_streams@),
            session_data: session_data_views(self.session_data@),
            session_keys: session_key_views(self.session_keys@),
            unknown_tags: text_views(self.unknown_tags@),
        }
    }

    /// Reads a tag (see [`master_tag_step`]).
    #[verifier::rlimit(40)]
    fn tag(&mut self, t: Tag) -> (res: Result<(), Error>)
        ensures
            match master_tag_step(old(self).view(), t@) {
                Some(st) => res is Ok && final(self).view() == st,
                None => res is Err,
            },
    {
        let ghost st = self.view();
        match t {
            Tag::ExtXVersion(_) => {},
            Tag::ExtXMedia(x) => {
                let ghost xv = x@;
                self.media.push(x);
                assert(self.view().media =~= st.media.push(xv));
            },
            Tag::VariantStream(x) => {
                let ghost xv = x@;
                self.variant_streams.push(x);
                assert(self.view().variant_streams =~= st.variant_streams.push(xv));
            },
            Tag::ExtXSessionData(x) => {
                let ghost xv = x@;
                self.session_data.push(x);
                assert(self.view().session_data =~= st.session_data.push(xv));
            },
            Tag::ExtXSessionKey(x) => {
                let ghost xv = x@;
                self.session_keys.push(x);
                assert(self.view().session_keys =~= st.session_keys.push(xv));
            },
            Tag::ExtXIndependentSegments(_) => {
                self.has_independent_segments = Some(true);
            },
            Tag::ExtXStart(x) => {
                proof {
                    ExtXStart::lemma_from_parts(x);
                }
                self.start = Some(x);
            },
            Tag::Unknown(u) => {
                let ghost uv = u@;
                self.unknown_tags.push(u);
                assert(self.view().unknown_tags =~= st.unknown_tags.push(uv));
            },
            other => {
                let mut out: Vec<char> = Vec::new();
                tag_text(&other, &mut out);
                return Err(Error::UnexpectedTag { tag: string_of(&out) });
            },
        }
        Ok(())
    }
}

/// The text of a tag that only a media playlist may hold; nothing for other tags.
pub open spec fn media_tag_text(t: Tag) -> Seq<char> {
    match t {
        Tag::ExtInf(x) => x.spec_to_string(),
        Tag::ExtXByteRange(x) => x.spec_to_string(),
        Tag::ExtXDiscontinuity(_) => "#EXT-X-DISCONTINUITY"@,
        Tag::ExtXKey(x) => x.spec_to_string(),
        Tag::ExtXMap(x) => x.spec_to_string(),
        Tag::ExtXProgramDateTime(x) => x.spec_to_string(),
        Tag::ExtXDateRange(x) => x.spec_to_string(),
        Tag::ExtXTargetDuration(x) => x.spec_to_string(),
        Tag::ExtXMediaSequence(x) => x.spec_to_string(),
        Tag::ExtXDiscontinuitySequence(x) => x.spec_to_string(),
        Tag::ExtXEndList(_) => "#EXT-X-ENDLIST"@,
        Tag::PlaylistType(x) => x.spec_to_string(),
        Tag::ExtXIFramesOnly(_) => "#EXT-X-I-FRAMES-ONLY"@,
        _ => seq![],
    }
}

/// The text of a tag of a media playlist, for a message.
fn tag_text(t: &Tag, out: &mut Vec<char>)
    ensures
        final(out)@ == old(out)@ + media_tag_text(*t),
{
    match t {
        Tag::ExtInf(x) => x.write(out),
        Tag::ExtXByteRange(x) => x.write(out),
        Tag::ExtXDiscontinuity(_) => push_str(out, "#EXT-X-DISCONTINUITY"),
        Tag::ExtXKey(x) => x.write(out),
        Tag::ExtXMap(x) => x.write(out),
        Tag::ExtXProgramDateTime(x) => x.write(out),
        Tag::ExtXDateRange(x) => x.write(out),
        Tag::ExtXTargetDuration(x) => x.write(out),
        Tag::ExtXMediaSequence(x) => x.write(out),
        Tag::ExtXDiscontinuitySequence(x) => x.write(out),
        Tag::ExtXEndList(_) => push_str(out, "#EXT-X-ENDLIST"),
        Tag::PlaylistType(x) => x.write(out),
        Tag::ExtXIFramesOnly(_) => push_str(out, "#EXT-X-I-FRAMES-ONLY"),
        _ => {
            assert(old(out)@ + media_tag_text(*t) =~= old(out)@);
        },
    }
}

impl MasterPlaylist {
    /// Reads a master playlist from the text `input` (see [`master_parse`]).
    pub fn try_from(input: &str) -> (res: Result<MasterPlaylist, Error>)
        ensures
            res is Ok <==> master_parse(input@) is Some,
            res matches Ok(p) ==> master_parse(input@) == Some(p@),
            after_tag(input@, "#EXTM3U"@) is None ==> (res matches Err(Error::MissingTag { tag, input: i })
                && tag@ == "#EXTM3U"@ && i@ == input@),
    {
        let v = chars_of(input);
        let rest = match strip_tag(&v, "#EXTM3U") {
            Some(r) => r,
            None => {
                return Err(
                    Error::MissingTag { tag: String::from_str("#EXTM3U"), input: string_of(&v) },
                );
            },
        };
        let ls = lines(&rest);
        let its = items(&ls);
        let ghost all = items_of(lines_of(rest@));
        assert(Seq::new(ls@.len(), |i: int| ls@[i]@) =~= lines_of(rest@));
        let mut p = MasterParser {
            has_independent_segments: None,
            start: None,
            media: Vec::new(),
            variant_streams: Vec::new(),
            session_data: Vec::new(),
            session_keys: Vec::new(),
            unknown_tags: Vec::new(),
        };
        assert(p.view().media =~= Seq::<MediaView>::empty());
        assert(p.view().variant_streams =~= Seq::<VariantView>::empty());
        assert(p.view().session_data =~= Seq::<SessionDataTagView>::empty());
        assert(p.view().session_keys =~= Seq::<KeyView>::empty());
        assert(p.view().unknown_tags =~= Seq::<Seq<char>>::empty());
        assert(p.view() == master_initial());
        assert(master_parse(input@) == match master_fold(all, all.len()) {
            Some(st) => if master_failure(master_builder_of(st)) is None {
                Some(built_master(master_builder_of(st)))
            } else {
                None
            },
            None => None,
        });
        let mut i: usize = 0;
        while i < its.len()
            invariant
                after_tag(input@, "#EXTM3U"@) is Some,
                master_parse(input@) == match master_fold(all, all.len()) {
                    Some(st) => if master_failure(master_builder_of(st)) is None {
                        Some(built_master(master_builder_of(st)))
                    } else {
                        None
                    },
                    None => None,
                },
                all.len() == its@.len(),
                forall|j: int| 0 <= j < its@.len() ==> (#[trigger] its@[j])@ == all[j],
                i <= its@.len(),
                master_fold(all, i as nat) == Some(p.view()),
            decreases its@.len() - i,
        {
            proof {
                lemma_master_item(p.view(), all[i as int]);
            }
            let l = match Line::parse_chars(&its[i]) {
                Ok(l) => l,
                Err(e) => {
                    proof {
                        assert(master_fold(all, (i + 1) as nat) is None);
                        lemma_master_fold_none(all, (i + 1) as nat, all.len());
                    }
                    return Err(e);
                },
            };
            let r = match l {
                Line::Tag(t) => p.tag(t),
                Line::Comment(_) => Ok(()),
                Line::Uri(u) => {
                    let mut out: Vec<char> = Vec::new();
                    push_str(&mut out, "unexpected uri: ");
                    push_debug_quoted(&mut out, &u);
                    Err(Error::Custom(string_of(&out)))
                },
            };
            match r {
                Ok(()) => {},
                Err(e) => {
                    proof {
                        assert(master_fold(all, (i + 1) as nat) is None);
                        lemma_master_fold_none(all, (i + 1) as nat, all.len());
                    }
                    return Err(e);
                },
            }
            i = i + 1;
        }
        let b = MasterPlaylist::builder().media(p.media).variant_streams(p.variant_streams).session_data(
            p.session_data,
        ).session_keys(p.session_keys).unknown_tags(p.unknown_tags);
        let b = MasterPlaylistBuilder {
            has_independent_segments: p.has_independent_segments,
            start: p.start,
            ..b
        };
        assert(b@ == master_builder_of(master_fold(all, all.len())->0));
        match b.build() {
            Ok(pl) => Ok(pl),
            Err(m) => Err(Error::Custom(m)),
        }
    }
}

/// Every group that the variant stream `v` names is a group of a rendition of its
/// type in `media`.
pub open spec fn groups_present(media: Seq<MediaView>, v: VariantView) -> bool {
    match v {
        VariantView::StreamInf(s) => {
            &&& (s.audio matches Some(g) ==> has_group(media, MediaType::Audio, g))
            &&& (s.stream.video matches Some(g) ==> has_group(media, MediaType::Video, g))
            &&& (s.subtitles matches Some(g) ==> has_group(media, MediaType::Subtitles, g))
            &&& (s.closed_captions matches Some(Some(g)) ==> has_group(media, MediaType::ClosedCaptions, g))
        },
        VariantView::IFrame(i) => i.stream.video matches Some(g) ==> has_group(media, MediaType::Video, g),
    }
}

/// When the check of the first `n` variant streams passes, each of them names only
/// groups that renditions have.
proof fn lemma_scan_groups(media: Seq<MediaView>, vs: Seq<VariantView>, n: nat, k: int)
    requires
        variants_scan(media, vs, n).0 is None,
        0 <= k < n,
    ensures
        groups_present(media, vs[k]),
    decreases n,
{
    if k < n - 1 {
        lemma_scan_groups(media, vs, (n - 1) as nat, k);
    }
}

/// In a built master playlist every group that a variant stream names is the group of
/// a rendition of its type.
pub proof fn lemma_built_groups_present(b: MasterBuilderView, k: int)
    requires
        master_failure(b) is None,
        0 <= k < built_master(b).variant_streams.len(),
    ensures
        groups_present(built_master(b).media, built_master(b).variant_streams[k]),
{
    let vs = b.variant_streams->0;
    lemma_scan_groups(media_of(b), vs, vs.len(), k);
}

/// In a built master playlist no two session data tags have the same id and language.
pub proof fn lemma_built_session_data_unique(b: MasterBuilderView, i: int, j: int)
    requires
        master_failure(b) is None,
        0 <= i < j < built_master(b).session_data.len(),
    ensures
        !same_session(built_master(b).session_data[i], built_master(b).session_data[j]),
{
    let sd = built_master(b).session_data;
    if same_session(sd[i], sd[j]) {
        assert(has_earlier(sd, j));
    }
}

impl MasterPlaylistBuilder {
    /// The highest protocol version that the tags set in the builder need: what its
    /// renditions and its session keys need.
    pub fn required_version(&self) -> (res: ProtocolVersion)
        ensures
            res == media_list_version(media_of(self@)).spec_max(
                key_list_version(
                    match self@.session_keys {
                        Some(k) => k,
                        None => seq![],
                    },
                ),
            ),
    {
        let mut v = ProtocolVersion::V1;
        match &self.media {
            Some(ms) => {
                let ghost mv = media_views(ms@);
                let mut i: usize = 0;
                while i < ms.len()
                    invariant
                        mv == media_views(ms@),
                        i <= mv.len(),
                        v == media_list_version(mv.take(i as int)),
                    decreases mv.len() - i,
                {
                    assert(mv.take(i + 1).drop_last() == mv.take(i as int));
                    v = v.max(ms[i].required_version());
                    i = i + 1;
                }
                assert(mv.take(i as int) == mv);
            },
            None => {},
        }
        let mut w = ProtocolVersion::V1;
        match &self.session_keys {
            Some(ks) => {
                let ghost kv = session_key_views(ks@);
                let mut j: usize = 0;
                while j < ks.len()
                    invariant
                        kv == session_key_views(ks@),
                        j <= kv.len(),
                        w == key_list_version(kv.take(j as int)),
                    decreases kv.len() - j,
                {
                    assert(kv.take(j + 1).drop_last() == kv.take(j as int));
                    w = w.max(ks[j].required_version());
                    j = j + 1;
                }
                assert(kv.take(j as int) == kv);
            },
            None => {},
        }
        v.max(w)
    }
}

/// Every group that the variant stream `v` names is the group of a rendition of
/// `media` of its own type: audio, video, subtitles or closed captions.
pub open spec fn names_known_groups(media: Seq<MediaView>, v: VariantView) -> bool {
    match v {
        VariantView::StreamInf(s) => {
            &&& (s.audio matches Some(g) ==> has_group(media, MediaType::Audio, g))
            &&& (s.stream.video matches Some(g) ==> has_group(media, MediaType::Video, g))
            &&& (s.subtitles matches Some(g) ==> has_group(media, MediaType::Subtitles, g))
            &&& (s.closed_captions matches Some(Some(g)) ==> has_group(
                media,
                MediaType::ClosedCaptions,
                g,
            ))
        },
        VariantView::IFrame(i) => i.stream.video matches Some(g) ==> has_group(media, MediaType::Video, g),
    }
}

/// Whether the variant stream `v` says that it has no closed captions.
pub open spec fn says_no_captions(v: VariantView) -> bool {
    v matches VariantView::StreamInf(s) && s.closed_captions == Some(None::<Seq<char>>)
}

/// Whether the variant stream `v` names a group of closed captions.
pub open spec fn names_captions(v: VariantView) -> bool {
    v matches VariantView::StreamInf(s) && s.closed_captions matches Some(Some(_))
}

/// The check of the first `k` streams of `vs` passes, and remembers whether one of
/// them said it has no closed captions, when every stream names known groups and none
/// names closed captions after one said it has none.
proof fn lemma_variants_pass(media: Seq<MediaView>, vs: Seq<VariantView>, k: nat)
    requires
        k <= vs.len(),
        forall|i: int| 0 <= i < vs.len() ==> names_known_groups(media, #[trigger] vs[i]),
        forall|i: int, j: int|
            0 <= i < j < vs.len() && #[trigger] says_no_captions(vs[i]) ==> !#[trigger] names_captions(
                vs[j],
            ),
    ensures
        variants_scan(media, vs, k).0 is None,
        variants_scan(media, vs, k).1 == exists|i: int| 0 <= i < k && #[trigger] says_no_captions(vs[i]),
    decreases k,
{
    if k > 0 {
        lemma_variants_pass(media, vs, (k - 1) as nat);
        let v = vs[k - 1];
        assert(names_known_groups(media, v));
        let cc = variants_scan(media, vs, (k - 1) as nat).1;
        if cc {
            let i = choose|i: int| 0 <= i < k - 1 && #[trigger] says_no_captions(vs[i]);
            assert(!names_captions(vs[k - 1]));
        }
        if says_no_captions(v) {
            assert(exists|i: int| 0 <= i < k && #[trigger] says_no_captions(vs[i]));
        } else {
            assert((exists|i: int| 0 <= i < k && #[trigger] says_no_captions(vs[i])) == (exists|i: int|
                0 <= i < k - 1 && #[trigger] says_no_captions(vs[i]))) by {
                if exists|i: int| 0 <= i < k && #[trigger] says_no_captions(vs[i]) {
                    let i = choose|i: int| 0 <= i < k && #[trigger] says_no_captions(vs[i]);
                    assert(i < k - 1);
                }
            }
        }
    }
}

/// The variant streams of the builder `b`, none when not given.
pub open spec fn streams_of(b: MasterBuilderView) -> Seq<VariantView> {
    match b.variant_streams {
        Some(v) => v,
        None => seq![],
    }
}

/// The session data tags of the builder `b`, none when not given.
pub open spec fn session_data_of(b: MasterBuilderView) -> Seq<SessionDataTagView> {
    match b.session_data {
        Some(d) => d,
        None => seq![],
    }
}

/// A master playlist builds when every group that a variant stream names is the group
/// of a rendition of its own type (audio, video, subtitles, closed captions), no stream
/// names closed captions after one said it has none, and no two session data tags have
/// the same id and language.
pub proof fn lemma_master_build_succeeds(b: MasterBuilderView)
    requires
        forall|i: int|
            0 <= i < streams_of(b).len() ==> names_known_groups(media_of(b), #[trigger] streams_of(b)[i]),
        forall|i: int, j: int|
            0 <= i < j < streams_of(b).len() && #[trigger] says_no_captions(streams_of(b)[i])
                ==> !#[trigger] names_captions(streams_of(b)[j]),
        forall|i: int, j: int|
            0 <= i < j < session_data_of(b).len() ==> !(#[trigger] session_data_of(b)[i].data_id
                == #[trigger] session_data_of(b)[j].data_id && session_data_of(b)[i].language
                == session_data_of(b)[j].language),
    ensures
        master_failure(b) is None,
{
    let vs = streams_of(b);
    let sd = session_data_of(b);
    assert forall|i: int| 0 <= i < vs.len() implies names_known_groups(media_of(b), #[trigger] vs[i]) by {
        assert(names_known_groups(media_of(b), streams_of(b)[i]));
    }
    lemma_variants_pass(media_of(b), vs, vs.len());
    assert forall|j: int| !#[trigger] has_earlier(sd, j) by {
        if has_earlier(sd, j) {
            let i = choose|i: int| 0 <= i < j && #[trigger] same_session(sd[i], sd[j]);
            assert(!(session_data_of(b)[i].data_id == session_data_of(b)[j].data_id
                && session_data_of(b)[i].language == session_data_of(b)[j].language));
        }
    }
    assert(first_conflict(sd) is None);
}

} // verus!
