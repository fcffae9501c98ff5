//! A media segment: a chunk of the media that a media playlist lists.
use vstd::prelude::*;

use crate::error::Error;
use crate::tags::{
    date_range_text, map_text, DateRangeView, ExtInf, ExtXByteRange, ExtXDateRange, ExtXKey,
    ExtXMap, ExtXProgramDateTime, MapView,
};
use crate::text::{push_str, push_string, string_of};
use crate::types::{key_version, range_text, DecryptionKey, Duration, KeyView, ProtocolVersion};

verus! {

/// The parts of a media segment, with its text fields taken by their characters.
pub struct SegmentView {
    pub number: usize,
    pub explicit_number: bool,
    pub keys: Seq<Option<KeyView>>,
    pub map: Option<MapView>,
    pub byte_range: Option<(Option<usize>, usize)>,
    pub date_range: Option<DateRangeView>,
    pub has_discontinuity: bool,
    pub program_date_time: Option<Seq<char>>,
    pub duration: (Duration, Option<Seq<char>>),
    pub uri: Seq<char>,
}

/// The keys `ks`, each taken by its view.
pub open spec fn keys_view(ks: Seq<ExtXKey>) -> Seq<Option<KeyView>> {
    Seq::new(ks.len(), |i: int| ks[i]@)
}

/// A chunk of the media, with the tags that apply to it and its location.
#[derive(Debug, Clone, PartialEq, Eq)]
pub struct MediaSegment {
    /// The number of the segment in its playlist.
    pub number: usize,
    /// Whether the number was given explicitly, rather than by the position.
    pub explicit_number: bool,
    /// How to decrypt the segment (no key, or only empty keys, for plain segments).
    pub keys: Vec<ExtXKey>,
    /// Where the media initialization section can be found.
    pub map: Option<ExtXMap>,
    /// The part of the resource that the segment is.
    pub byte_range: Option<ExtXByteRange>,
    /// A date range that starts with this segment.
    pub date_range: Option<ExtXDateRange>,
    /// Whether a discontinuity lies between this segment and the one before it.
    pub has_discontinuity: bool,
    /// The date and time of the first sample of the segment.
    pub program_date_time: Option<ExtXProgramDateTime>,
    /// The duration and title of the segment.
    pub duration: ExtInf,
    /// The location of the segment.
    pub uri: String,
}

impl View for MediaSegment {
    type V = SegmentView;

    open spec fn view(&self) -> SegmentView {
        SegmentView {
            number: self.number,
            explicit_number: self.explicit_number,
            keys: keys_view(self.keys@),
            map: match self.map {
                Some(m) => Some(m@),
                None => None,
            },
            byte_range: match self.byte_range {
                Some(r) => Some(r.0@),
                None => None,
            },
            date_range: match self.date_range {
                Some(d) => Some(d@),
                None => None,
            },
            has_discontinuity: self.has_discontinuity,
            program_date_time: match self.program_date_time {
                Some(p) => Some(p.date_time@),
                None => None,
            },
            duration: self.duration@,
            uri: self.uri@,
        }
    }
}

/// The text `t` as a line: `t` and a line feed.
pub open spec fn line(t: Seq<char>) -> Seq<char> {
    t + seq!['\n']
}

/// The line of an `#EXTINF` tag with the given duration and title.
pub open spec fn inf_text(d: (Duration, Option<Seq<char>>)) -> Seq<char> {
    "#EXTINF:"@ + d.0.spec_to_string() + seq![','] + match d.1 {
        Some(t) => t,
        None => seq![],
    }
}

/// The line of the map of a segment, if it has one.
pub open spec fn map_part(v: SegmentView) -> Seq<char> {
    match v.map {
        Some(m) => line("#EXT-X-MAP:"@ + map_text(m.uri, m.range)),
        None => seq![],
    }
}

/// The line of the byte range of a segment, if it has one.
pub open spec fn range_part(v: SegmentView) -> Seq<char> {
    match v.byte_range {
        Some(r) => line("#EXT-X-BYTERANGE:"@ + range_text(r.0, r.1)),
        None => seq![],
    }
}

/// The line of the date range of a segment, if it has one.
pub open spec fn date_part(v: SegmentView) -> Seq<char> {
    match v.date_range {
        Some(d) => line(date_range_text(d)),
        None => seq![],
    }
}

/// The `#EXT-X-DISCONTINUITY` line, if the segment follows a discontinuity.
pub open spec fn discontinuity_part(v: SegmentView) -> Seq<char> {
    if v.has_discontinuity {
        line("#EXT-X-DISCONTINUITY"@)
    } else {
        seq![]
    }
}

/// The line of the date and time of a segment, if it has one.
pub open spec fn date_time_part(v: SegmentView) -> Seq<char> {
    match v.program_date_time {
        Some(p) => line("#EXT-X-PROGRAM-DATE-TIME:"@ + p),
        None => seq![],
    }
}

/// The lines of a segment before its `#EXTINF` tag: its map, byte range, date range,
/// discontinuity and date and time, those that it has.
pub open spec fn segment_head(v: SegmentView) -> Seq<char> {
    map_part(v) + range_part(v) + date_part(v) + discontinuity_part(v) + date_time_part(v)
}

/// The text of a segment (its keys are written by the playlist): the lines of its
/// tags, its `#EXTINF` tag and its location.
pub open spec fn segment_text(v: SegmentView) -> Seq<char> {
    segment_head(v) + line(inf_text(v.duration)) + line(v.uri)
}

/// The protocol version that an `#EXT-X-KEY` tag with the key `k` needs.
pub open spec fn key_tag_version(k: Option<KeyView>) -> ProtocolVersion {
    match k {
        Some(k) => key_version(k),
        None => ProtocolVersion::V1,
    }
}

/// The highest protocol version that the keys `ks` need (version 1 for none).
pub open spec fn keys_version(ks: Seq<Option<KeyView>>) -> ProtocolVersion
    decreases ks.len(),
{
    if ks.len() == 0 {
        ProtocolVersion::V1
    } else {
        keys_version(ks.drop_last()).spec_max(key_tag_version(ks.last()))
    }
}

/// The protocol version that an `#EXTINF` tag with the duration `d` needs: 3 for a
/// fraction of a second, else 1.
pub open spec fn inf_version(d: Duration) -> ProtocolVersion {
    if d.nanos() == 0 {
        ProtocolVersion::V1
    } else {
        ProtocolVersion::V3
    }
}

/// The highest protocol version that the tags of a segment need.
pub open spec fn segment_version(v: SegmentView) -> ProtocolVersion {
    keys_version(v.keys).spec_max(
        if v.map is Some {
            ProtocolVersion::V6
        } else {
            ProtocolVersion::V1
        },
    ).spec_max(
        if v.byte_range is Some {
            ProtocolVersion::V4
        } else {
            ProtocolVersion::V1
        },
    ).spec_max(inf_version(v.duration.0))
}

/// The keys of `ks` that are not empty.
pub open spec fn present_keys(ks: Seq<Option<KeyView>>) -> Seq<KeyView>
    decreases ks.len(),
{
    if ks.len() == 0 {
        seq![]
    } else {
        let r = present_keys(ks.drop_last());
        match ks.last() {
            Some(k) => r.push(k),
            None => r,
        }
    }
}

/// The keys of a list of `#EXT-X-KEY` tags that are not empty.
pub fn present_keys_of(keys: &Vec<ExtXKey>) -> (res: Vec<&DecryptionKey>)
    ensures
        res@.len() == present_keys(keys_view(keys@)).len(),
        forall|i: int|
            0 <= i < res@.len() ==> (#[trigger] res@[i])@ == present_keys(keys_view(keys@))[i],
{
    let mut res: Vec<&DecryptionKey> = Vec::new();
    let mut i: usize = 0;
    while i < keys.len()
        invariant
            i <= keys@.len(),
            res@.len() == present_keys(keys_view(keys@).take(i as int)).len(),
            forall|j: int|
                0 <= j < res@.len() ==> (#[trigger] res@[j])@ == present_keys(
                    keys_view(keys@).take(i as int),
                )[j],
        decreases keys@.len() - i,
    {
        let ghost ks = keys_view(keys@);
        assert(ks.take(i + 1).drop_last() == ks.take(i as int));
        assert(ks.take(i + 1).last() == keys@[i as int]@);
        match keys[i].as_ref() {
            Some(k) => {
                res.push(k);
            },
            None => {},
        }
        i = i + 1;
    }
    assert(keys_view(keys@).take(i as int) == keys_view(keys@));
    res
}

impl MediaSegment {
    /// A builder with no field set.
    pub fn builder() -> (res: MediaSegmentBuilder)
        ensures
            res.number is None && res.explicit_number is None && res.keys is None
                && res.map is None && res.byte_range is None && res.date_range is None
                && res.has_discontinuity is None && res.program_date_time is None
                && res.duration is None && res.uri is None,
    {
        MediaSegmentBuilder {
            number: None,
            explicit_number: None,
            keys: None,
            map: None,
            byte_range: None,
            date_range: None,
            has_discontinuity: None,
            program_date_time: None,
            duration: None,
            uri: None,
        }
    }

    /// The number of the segment in its playlist.
    pub fn number(&self) -> (res: usize)
        ensures
            res == self@.number,
    {
        self.number
    }

    /// The location of the segment.
    pub fn uri(&self) -> (res: &String)
        ensures
            res@ == self@.uri,
    {
        &self.uri
    }

    /// Sets the location of the segment.
    pub fn set_uri(&mut self, value: &str)
        ensures
            final(self)@ == (SegmentView { uri: value@, ..old(self)@ }),
    {
        self.uri = String::from_str(value);
    }

    /// The segment itself: it owns all its data already.
    pub fn into_owned(self) -> (res: MediaSegment)
        ensures
            res@ == self@,
    {
        self
    }

    /// The keys of the segment that are not empty.
    pub fn keys(&self) -> (res: Vec<&DecryptionKey>)
        ensures
            res@.len() == present_keys(self@.keys).len(),
            forall|i: int| 0 <= i < res@.len() ==> (#[trigger] res@[i])@ == present_keys(self@.keys)[i],
    {
        present_keys_of(&self.keys)
    }

    /// The first key of the segment that is not empty.
    pub fn first_key(&self) -> (res: Option<&DecryptionKey>)
        ensures
            present_keys(self@.keys).len() == 0 ==> res is None,
            present_keys(self@.keys).len() > 0 ==> (res matches Some(k) && k@ == present_keys(
                self@.keys,
            )[0]),
    {
        let ks = self.keys();
        if ks.len() == 0 {
            None
        } else {
            Some(ks[0])
        }
    }

    /// The number of keys of the segment that are not empty.
    pub fn len(&self) -> (res: usize)
        ensures
            res == present_keys(self@.keys).len(),
    {
        self.keys().len()
    }

    /// Whether the segment has no key that is not empty.
    pub fn is_empty(&self) -> (res: bool)
        ensures
            res == (present_keys(self@.keys).len() == 0),
    {
        self.len() == 0
    }

    /// The highest protocol version that the tags of the segment need.
    pub fn required_version(&self) -> (res: ProtocolVersion)
        ensures
            res == segment_version(self@),
    {
        let mut v = ProtocolVersion::V1;
        let mut i: usize = 0;
        while i < self.keys.len()
            invariant
                i <= self.keys@.len(),
                v == keys_version(keys_view(self.keys@).take(i as int)),
            decreases self.keys@.len() - i,
        {
            let ghost ks = keys_view(self.keys@);
            assert(ks.take(i + 1).drop_last() == ks.take(i as int));
            assert(ks.take(i + 1).last() == self.keys@[i as int]@);
            v = v.max(self.keys[i].required_version());
            i = i + 1;
        }
        assert(keys_view(self.keys@).take(i as int) == keys_view(self.keys@));
        let m = if self.map.is_some() {
            ProtocolVersion::V6
        } else {
            ProtocolVersion::V1
        };
        let b = if self.byte_range.is_some() {
            ProtocolVersion::V4
        } else {
            ProtocolVersion::V1
        };
        v.max(m).max(b).max(self.duration.required_version())
    }

    /// Appends the lines of the segment's map and byte range to `out`.
    fn write_map_range(&self, out: &mut Vec<char>)
        ensures
            final(out)@ == old(out)@ + map_part(self@) + range_part(self@),
    {
        let ghost start = out@;
        match &self.map {
            Some(m) => {
                m.write(out);
                out.push('\n');
            },
            None => {},
        }
        assert(out@ =~= start + map_part(self@));
        let ghost a = out@;
        match &self.byte_range {
            Some(r) => {
                r.write(out);
                out.push('\n');
            },
            None => {},
        }
        assert(out@ =~= a + range_part(self@));
    }

    /// Appends the lines of the segment's date range and discontinuity to `out`.
    fn write_date_discontinuity(&self, out: &mut Vec<char>)
        ensures
            final(out)@ == old(out)@ + date_part(self@) + discontinuity_part(self@),
    {
        let ghost start = out@;
        match &self.date_range {
            Some(d) => {
                d.write(out);
                out.push('\n');
            },
            None => {},
        }
        assert(out@ =~= start + date_part(self@));
        let ghost a = out@;
        if self.has_discontinuity {
            push_str(out, "#EXT-X-DISCONTINUITY");
            out.push('\n');
        }
        assert(out@ =~= a + discontinuity_part(self@));
    }

    /// Appends the line of the segment's date and time to `out`.
    fn write_date_time(&self, out: &mut Vec<char>)
        ensures
            final(out)@ == old(out)@ + date_time_part(self@),
    {
        let ghost start = out@;
        match &self.program_date_time {
            Some(p) => {
                p.write(out);
                out.push('\n');
            },
            None => {},
        }
        assert(out@ =~= start + date_time_part(self@));
    }

    /// Appends the lines of the segment's tags before its `#EXTINF` tag to `out`.
    fn write_head(&self, out: &mut Vec<char>)
        ensures
            final(out)@ == old(out)@ + segment_head(self@),
    {
        let ghost start = out@;
        self.write_map_range(out);
        self.write_date_discontinuity(out);
        self.write_date_time(out);
        assert(out@ =~= start + segment_head(self@));
    }

    /// Appends the text of the segment to `out` (its keys are written by the playlist).
    pub fn write(&self, out: &mut Vec<char>)
        ensures
            final(out)@ == old(out)@ + segment_text(self@),
    {
        let ghost start = out@;
        self.write_head(out);
        self.duration.write(out);
        out.push('\n');
        push_string(out, &self.uri);
        out.push('\n');
        assert(out@ =~= start + segment_text(self@));
    }

    /// The text of the segment.
    pub fn to_string(&self) -> (res: String)
        ensures
            res@ == segment_text(self@),
    {
        let mut out = Vec::new();
        self.write(&mut out);
        string_of(&out)
    }
}

/// A builder of a [`MediaSegment`]; the duration and the location are required.
pub struct MediaSegmentBuilder {
    pub number: Option<usize>,
    pub explicit_number: Option<bool>,
    pub keys: Option<Vec<ExtXKey>>,
    pub map: Option<ExtXMap>,
    pub byte_range: Option<ExtXByteRange>,
    pub date_range: Option<ExtXDateRange>,
    pub has_discontinuity: Option<bool>,
    pub program_date_time: Option<ExtXProgramDateTime>,
    pub duration: Option<ExtInf>,
    pub uri: Option<String>,
}

impl MediaSegmentBuilder {
    /// Sets the number of the segment; a number given here is kept by the playlist.
    pub fn number(self, value: Option<usize>) -> (res: MediaSegmentBuilder)
        ensures
            res == (MediaSegmentBuilder {
                number: value,
                explicit_number: Some(value is Some),
                ..self
            }),
    {
        MediaSegmentBuilder { number: value, explicit_number: Some(value.is_some()), ..self }
    }

    /// Sets the keys of the segment.
    pub fn keys(self, value: Vec<ExtXKey>) -> (res: MediaSegmentBuilder)
        ensures
            res == (MediaSegmentBuilder { keys: Some(value), ..self }),
    {
        MediaSegmentBuilder { keys: Some(value), ..self }
    }

    /// Adds a key to the keys of the segment.
    pub fn push_key(self, value: ExtXKey) -> (res: MediaSegmentBuilder)
        ensures
            res.keys matches Some(ks) && ks@ == match self.keys {
                Some(old) => old@,
                None => Seq::empty(),
            }.push(value),
            res == (MediaSegmentBuilder { keys: res.keys, ..self }),
    {
        let mut ks = match self.keys {
            Some(k) => k,
            None => Vec::new(),
        };
        ks.push(value);
        MediaSegmentBuilder { keys: Some(ks), ..self }
    }

    /// Sets the map of the segment.
    pub fn map(self, value: ExtXMap) -> (res: MediaSegmentBuilder)
        ensures
            res == (MediaSegmentBuilder { map: Some(value), ..self }),
    {
        MediaSegmentBuilder { map: Some(value), ..self }
    }

    /// Sets the byte range of the segment.
    pub fn byte_range(self, value: ExtXByteRange) -> (res: MediaSegmentBuilder)
        ensures
            res == (MediaSegmentBuilder { byte_range: Some(value), ..self }),
    {
        MediaSegmentBuilder { byte_range: Some(value), ..self }
    }

    /// Sets the date range of the segment.
    pub fn date_range(self, value: ExtXDateRange) -> (res: MediaSegmentBuilder)
        ensures
            res == (MediaSegmentBuilder { date_range: Some(value), ..self }),
    {
        MediaSegmentBuilder { date_range: Some(value), ..self }
    }

    /// Sets whether a discontinuity comes before the segment.
    pub fn has_discontinuity(self, value: bool) -> (res: MediaSegmentBuilder)
        ensures
            res == (MediaSegmentBuilder { has_discontinuity: Some(value), ..self }),
    {
        MediaSegmentBuilder { has_discontinuity: Some(value), ..self }
    }

    /// Sets the date and time of the segment.
    pub fn program_date_time(self, value: ExtXProgramDateTime) -> (res: MediaSegmentBuilder)
        ensures
            res == (MediaSegmentBuilder { program_date_time: Some(value), ..self }),
    {
        MediaSegmentBuilder { program_date_time: Some(value), ..self }
    }

    /// Sets the duration (and title) of the segment.
    pub fn duration(self, value: ExtInf) -> (res: MediaSegmentBuilder)
        ensures
            res == (MediaSegmentBuilder { duration: Some(value), ..self }),
    {
        MediaSegmentBuilder { duration: Some(value), ..self }
    }

    /// Sets the location of the segment.
    pub fn uri(self, value: &str) -> (res: MediaSegmentBuilder)
        ensures
            res.uri matches Some(u) && u@ == value@,
            res == (MediaSegmentBuilder { uri: res.uri, ..self }),
    {
        MediaSegmentBuilder { uri: Some(String::from_str(value)), ..self }
    }

    /// Builds the segment: the duration and the location are required; the number
    /// defaults to 0, the flags to false and the keys to none.
    pub fn build(self) -> (res: Result<MediaSegment, Error>)
        ensures
            self.duration is None ==> (res matches Err(Error::Custom(m)) && m@
                == "the field `duration` is missing for `MediaSegment`"@),
            self.duration is Some && self.uri is None ==> (res matches Err(Error::Custom(m))
                && m@ == "the field `uri` is missing for `MediaSegment`"@),
            self.duration is Some && self.uri is Some ==> (res matches Ok(s) && s@ == (
            SegmentView {
                number: match self.number {
                    Some(n) => n,
                    None => 0,
                },
                explicit_number: match self.explicit_number {
                    Some(b) => b,
                    None => false,
                },
                keys: match self.keys {
                    Some(ks) => keys_view(ks@),
                    None => Seq::empty(),
                },
                map: match self.map {
                    Some(m) => Some(m@),
                    None => None,
                },
                byte_range: match self.byte_range {
                    Some(r) => Some(r.0@),
                    None => None,
                },
                date_range: match self.date_range {
                    Some(d) => Some(d@),
                    None => None,
                },
                has_discontinuity: match self.has_discontinuity {
                    Some(b) => b,
                    None => false,
                },
                program_date_time: match self.program_date_time {
                    Some(p) => Some(p.date_time@),
                    None => None,
                },
                duration: self.duration->0@,
                uri: self.uri->0@,
            })),
    {
        let duration = match self.duration {
            Some(d) => d,
            None => {
                return Err(
                    Error::Custom(String::from_str("the field `duration` is missing for `MediaSegment`")),
                );
            },
        };
        let uri = match self.uri {
            Some(u) => u,
            None => {
                return Err(
                    Error::Custom(String::from_str("the field `uri` is missing for `MediaSegment`")),
                );
            },
        };
        let keys = match self.keys {
            Some(ks) => ks,
            None => Vec::new(),
        };
        assert(keys_view(Seq::<ExtXKey>::empty()) =~= Seq::<Option<KeyView>>::empty());
        Ok(
            MediaSegment {
                number: match self.number {
                    Some(n) => n,
                    None => 0,
                },
                explicit_number: match self.explicit_number {
                    Some(b) => b,
                    None => false,
                },
                keys,
                map: self.map,
                byte_range: self.byte_range,
                date_range: self.date_range,
                has_discontinuity: match self.has_discontinuity {
                    Some(b) => b,
                    None => false,
                },
                program_date_time: self.program_date_time,
                duration,
                uri,
            },
        )
    }
}

} // verus!
