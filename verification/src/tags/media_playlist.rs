use vstd::prelude::*;

use crate::error::{debug_quoted, push_debug_quoted_chars, Error};
use crate::text::{
    after_tag, chars_of, dec, equals_str, expect_tag, expect_unsigned, lemma_after_tag, lemma_dec,
    parse_unsigned, push_str, push_u64, string_of,
};
use crate::traits::RequiredVersion;
use crate::types::{Duration, ProtocolVersion};

verus! {

/// Reading back the decimal text of a number gives the number.
proof fn lemma_number_body(p: Seq<char>, n: nat, max: nat)
    requires
        p.len() > 0,
        !crate::text::is_ws(p[0]),
        n <= max,
    ensures
        after_tag(p + dec(n), p) == Some(dec(n)),
        parse_unsigned(dec(n), max) == Some(n),
{
    lemma_dec(n);
    let d = dec(n);
    assert(crate::text::is_digit(d[d.len() - 1]));
    lemma_after_tag(p, d);
    assert(crate::text::unsigned_digits(d) == d);
}

/// The `#EXT-X-TARGETDURATION` tag: the longest duration of a media segment in the
/// playlist, in whole seconds.
#[derive(Debug, Clone, Copy, PartialEq, Eq, Structural, PartialOrd, Ord, Hash)]
pub struct ExtXTargetDuration(pub Duration);

impl ExtXTargetDuration {
    /// Makes a new tag; the nanoseconds of `duration` are dropped.
    pub fn new(duration: Duration) -> (res: ExtXTargetDuration)
        ensures
            res.0.secs() == duration.secs(),
            res.0.nanos() == 0,
    {
        ExtXTargetDuration(Duration::from_secs(duration.as_secs()))
    }

    /// Returns the maximum media segment duration.
    pub fn duration(&self) -> (res: Duration)
        ensures
            res == self.0,
    {
        self.0
    }

    /// This tag requires [`ProtocolVersion::V1`].
    pub fn requires_version(&self) -> (res: ProtocolVersion)
        ensures
            res == ProtocolVersion::V1,
    {
        ProtocolVersion::V1
    }

    /// The text of the tag: the whole seconds of the duration.
    pub open spec fn spec_to_string(self) -> Seq<char> {
        "#EXT-X-TARGETDURATION:"@ + dec(self.0.secs())
    }

    /// The tag that the line `s` holds.
    pub open spec fn spec_parse(s: Seq<char>) -> Option<ExtXTargetDuration> {
        match after_tag(s, "#EXT-X-TARGETDURATION:"@) {
            Some(r) => match parse_unsigned(r, u64::MAX as nat) {
                Some(n) => Some(ExtXTargetDuration(Duration::spec_new(n, 0))),
                None => None,
            },
            None => None,
        }
    }

    /// Parses the tag from the characters of a line.
    pub fn parse_chars(v: &Vec<char>) -> (res: Result<ExtXTargetDuration, Error>)
        ensures
            res is Ok <==> Self::spec_parse(v@) is Some,
            res matches Ok(t) ==> Self::spec_parse(v@) == Some(t),
    {
        let r = expect_tag(v, "#EXT-X-TARGETDURATION:")?;
        let n = expect_unsigned(&r, u64::MAX)?;
        let d = Duration::from_secs(n);
        proof {
            Duration::lemma_spec_new(n as nat, 0);
            Duration::lemma_ext(d, Duration::spec_new(n as nat, 0));
        }
        Ok(ExtXTargetDuration(d))
    }

    /// Parses the tag.
    pub fn try_from(input: &str) -> (res: Result<ExtXTargetDuration, Error>)
        ensures
            res is Ok <==> Self::spec_parse(input@) is Some,
            res matches Ok(t) ==> Self::spec_parse(input@) == Some(t),
    {
        Self::parse_chars(&chars_of(input))
    }

    /// Appends the text of the tag to `out`.
    pub fn write(&self, out: &mut Vec<char>)
        ensures
            final(out)@ == old(out)@ + self.spec_to_string(),
    {
        push_str(out, "#EXT-X-TARGETDURATION:");
        push_u64(out, self.0.as_secs());
    }

    /// The text of the tag.
    pub fn to_string(&self) -> (res: String)
        ensures
            res@ == self.spec_to_string(),
    {
        let mut out = Vec::new();
        self.write(&mut out);
        string_of(&out)
    }
}

impl RequiredVersion for ExtXTargetDuration {
    fn required_version(&self) -> (res: ProtocolVersion)
        ensures
            res == ProtocolVersion::V1,
    {
        ProtocolVersion::V1
    }
}

/// Reading the text of a target duration gives back its whole seconds.
pub proof fn lemma_target_duration_roundtrip(t: ExtXTargetDuration)
    requires
        t.0.secs() <= u64::MAX,
        t.0.nanos() == 0,
    ensures
        ExtXTargetDuration::spec_parse(t.spec_to_string()) == Some(t),
{
    reveal_strlit("#EXT-X-TARGETDURATION:");
    lemma_number_body("#EXT-X-TARGETDURATION:"@, t.0.secs(), u64::MAX as nat);
    Duration::lemma_spec_new(t.0.secs(), 0);
    Duration::lemma_ext(Duration::spec_new(t.0.secs(), 0), t.0);
}

/// The `#EXT-X-MEDIA-SEQUENCE` tag: the number of the first media segment of the
/// playlist.
#[derive(Debug, Clone, Copy, PartialEq, Eq, Structural, PartialOrd, Ord, Hash)]
pub struct ExtXMediaSequence(pub usize);

impl ExtXMediaSequence {
    /// Makes a new tag.
    pub fn new(seq_num: usize) -> (res: ExtXMediaSequence)
        ensures
            res.0 == seq_num,
    {
        ExtXMediaSequence(seq_num)
    }

    /// Returns the sequence number of the first media segment.
    pub fn seq_num(&self) -> (res: usize)
        ensures
            res == self.0,
    {
        self.0
    }

    /// This tag requires [`ProtocolVersion::V1`].
    pub fn requires_version(&self) -> (res: ProtocolVersion)
        ensures
            res == ProtocolVersion::V1,
    {
        ProtocolVersion::V1
    }

    /// The text of the tag.
    pub open spec fn spec_to_string(self) -> Seq<char> {
        "#EXT-X-MEDIA-SEQUENCE:"@ + dec(self.0 as nat)
    }

    /// The tag that the line `s` holds.
    pub open spec fn spec_parse(s: Seq<char>) -> Option<ExtXMediaSequence> {
        match after_tag(s, "#EXT-X-MEDIA-SEQUENCE:"@) {
            Some(r) => match parse_unsigned(r, usize::MAX as nat) {
                Some(n) => Some(ExtXMediaSequence(n as usize)),
                None => None,
            },
            None => None,
        }
    }

    /// Parses the tag from the characters of a line.
    pub fn parse_chars(v: &Vec<char>) -> (res: Result<ExtXMediaSequence, Error>)
        ensures
            res is Ok <==> Self::spec_parse(v@) is Some,
            res matches Ok(t) ==> Self::spec_parse(v@) == Some(t),
    {
        let r = expect_tag(v, "#EXT-X-MEDIA-SEQUENCE:")?;
        let n = expect_unsigned(&r, usize::MAX as u64)?;
        Ok(ExtXMediaSequence(n as usize))
    }

    /// Parses the tag.
    pub fn try_from(input: &str) -> (res: Result<ExtXMediaSequence, Error>)
        ensures
            res is Ok <==> Self::spec_parse(input@) is Some,
            res matches Ok(t) ==> Self::spec_parse(input@) == Some(t),
    {
        Self::parse_chars(&chars_of(input))
    }

    /// Appends the text of the tag to `out`.
    pub fn write(&self, out: &mut Vec<char>)
        ensures
            final(out)@ == old(out)@ + self.spec_to_string(),
    {
        push_str(out, "#EXT-X-MEDIA-SEQUENCE:");
        push_u64(out, self.0 as u64);
    }

    /// The text of the tag.
    pub fn to_string(&self) -> (res: String)
        ensures
            res@ == self.spec_to_string(),
    {
        let mut out = Vec::new();
        self.write(&mut out);
        string_of(&out)
    }
}

impl RequiredVersion for ExtXMediaSequence {
    fn required_version(&self) -> (res: ProtocolVersion)
        ensures
            res == ProtocolVersion::V1,
    {
        ProtocolVersion::V1
    }
}

/// Reading the text of a media sequence tag gives the tag back.
pub proof fn lemma_media_sequence_roundtrip(t: ExtXMediaSequence)
    ensures
        ExtXMediaSequence::spec_parse(t.spec_to_string()) == Some(t),
{
    reveal_strlit("#EXT-X-MEDIA-SEQUENCE:");
    lemma_number_body("#EXT-X-MEDIA-SEQUENCE:"@, t.0 as nat, usize::MAX as nat);
}

/// The `#EXT-X-DISCONTINUITY-SEQUENCE` tag: the discontinuity sequence number of the
/// first media segment of the playlist.
#[derive(Debug, Clone, Copy, PartialEq, Eq, Structural, PartialOrd, Ord, Hash)]
pub struct ExtXDiscontinuitySequence(pub usize);

impl ExtXDiscontinuitySequence {
    /// Makes a new tag.
    pub fn new(seq_num: usize) -> (res: ExtXDiscontinuitySequence)
        ensures
            res.0 == seq_num,
    {
        ExtXDiscontinuitySequence(seq_num)
    }

    /// Returns the discontinuity sequence number of the first media segment.
    pub fn seq_num(&self) -> (res: usize)
        ensures
            res == self.0,
    {
        self.0
    }

    /// This tag requires [`ProtocolVersion::V1`].
    pub fn requires_version(&self) -> (res: ProtocolVersion)
        ensures
            res == ProtocolVersion::V1,
    {
        ProtocolVersion::V1
    }

    /// The text of the tag.
    pub open spec fn spec_to_string(self) -> Seq<char> {
        "#EXT-X-DISCONTINUITY-SEQUENCE:"@ + dec(self.0 as nat)
    }

    /// The tag that the line `s` holds.
    pub open spec fn spec_parse(s: Seq<char>) -> Option<ExtXDiscontinuitySequence> {
        match after_tag(s, "#EXT-X-DISCONTINUITY-SEQUENCE:"@) {
            Some(r) => match parse_unsigned(r, usize::MAX as nat) {
                Some(n) => Some(ExtXDiscontinuitySequence(n as usize)),
                None => None,
            },
            None => None,
        }
    }

    /// Parses the tag from the characters of a line.
    pub fn parse_chars(v: &Vec<char>) -> (res: Result<ExtXDiscontinuitySequence, Error>)
        ensures
            res is Ok <==> Self::spec_parse(v@) is Some,
            res matches Ok(t) ==> Self::spec_parse(v@) == Some(t),
            after_tag(v@, "#EXT-X-DISCONTINUITY-SEQUENCE:"@) matches Some(r) ==> (parse_unsigned(
                r,
                usize::MAX as nat,
            ) is None ==> (res matches Err(Error::ParseIntError { input }) && input@ == r)),
    {
        let r = expect_tag(v, "#EXT-X-DISCONTINUITY-SEQUENCE:")?;
        let n = expect_unsigned(&r, usize::MAX as u64)?;
        Ok(ExtXDiscontinuitySequence(n as usize))
    }

    /// Parses the tag.
    pub fn try_from(input: &str) -> (res: Result<ExtXDiscontinuitySequence, Error>)
        ensures
            res is Ok <==> Self::spec_parse(input@) is Some,
            res matches Ok(t) ==> Self::spec_parse(input@) == Some(t),
    {
        Self::parse_chars(&chars_of(input))
    }

    /// Appends the text of the tag to `out`.
    pub fn write(&self, out: &mut Vec<char>)
        ensures
            final(out)@ == old(out)@ + self.spec_to_string(),
    {
        push_str(out, "#EXT-X-DISCONTINUITY-SEQUENCE:");
        push_u64(out, self.0 as u64);
    }

    /// The text of the tag.
    pub fn to_string(&self) -> (res: String)
        ensures
            res@ == self.spec_to_string(),
    {
        let mut out = Vec::new();
        self.write(&mut out);
        string_of(&out)
    }

    /// This tag requires [`ProtocolVersion::V1`].
    pub fn required_version(&self) -> (res: ProtocolVersion)
        ensures
            res == ProtocolVersion::V1,
    {
        ProtocolVersion::V1
    }
}

impl RequiredVersion for ExtXDiscontinuitySequence {
    fn required_version(&self) -> (res: ProtocolVersion)
        ensures
            res == ProtocolVersion::V1,
    {
        ProtocolVersion::V1
    }
}

/// Reading the text of a discontinuity sequence tag gives the tag back.
pub proof fn lemma_discontinuity_sequence_roundtrip(t: ExtXDiscontinuitySequence)
    ensures
        ExtXDiscontinuitySequence::spec_parse(t.spec_to_string()) == Some(t),
{
    reveal_strlit("#EXT-X-DISCONTINUITY-SEQUENCE:");
    lemma_number_body("#EXT-X-DISCONTINUITY-SEQUENCE:"@, t.0 as nat, usize::MAX as nat);
}

/// The `#EXT-X-ENDLIST` tag: no more media segments will be added to the playlist.
#[derive(Debug, Clone, Copy, PartialEq, Eq, Structural, PartialOrd, Ord, Hash)]
pub struct ExtXEndList;

impl ExtXEndList {
    /// This tag requires [`ProtocolVersion::V1`].
    pub fn requires_version(&self) -> (res: ProtocolVersion)
        ensures
            res == ProtocolVersion::V1,
    {
        ProtocolVersion::V1
    }

    /// The text of the tag.
    pub open spec fn spec_to_string(self) -> Seq<char> {
        "#EXT-X-ENDLIST"@
    }

    /// A line is the tag when it starts with `#EXT-X-ENDLIST`, once trimmed.
    pub open spec fn spec_parse(s: Seq<char>) -> Option<ExtXEndList> {
        match after_tag(s, "#EXT-X-ENDLIST"@) {
            Some(_) => Some(ExtXEndList),
            None => None,
        }
    }

    /// Parses the tag from the characters of a line.
    pub fn parse_chars(v: &Vec<char>) -> (res: Result<ExtXEndList, Error>)
        ensures
            res is Ok <==> Self::spec_parse(v@) is Some,
            res matches Ok(t) ==> Self::spec_parse(v@) == Some(t),
    {
        expect_tag(v, "#EXT-X-ENDLIST")?;
        Ok(ExtXEndList)
    }

    /// Parses the tag.
    pub fn try_from(input: &str) -> (res: Result<ExtXEndList, Error>)
        ensures
            res is Ok <==> Self::spec_parse(input@) is Some,
    {
        Self::parse_chars(&chars_of(input))
    }

    /// The text of the tag.
    pub fn to_string(&self) -> (res: String)
        ensures
            res@ == self.spec_to_string(),
    {
        String::from_str("#EXT-X-ENDLIST")
    }
}

impl RequiredVersion for ExtXEndList {
    fn required_version(&self) -> (res: ProtocolVersion)
        ensures
            res == ProtocolVersion::V1,
    {
        ProtocolVersion::V1
    }
}

/// Reading the text of `#EXT-X-ENDLIST` gives the tag back.
pub proof fn lemma_end_list_roundtrip(t: ExtXEndList)
    ensures
        ExtXEndList::spec_parse(t.spec_to_string()) == Some(t),
{
    reveal_strlit("#EXT-X-ENDLIST");
    lemma_after_tag("#EXT-X-ENDLIST"@, Seq::<char>::empty());
    assert("#EXT-X-ENDLIST"@ + Seq::<char>::empty() == "#EXT-X-ENDLIST"@);
}

/// The `#EXT-X-I-FRAMES-ONLY` tag: each media segment of the playlist holds a single
/// I-frame.
#[derive(Debug, Clone, Copy, PartialEq, Eq, Structural, PartialOrd, Ord, Hash)]
pub struct ExtXIFramesOnly;

impl ExtXIFramesOnly {
    /// This tag requires [`ProtocolVersion::V4`].
    pub fn requires_version(&self) -> (res: ProtocolVersion)
        ensures
            res == ProtocolVersion::V4,
    {
        ProtocolVersion::V4
    }

    /// This tag requires [`ProtocolVersion::V4`].
    pub fn required_version(&self) -> (res: ProtocolVersion)
        ensures
            res == ProtocolVersion::V4,
    {
        ProtocolVersion::V4
    }

    /// The text of the tag.
    pub open spec fn spec_to_string(self) -> Seq<char> {
        "#EXT-X-I-FRAMES-ONLY"@
    }

    /// A line is the tag when it starts with `#EXT-X-I-FRAMES-ONLY`, once trimmed.
    pub open spec fn spec_parse(s: Seq<char>) -> Option<ExtXIFramesOnly> {
        match after_tag(s, "#EXT-X-I-FRAMES-ONLY"@) {
            Some(_) => Some(ExtXIFramesOnly),
            None => None,
        }
    }

    /// Parses the tag from the characters of a line.
    pub fn parse_chars(v: &Vec<char>) -> (res: Result<ExtXIFramesOnly, Error>)
        ensures
            res is Ok <==> Self::spec_parse(v@) is Some,
            res matches Ok(t) ==> Self::spec_parse(v@) == Some(t),
    {
        expect_tag(v, "#EXT-X-I-FRAMES-ONLY")?;
        Ok(ExtXIFramesOnly)
    }

    /// Parses the tag.
    pub fn try_from(input: &str) -> (res: Result<ExtXIFramesOnly, Error>)
        ensures
            res is Ok <==> Self::spec_parse(input@) is Some,
    {
        Self::parse_chars(&chars_of(input))
    }

    /// The text of the tag.
    pub fn to_string(&self) -> (res: String)
        ensures
            res@ == self.spec_to_string(),
    {
        String::from_str("#EXT-X-I-FRAMES-ONLY")
    }
}

impl RequiredVersion for ExtXIFramesOnly {
    fn required_version(&self) -> (res: ProtocolVersion)
        ensures
            res == ProtocolVersion::V4,
    {
        ProtocolVersion::V4
    }
}

/// Reading the text of `#EXT-X-I-FRAMES-ONLY` gives the tag back.
pub proof fn lemma_i_frames_only_roundtrip(t: ExtXIFramesOnly)
    ensures
        ExtXIFramesOnly::spec_parse(t.spec_to_string()) == Some(t),
{
    reveal_strlit("#EXT-X-I-FRAMES-ONLY");
    lemma_after_tag("#EXT-X-I-FRAMES-ONLY"@, Seq::<char>::empty());
    assert("#EXT-X-I-FRAMES-ONLY"@ + Seq::<char>::empty() == "#EXT-X-I-FRAMES-ONLY"@);
}

/// The `#EXT-X-PLAYLIST-TYPE` tag: whether the media playlist may change.
#[derive(Debug, Clone, Copy, PartialEq, Eq, Structural, PartialOrd, Ord, Hash)]
pub enum PlaylistType {
    /// Media segments can only be added to the end of the playlist.
    Event,
    /// The playlist cannot change (video on demand).
    Vod,
}

/// The `#EXT-X-PLAYLIST-TYPE` tag.
pub type ExtXPlaylistType = PlaylistType;

impl PlaylistType {
    /// This tag requires [`ProtocolVersion::V1`].
    pub fn requires_version(&self) -> (res: ProtocolVersion)
        ensures
            res == ProtocolVersion::V1,
    {
        ProtocolVersion::V1
    }

    /// The name of the type.
    pub open spec fn name(self) -> Seq<char> {
        match self {
            PlaylistType::Event => "EVENT"@,
            PlaylistType::Vod => "VOD"@,
        }
    }

    /// The text of the tag.
    pub open spec fn spec_to_string(self) -> Seq<char> {
        "#EXT-X-PLAYLIST-TYPE:"@ + self.name()
    }

    /// The tag that the line `s` holds: `EVENT` or `VOD` after the tag.
    pub open spec fn spec_parse(s: Seq<char>) -> Option<PlaylistType> {
        match after_tag(s, "#EXT-X-PLAYLIST-TYPE:"@) {
            Some(r) => if r == "EVENT"@ {
                Some(PlaylistType::Event)
            } else if r == "VOD"@ {
                Some(PlaylistType::Vod)
            } else {
                None
            },
            None => None,
        }
    }

    /// Parses the tag from the characters of a line.
    pub fn parse_chars(v: &Vec<char>) -> (res: Result<PlaylistType, Error>)
        ensures
            res is Ok <==> Self::spec_parse(v@) is Some,
            res matches Ok(t) ==> Self::spec_parse(v@) == Some(t),
            after_tag(v@, "#EXT-X-PLAYLIST-TYPE:"@) is None ==> (res matches Err(
                Error::MissingTag { tag, input },
            ) && tag@ == "#EXT-X-PLAYLIST-TYPE:"@ && input@ == v@),
            after_tag(v@, "#EXT-X-PLAYLIST-TYPE:"@) matches Some(r) ==> (r != "EVENT"@ && r != "VOD"@
                ==> (res matches Err(Error::Custom(m)) && m@ == "Unknown playlist type: "@
                + debug_quoted(r))),
    {
        let r = expect_tag(v, "#EXT-X-PLAYLIST-TYPE:")?;
        if equals_str(&r, "EVENT") {
            Ok(PlaylistType::Event)
        } else if equals_str(&r, "VOD") {
            Ok(PlaylistType::Vod)
        } else {
            let mut m: Vec<char> = Vec::new();
            push_str(&mut m, "Unknown playlist type: ");
            push_debug_quoted_chars(&mut m, &r);
            Err(Error::Custom(string_of(&m)))
        }
    }

    /// Parses the tag.
    pub fn try_from(input: &str) -> (res: Result<PlaylistType, Error>)
        ensures
            res is Ok <==> Self::spec_parse(input@) is Some,
            res matches Ok(t) ==> Self::spec_parse(input@) == Some(t),
            after_tag(input@, "#EXT-X-PLAYLIST-TYPE:"@) matches Some(r) ==> (r != "EVENT"@ && r
                != "VOD"@ ==> (res matches Err(Error::Custom(m)) && m@ == "Unknown playlist type: "@
                + debug_quoted(r))),
    {
        Self::parse_chars(&chars_of(input))
    }

    /// Appends the text of the tag to `out`.
    pub fn write(&self, out: &mut Vec<char>)
        ensures
            final(out)@ == old(out)@ + self.spec_to_string(),
    {
        push_str(out, "#EXT-X-PLAYLIST-TYPE:");
        match self {
            PlaylistType::Event => push_str(out, "EVENT"),
            PlaylistType::Vod => push_str(out, "VOD"),
        }
    }

    /// The text of the tag.
    pub fn to_string(&self) -> (res: String)
        ensures
            res@ == self.spec_to_string(),
    {
        let mut out = Vec::new();
        self.write(&mut out);
        string_of(&out)
    }
}

impl RequiredVersion for PlaylistType {
    fn required_version(&self) -> (res: ProtocolVersion)
        ensures
            res == ProtocolVersion::V1,
    {
        ProtocolVersion::V1
    }
}

/// Reading the text of a playlist type tag gives the tag back.
pub proof fn lemma_playlist_type_roundtrip(t: PlaylistType)
    ensures
        PlaylistType::spec_parse(t.spec_to_string()) == Some(t),
{
    reveal_strlit("#EXT-X-PLAYLIST-TYPE:");
    reveal_strlit("EVENT");
    reveal_strlit("VOD");
    let n = t.name();
    assert(n.last() == 'T' || n.last() == 'D');
    lemma_after_tag("#EXT-X-PLAYLIST-TYPE:"@, n);
}

} // verus!
