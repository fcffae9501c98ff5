use vstd::prelude::*;

use crate::attribute::AttrValue;
use crate::error::Error;
use crate::text::{chars_of, equals_str, push_str, string_of};

verus! {

/// The kind of media that an `#EXT-X-MEDIA` tag describes.
#[derive(Debug, Clone, Copy, PartialEq, Eq, Structural, PartialOrd, Ord, Hash)]
pub enum MediaType {
    /// Audio.
    Audio,
    /// Video.
    Video,
    /// Subtitles.
    Subtitles,
    /// Closed captions.
    ClosedCaptions,
}

impl MediaType {
    /// The name of the value in a playlist.
    pub open spec fn name(self) -> Seq<char> {
        match self {
            MediaType::Audio => "AUDIO"@,
            MediaType::Video => "VIDEO"@,
            MediaType::Subtitles => "SUBTITLES"@,
            MediaType::ClosedCaptions => "CLOSED-CAPTIONS"@,
        }
    }

    /// The value named `s`, if there is one.
    pub open spec fn spec_from_name(s: Seq<char>) -> Option<MediaType> {
        if s == "AUDIO"@ {
            Some(MediaType::Audio)
        } else if s == "VIDEO"@ {
            Some(MediaType::Video)
        } else if s == "SUBTITLES"@ {
            Some(MediaType::Subtitles)
        } else if s == "CLOSED-CAPTIONS"@ {
            Some(MediaType::ClosedCaptions)
        } else {
            None
        }
    }

    /// Reads the value from its name.
    pub fn parse_chars(v: &Vec<char>) -> (res: Result<MediaType, Error>)
        ensures
            res is Ok <==> Self::spec_from_name(v@) is Some,
            res matches Ok(x) ==> Self::spec_from_name(v@) == Some(x),
    {
        if equals_str(v, "AUDIO") {
            Ok(MediaType::Audio)
        } else if equals_str(v, "VIDEO") {
            Ok(MediaType::Video)
        } else if equals_str(v, "SUBTITLES") {
            Ok(MediaType::Subtitles)
        } else if equals_str(v, "CLOSED-CAPTIONS") {
            Ok(MediaType::ClosedCaptions)
        } else {
            Err(Error::InvalidInput)
        }
    }

    /// Reads the value from its name.
    pub fn try_from(input: &str) -> (res: Result<MediaType, Error>)
        ensures
            res is Ok <==> Self::spec_from_name(input@) is Some,
            res matches Ok(x) ==> Self::spec_from_name(input@) == Some(x),
    {
        Self::parse_chars(&chars_of(input))
    }

    /// Appends the name of the value to `out`.
    pub fn write(&self, out: &mut Vec<char>)
        ensures
            final(out)@ == old(out)@ + self.name(),
    {
        match self {
            MediaType::Audio => push_str(out, "AUDIO"),
            MediaType::Video => push_str(out, "VIDEO"),
            MediaType::Subtitles => push_str(out, "SUBTITLES"),
            MediaType::ClosedCaptions => push_str(out, "CLOSED-CAPTIONS"),
        }
    }

    /// The name of the value.
    pub fn to_string(&self) -> (res: String)
        ensures
            res@ == self.name(),
    {
        let mut out = Vec::new();
        self.write(&mut out);
        string_of(&out)
    }
}

impl AttrValue for MediaType {
    open spec fn spec_value(s: Seq<char>) -> Option<MediaType> {
        Self::spec_from_name(s)
    }

    fn parse_value(v: &Vec<char>) -> (res: Result<MediaType, Error>) {
        Self::parse_chars(v)
    }
}

/// Reading the name of a value gives the value back.
pub proof fn lemma_media_type_roundtrip(x: MediaType)
    ensures
        MediaType::spec_from_name(x.name()) == Some(x),
{
    reveal_strlit("AUDIO");
    reveal_strlit("VIDEO");
    reveal_strlit("SUBTITLES");
    reveal_strlit("CLOSED-CAPTIONS");
    assert("AUDIO"@[0] != "VIDEO"@[0]);
    assert("AUDIO"@.len() != "SUBTITLES"@.len());
    assert("AUDIO"@.len() != "CLOSED-CAPTIONS"@.len());
    assert("VIDEO"@.len() != "SUBTITLES"@.len());
    assert("VIDEO"@.len() != "CLOSED-CAPTIONS"@.len());
    assert("SUBTITLES"@.len() != "CLOSED-CAPTIONS"@.len());
}

} // verus!
