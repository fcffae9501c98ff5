use vstd::prelude::*;

use crate::text::{chars_of, equals_str, push_quoted_string, push_str, quoted, string_of, strip_quotes, trim, trimmed, unquote};

verus! {

/// Which closed captions a variant stream uses (`CLOSED-CAPTIONS`, RFC 8216
/// section 4.3.4.2).
#[derive(Debug, Clone, PartialEq, Eq, PartialOrd, Ord, Hash)]
pub enum ClosedCaptions {
    /// The group id of the `#EXT-X-MEDIA` tags with the closed captions.
    GroupId(String),
    /// The stream has no closed captions (`NONE`).
    Absent,
}

impl View for ClosedCaptions {
    type V = Option<Seq<char>>;

    /// The group id, or nothing for `NONE`.
    open spec fn view(&self) -> Option<Seq<char>> {
        match self {
            ClosedCaptions::GroupId(g) => Some(g@),
            ClosedCaptions::Absent => None,
        }
    }
}

/// The closed captions that the text `s` names: `NONE` (once trimmed) or a group id
/// (without its double quotes).
pub open spec fn closed_captions_of_text(s: Seq<char>) -> Option<Seq<char>> {
    if trim(s) == "NONE"@ {
        None
    } else {
        Some(strip_quotes(s))
    }
}

/// The text of closed captions: the quoted group id, or `NONE`.
pub open spec fn closed_captions_text(c: Option<Seq<char>>) -> Seq<char> {
    match c {
        Some(g) => quoted(g),
        None => "NONE"@,
    }
}

impl ClosedCaptions {
    /// The closed captions of the group `value`.
    pub fn group_id(value: &str) -> (res: ClosedCaptions)
        ensures
            res@ == Some(value@),
    {
        ClosedCaptions::GroupId(String::from_str(value))
    }

    /// Whether these closed captions are those of the group `group`; `NONE` matches the
    /// group named `NONE`.
    pub fn matches_group(&self, group: &String) -> (res: bool)
        ensures
            res == (match self@ {
                Some(g) => g == group@,
                None => group@ == "NONE"@,
            }),
    {
        let gv = chars_of(group.as_str());
        match self {
            ClosedCaptions::GroupId(g) => {
                let v = chars_of(g.as_str());
                crate::text::equals_chars(&v, &gv)
            },
            ClosedCaptions::Absent => equals_str(&gv, "NONE"),
        }
    }

    /// The text of the closed captions.
    pub open spec fn spec_to_string(self) -> Seq<char> {
        closed_captions_text(self@)
    }

    /// Appends the text of the closed captions to `out`.
    pub fn write(&self, out: &mut Vec<char>)
        ensures
            final(out)@ == old(out)@ + self.spec_to_string(),
    {
        match self {
            ClosedCaptions::GroupId(g) => push_quoted_string(out, g),
            ClosedCaptions::Absent => push_str(out, "NONE"),
        }
    }

    /// The text of the closed captions.
    pub fn to_string(&self) -> (res: String)
        ensures
            res@ == self.spec_to_string(),
    {
        let mut out = Vec::new();
        self.write(&mut out);
        string_of(&out)
    }

    /// Reads closed captions from their text; every text names some.
    pub fn parse_chars(v: &Vec<char>) -> (res: ClosedCaptions)
        ensures
            res@ == closed_captions_of_text(v@),
    {
        let t = trimmed(v, 0, v.len());
        assert(v@.subrange(0, v.len() as int) == v@);
        if equals_str(&t, "NONE") {
            ClosedCaptions::Absent
        } else {
            ClosedCaptions::GroupId(string_of(&unquote(v)))
        }
    }

    /// Reads closed captions from their text.
    pub fn try_from(input: &str) -> (res: ClosedCaptions)
        ensures
            res@ == closed_captions_of_text(input@),
    {
        Self::parse_chars(&chars_of(input))
    }
}

} // verus!
