//! The lines of a playlist and the tags they hold.
use vstd::prelude::*;

use crate::error::Error;
use crate::tags::{
    variant_of_text, DateRangeView, ExtInf, ExtXByteRange, ExtXDateRange,
    ExtXDiscontinuity, ExtXDiscontinuitySequence, ExtXEndList, ExtXIFramesOnly,
    ExtXIndependentSegments, ExtXKey, ExtXMap, ExtXMedia, ExtXMediaSequence, ExtXProgramDateTime,
    ExtXSessionData, ExtXSessionKey, ExtXStart, ExtXTargetDuration, ExtXVersion, MediaView,
    PlaylistType, SessionDataTagView, VariantStream, VariantView,
};
use crate::text::{
    after_tag, find_char, has_prefix, is_ws, lemma_find_char, lemma_find_char_at,
    lemma_trim_id, lemma_trim_keeps_ends, no_lf, push_chars, split_chars, split_on, starts_with,
    string_of, trim, trim_end, trim_start, trimmed,
};
use crate::types::{ByteRange, Duration, Float, KeyView};

verus! {

/// The pieces `pieces`, trimmed, without those that are blank.
pub open spec fn nonblank_lines(pieces: Seq<Seq<char>>) -> Seq<Seq<char>>
    decreases pieces.len(),
{
    if pieces.len() == 0 {
        seq![]
    } else {
        let r = nonblank_lines(pieces.drop_last());
        let t = trim(pieces.last());
        if t.len() > 0 {
            r.push(t)
        } else {
            r
        }
    }
}

/// The lines of `s` that are not blank, each trimmed.
pub open spec fn lines_of(s: Seq<char>) -> Seq<Seq<char>> {
    nonblank_lines(split_on(s, '\n'))
}

/// The items of a playlist: its lines, where an `#EXT-X-STREAM-INF` tag and the line
/// after it (joined by a line feed) make one item. A stream tag on the last line ends
/// the items.
pub open spec fn items_of(lines: Seq<Seq<char>>) -> Seq<Seq<char>>
    decreases lines.len(),
{
    if lines.len() == 0 {
        seq![]
    } else if starts_with(lines[0], "#EXT-X-STREAM-INF:"@) {
        if lines.len() >= 2 {
            seq![lines[0] + seq!['\n'] + lines[1]] + items_of(lines.skip(2))
        } else {
            seq![]
        }
    } else {
        seq![lines[0]] + items_of(lines.drop_first())
    }
}

/// The non-blank lines of `v`, each trimmed.
pub fn lines(v: &Vec<char>) -> (res: Vec<Vec<char>>)
    ensures
        res@.len() == lines_of(v@).len(),
        forall|i: int| 0 <= i < res@.len() ==> (#[trigger] res@[i])@ == lines_of(v@)[i],
{
    let pieces = split_chars(v, '\n');
    let ghost ps = split_on(v@, '\n');
    let mut res: Vec<Vec<char>> = Vec::new();
    let mut i: usize = 0;
    while i < pieces.len()
        invariant
            i <= pieces@.len(),
            ps == split_on(v@, '\n'),
            pieces@.len() == ps.len(),
            forall|k: int| 0 <= k < pieces@.len() ==> (#[trigger] pieces@[k])@ == ps[k],
            res@.len() == nonblank_lines(ps.take(i as int)).len(),
            forall|k: int|
                0 <= k < res@.len() ==> (#[trigger] res@[k])@ == nonblank_lines(ps.take(i as int))[k],
        decreases pieces@.len() - i,
    {
        let ghost t = ps.take(i + 1);
        assert(t.drop_last() == ps.take(i as int));
        assert(t.last() == ps[i as int]);
        assert(pieces@[i as int]@ == ps[i as int]);
        let line = trimmed(&pieces[i], 0, pieces[i].len());
        assert(pieces@[i as int]@.subrange(0, pieces@[i as int]@.len() as int) == ps[i as int]);
        if line.len() > 0 {
            res.push(line);
        }
        i = i + 1;
    }
    assert(ps.take(i as int) == ps);
    res
}

/// The items of the lines `ls` (see [`items_of`]).
pub fn items(ls: &Vec<Vec<char>>) -> (res: Vec<Vec<char>>)
    ensures
        res@.len() == items_of(Seq::new(ls@.len(), |i: int| ls@[i]@)).len(),
        forall|i: int|
            0 <= i < res@.len() ==> (#[trigger] res@[i])@ == items_of(
                Seq::new(ls@.len(), |j: int| ls@[j]@),
            )[i],
{
    let ghost all = Seq::new(ls@.len(), |j: int| ls@[j]@);
    let mut res: Vec<Vec<char>> = Vec::new();
    let mut i: usize = 0;
    assert(all.skip(0) == all);
    assert(items_of(all).skip(0) == items_of(all));
    while i < ls.len()
        invariant
            i <= ls@.len(),
            all == Seq::new(ls@.len(), |j: int| ls@[j]@),
            res@.len() + items_of(all.skip(i as int)).len() == items_of(all).len(),
            items_of(all.skip(i as int)) == items_of(all).skip(res@.len() as int),
            forall|k: int| 0 <= k < res@.len() ==> (#[trigger] res@[k])@ == items_of(all)[k],
        decreases ls@.len() - i,
    {
        let ghost rest = all.skip(i as int);
        let ghost its = items_of(all);
        assert(rest[0] == ls@[i as int]@);
        if has_prefix(&ls[i], "#EXT-X-STREAM-INF:") {
            if i + 1 >= ls.len() {
                assert(items_of(rest).len() == 0);
                assert(all.skip(ls@.len() as int).len() == 0);
                assert(items_of(all.skip(ls@.len() as int)) =~= items_of(rest));
                i = ls.len();
                continue;
            }
            let mut item: Vec<char> = Vec::new();
            push_chars(&mut item, &ls[i]);
            item.push('\n');
            push_chars(&mut item, &ls[i + 1]);
            proof {
                assert(rest[1] == ls@[i + 1]@);
                assert(rest.skip(2) == all.skip(i + 2));
                assert(its.skip(res@.len() as int)[0] == its[res@.len() as int]);
                assert(its.skip(res@.len() as int).drop_first() == its.skip(res@.len() as int + 1));
                assert((seq![rest[0] + seq!['\n'] + rest[1]] + items_of(rest.skip(2))).drop_first()
                    == items_of(rest.skip(2)));
            }
            res.push(item);
            i = i + 2;
        } else {
            proof {
                assert(rest.drop_first() == all.skip(i + 1));
                assert(its.skip(res@.len() as int)[0] == its[res@.len() as int]);
                assert(its.skip(res@.len() as int).drop_first() == its.skip(res@.len() as int + 1));
                assert((seq![rest[0]] + items_of(rest.drop_first())).drop_first() == items_of(
                    rest.drop_first(),
                ));
            }
            let mut item: Vec<char> = Vec::new();
            push_chars(&mut item, &ls[i]);
            res.push(item);
            i = i + 1;
        }
    }
    assert(res@.len() == items_of(all).len()) by {
        if i >= ls@.len() {
            assert(all.skip(i as int).len() == 0);
        }
    }
    res
}

/// A tag of a playlist, taken by its parts.
pub enum TagView {
    Version(ExtXVersion),
    Inf((Duration, Option<Seq<char>>)),
    ByteRange((Option<usize>, usize)),
    Discontinuity,
    Key(Option<KeyView>),
    InitMap((Seq<char>, Option<ByteRange>)),
    ProgramDateTime(Seq<char>),
    DateRange(DateRangeView),
    TargetDuration(ExtXTargetDuration),
    MediaSequence(ExtXMediaSequence),
    DiscontinuitySequence(ExtXDiscontinuitySequence),
    EndList,
    PlaylistType(PlaylistType),
    IFramesOnly,
    Media(MediaView),
    Variant(VariantView),
    SessionData(SessionDataTagView),
    SessionKey(KeyView),
    IndependentSegments,
    Start((Float, bool)),
    Unknown(Seq<char>),
}

/// A tag of a playlist.
#[derive(Debug, Clone, PartialEq, Eq)]
pub enum Tag {
    ExtXVersion(ExtXVersion),
    ExtInf(ExtInf),
    ExtXByteRange(ExtXByteRange),
    ExtXDiscontinuity(ExtXDiscontinuity),
    ExtXKey(ExtXKey),
    ExtXMap(ExtXMap),
    ExtXProgramDateTime(ExtXProgramDateTime),
    ExtXDateRange(ExtXDateRange),
    ExtXTargetDuration(ExtXTargetDuration),
    ExtXMediaSequence(ExtXMediaSequence),
    ExtXDiscontinuitySequence(ExtXDiscontinuitySequence),
    ExtXEndList(ExtXEndList),
    PlaylistType(PlaylistType),
    ExtXIFramesOnly(ExtXIFramesOnly),
    ExtXMedia(ExtXMedia),
    VariantStream(VariantStream),
    ExtXSessionData(ExtXSessionData),
    ExtXSessionKey(ExtXSessionKey),
    ExtXIndependentSegments(ExtXIndependentSegments),
    ExtXStart(ExtXStart),
    Unknown(String),
}

impl View for Tag {
    type V = TagView;

    open spec fn view(&self) -> TagView {
        match self {
            Tag::ExtXVersion(t) => TagView::Version(*t),
            Tag::ExtInf(t) => TagView::Inf(t@),
            Tag::ExtXByteRange(t) => TagView::ByteRange(t.0@),
            Tag::ExtXDiscontinuity(_) => TagView::Discontinuity,
            Tag::ExtXKey(t) => TagView::Key(t@),
            Tag::ExtXMap(t) => TagView::InitMap((t@.uri, t@.range)),
            Tag::ExtXProgramDateTime(t) => TagView::ProgramDateTime(t.date_time@),
            Tag::ExtXDateRange(t) => TagView::DateRange(t@),
            Tag::ExtXTargetDuration(t) => TagView::TargetDuration(*t),
            Tag::ExtXMediaSequence(t) => TagView::MediaSequence(*t),
            Tag::ExtXDiscontinuitySequence(t) => TagView::DiscontinuitySequence(*t),
            Tag::ExtXEndList(_) => TagView::EndList,
            Tag::PlaylistType(t) => TagView::PlaylistType(*t),
            Tag::ExtXIFramesOnly(_) => TagView::IFramesOnly,
            Tag::ExtXMedia(t) => TagView::Media(t@),
            Tag::VariantStream(t) => TagView::Variant(t@),
            Tag::ExtXSessionData(t) => TagView::SessionData(t@),
            Tag::ExtXSessionKey(t) => TagView::SessionKey(t@),
            Tag::ExtXIndependentSegments(_) => TagView::IndependentSegments,
            Tag::ExtXStart(t) => TagView::Start((t.offset(), t.precise())),
            Tag::Unknown(s) => TagView::Unknown(s@),
        }
    }
}

/// The tag that the line `s` (which starts with `#EXT`) holds, chosen by the start of
/// the line; a line that no tag starts is an unknown tag.
pub open spec fn tag_of(s: Seq<char>) -> Option<TagView> {
    if starts_with(s, "#EXT-X-VERSION:"@) {
        match ExtXVersion::spec_parse(s) {
            Some(t) => Some(TagView::Version(t)),
            None => None,
        }
    } else if starts_with(s, "#EXTINF:"@) {
        match ExtInf::spec_parse(s) {
            Some(t) => Some(TagView::Inf(t)),
            None => None,
        }
    } else if starts_with(s, "#EXT-X-BYTERANGE:"@) {
        match ExtXByteRange::spec_parse(s) {
            Some(t) => Some(TagView::ByteRange(t)),
            None => None,
        }
    } else if starts_with(s, "#EXT-X-DISCONTINUITY-SEQUENCE:"@) {
        match ExtXDiscontinuitySequence::spec_parse(s) {
            Some(t) => Some(TagView::DiscontinuitySequence(t)),
            None => None,
        }
    } else if starts_with(s, "#EXT-X-DISCONTINUITY"@) {
        if s == "#EXT-X-DISCONTINUITY"@ {
            Some(TagView::Discontinuity)
        } else {
            None
        }
    } else if starts_with(s, "#EXT-X-KEY:"@) {
        match ExtXKey::spec_parse(s) {
            Some(t) => Some(TagView::Key(t)),
            None => None,
        }
    } else if starts_with(s, "#EXT-X-MAP:"@) {
        match ExtXMap::spec_parse(s) {
            Some(t) => Some(TagView::InitMap(t)),
            None => None,
        }
    } else if starts_with(s, "#EXT-X-PROGRAM-DATE-TIME:"@) {
        match ExtXProgramDateTime::spec_parse(s) {
            Some(t) => Some(TagView::ProgramDateTime(t)),
            None => None,
        }
    } else if starts_with(s, "#EXT-X-TARGETDURATION:"@) {
        match ExtXTargetDuration::spec_parse(s) {
            Some(t) => Some(TagView::TargetDuration(t)),
            None => None,
        }
    } else if starts_with(s, "#EXT-X-DATERANGE:"@) {
        match ExtXDateRange::spec_parse(s) {
            Some(t) => Some(TagView::DateRange(t)),
            None => None,
        }
    } else if starts_with(s, "#EXT-X-MEDIA-SEQUENCE:"@) {
        match ExtXMediaSequence::spec_parse(s) {
            Some(t) => Some(TagView::MediaSequence(t)),
            None => None,
        }
    } else if starts_with(s, "#EXT-X-ENDLIST"@) {
        match ExtXEndList::spec_parse(s) {
            Some(_) => Some(TagView::EndList),
            None => None,
        }
    } else if starts_with(s, "#EXT-X-PLAYLIST-TYPE:"@) {
        match PlaylistType::spec_parse(s) {
            Some(t) => Some(TagView::PlaylistType(t)),
            None => None,
        }
    } else if starts_with(s, "#EXT-X-I-FRAMES-ONLY"@) {
        match ExtXIFramesOnly::spec_parse(s) {
            Some(_) => Some(TagView::IFramesOnly),
            None => None,
        }
    } else if starts_with(s, "#EXT-X-MEDIA:"@) {
        match ExtXMedia::spec_parse(s) {
            Some(t) => Some(TagView::Media(t)),
            None => None,
        }
    } else if starts_with(s, "#EXT-X-I-FRAME-STREAM-INF:"@) || starts_with(
        s,
        "#EXT-X-STREAM-INF:"@,
    ) {
        match variant_of_text(s) {
            Some(t) => Some(TagView::Variant(t)),
            None => None,
        }
    } else if starts_with(s, "#EXT-X-SESSION-DATA:"@) {
        match ExtXSessionData::spec_parse(s) {
            Some(t) => Some(TagView::SessionData(t)),
            None => None,
        }
    } else if starts_with(s, "#EXT-X-SESSION-KEY:"@) {
        match ExtXSessionKey::spec_parse(s) {
            Some(t) => Some(TagView::SessionKey(t)),
            None => None,
        }
    } else if starts_with(s, "#EXT-X-INDEPENDENT-SEGMENTS"@) {
        match ExtXIndependentSegments::spec_parse(s) {
            Some(_) => Some(TagView::IndependentSegments),
            None => None,
        }
    } else if starts_with(s, "#EXT-X-START:"@) {
        match ExtXStart::spec_parse(s) {
            Some(t) => Some(TagView::Start(t)),
            None => None,
        }
    } else {
        Some(TagView::Unknown(s))
    }
}

impl Tag {
    /// Parses the tag that the line `v` holds (see [`tag_of`]).
    pub fn parse_chars(v: &Vec<char>) -> (res: Result<Tag, Error>)
        ensures
            res is Ok <==> tag_of(v@) is Some,
            res matches Ok(t) ==> tag_of(v@) == Some(t@),
    {
        if has_prefix(v, "#EXT-X-VERSION:") {
            Ok(Tag::ExtXVersion(ExtXVersion::parse_chars(v)?))
        } else if has_prefix(v, "#EXTINF:") {
            Ok(Tag::ExtInf(ExtInf::parse_chars(v)?))
        } else if has_prefix(v, "#EXT-X-BYTERANGE:") {
            Ok(Tag::ExtXByteRange(ExtXByteRange::parse_chars(v)?))
        } else if has_prefix(v, "#EXT-X-DISCONTINUITY-SEQUENCE:") {
            Ok(Tag::ExtXDiscontinuitySequence(ExtXDiscontinuitySequence::parse_chars(v)?))
        } else if has_prefix(v, "#EXT-X-DISCONTINUITY") {
            Ok(Tag::ExtXDiscontinuity(ExtXDiscontinuity::parse_chars(v)?))
        } else if has_prefix(v, "#EXT-X-KEY:") {
            Ok(Tag::ExtXKey(ExtXKey::parse_chars(v)?))
        } else if has_prefix(v, "#EXT-X-MAP:") {
            Ok(Tag::ExtXMap(ExtXMap::parse_chars(v)?))
        } else if has_prefix(v, "#EXT-X-PROGRAM-DATE-TIME:") {
            Ok(Tag::ExtXProgramDateTime(ExtXProgramDateTime::parse_chars(v)?))
        } else if has_prefix(v, "#EXT-X-TARGETDURATION:") {
            Ok(Tag::ExtXTargetDuration(ExtXTargetDuration::parse_chars(v)?))
        } else if has_prefix(v, "#EXT-X-DATERANGE:") {
            Ok(Tag::ExtXDateRange(ExtXDateRange::parse_chars(v)?))
        } else if has_prefix(v, "#EXT-X-MEDIA-SEQUENCE:") {
            Ok(Tag::ExtXMediaSequence(ExtXMediaSequence::parse_chars(v)?))
        } else if has_prefix(v, "#EXT-X-ENDLIST") {
            Ok(Tag::ExtXEndList(ExtXEndList::parse_chars(v)?))
        } else if has_prefix(v, "#EXT-X-PLAYLIST-TYPE:") {
            Ok(Tag::PlaylistType(PlaylistType::parse_chars(v)?))
        } else if has_prefix(v, "#EXT-X-I-FRAMES-ONLY") {
            Ok(Tag::ExtXIFramesOnly(ExtXIFramesOnly::parse_chars(v)?))
        } else if has_prefix(v, "#EXT-X-MEDIA:") {
            Ok(Tag::ExtXMedia(ExtXMedia::parse_chars(v)?))
        } else if has_prefix(v, "#EXT-X-I-FRAME-STREAM-INF:") || has_prefix(
            v,
            "#EXT-X-STREAM-INF:",
        ) {
            Ok(Tag::VariantStream(VariantStream::parse_chars(v)?))
        } else if has_prefix(v, "#EXT-X-SESSION-DATA:") {
            Ok(Tag::ExtXSessionData(ExtXSessionData::parse_chars(v)?))
        } else if has_prefix(v, "#EXT-X-SESSION-KEY:") {
            Ok(Tag::ExtXSessionKey(ExtXSessionKey::parse_chars(v)?))
        } else if has_prefix(v, "#EXT-X-INDEPENDENT-SEGMENTS") {
            let t = ExtXIndependentSegments::parse_chars(v)?;
            Ok(Tag::ExtXIndependentSegments(t))
        } else if has_prefix(v, "#EXT-X-START:") {
            Ok(Tag::ExtXStart(ExtXStart::parse_chars(v)?))
        } else {
            Ok(Tag::Unknown(string_of(v)))
        }
    }
}

/// An item of a playlist, taken by its parts.
pub enum LineView {
    /// A tag.
    Tag(TagView),
    /// A comment.
    Comment(Seq<char>),
    /// A location.
    Uri(Seq<char>),
}

/// What the item `s` of a playlist is: a stream (tag and location), another tag
/// (`#EXT...`), a comment (`#...`) or a location.
pub open spec fn line_kind(s: Seq<char>) -> Option<LineView> {
    if starts_with(s, "#EXT-X-STREAM-INF:"@) {
        match variant_of_text(s) {
            Some(v) => Some(LineView::Tag(TagView::Variant(v))),
            None => None,
        }
    } else if starts_with(s, "#EXT"@) {
        match tag_of(s) {
            Some(t) => Some(LineView::Tag(t)),
            None => None,
        }
    } else if starts_with(s, "#"@) {
        Some(LineView::Comment(s))
    } else {
        Some(LineView::Uri(s))
    }
}

/// An item of a playlist.
#[derive(Debug, Clone, PartialEq, Eq)]
pub enum Line {
    /// A tag.
    Tag(Tag),
    /// A comment.
    Comment(String),
    /// A location.
    Uri(String),
}

impl View for Line {
    type V = LineView;

    open spec fn view(&self) -> LineView {
        match self {
            Line::Tag(t) => LineView::Tag(t@),
            Line::Comment(c) => LineView::Comment(c@),
            Line::Uri(u) => LineView::Uri(u@),
        }
    }
}

impl Line {
    /// Reads an item of a playlist (see [`line_kind`]).
    pub fn parse_chars(v: &Vec<char>) -> (res: Result<Line, Error>)
        ensures
            res is Ok <==> line_kind(v@) is Some,
            res matches Ok(l) ==> line_kind(v@) == Some(l@),
    {
        if has_prefix(v, "#EXT-X-STREAM-INF:") {
            let vs = VariantStream::parse_chars(v)?;
            Ok(Line::Tag(Tag::VariantStream(vs)))
        } else if has_prefix(v, "#EXT") {
            Ok(Line::Tag(Tag::parse_chars(v)?))
        } else if has_prefix(v, "#") {
            Ok(Line::Comment(string_of(v)))
        } else {
            Ok(Line::Uri(string_of(v)))
        }
    }
}

/// What reading the item `s` gives: the item as `line_kind` reads it, or an error
/// where it cannot be read.
#[verifier::opaque]
pub open spec fn item_result(r: Result<Line, Error>, s: Seq<char>) -> bool {
    &&& r is Ok <==> line_kind(s) is Some
    &&& r matches Ok(l) ==> line_kind(s) == Some(l@)
}

/// Reads the item `v` (see [`item_result`]).
fn read_item(v: &Vec<char>) -> (res: Result<Line, Error>)
    ensures
        item_result(res, v@),
{
    let r = Line::parse_chars(v);
    assert(item_result(r, v@)) by {
        reveal(item_result);
    }
    r
}

/// The lines of a playlist, read one item at a time: the non-blank lines, each
/// trimmed, where an `#EXT-X-STREAM-INF` tag takes the line after it along.
pub struct Lines {
    lines: Vec<Vec<char>>,
    index: usize,
}

impl Lines {
    #[verifier::type_invariant]
    spec fn inv(self) -> bool {
        self.index <= self.lines.len()
    }

    /// The lines that are still to be read.
    pub closed spec fn remaining(&self) -> Seq<Seq<char>> {
        Seq::new((self.lines@.len() - self.index) as nat, |i: int| self.lines@[self.index + i]@)
    }

    /// The lines of `buffer` (see [`lines_of`]), none of them read yet.
    pub fn new(buffer: &str) -> (res: Lines)
        ensures
            res.remaining() == lines_of(buffer@),
    {
        let v = crate::text::chars_of(buffer);
        let ls = lines(&v);
        let res = Lines { lines: ls, index: 0 };
        assert(res.remaining() =~= lines_of(buffer@));
        res
    }

    /// Reads the next item. With no line left, there is none. A line that starts with
    /// `#EXT-X-STREAM-INF:` is read together with the line after it, joined by a line
    /// feed; when it is the last line, it is dropped and there is no item. Any other
    /// line is read alone (see [`line_kind`]). In either case the item is the next one
    /// of [`items_of`] the remaining lines.
    pub fn next(&mut self) -> (res: Option<Result<Line, Error>>)
        ensures
            old(self).remaining().len() == 0 ==> res is None && final(self).remaining().len() == 0,
            old(self).remaining().len() > 0 && starts_with(
                old(self).remaining()[0],
                "#EXT-X-STREAM-INF:"@,
            ) ==> if old(self).remaining().len() >= 2 {
                &&& res matches Some(r) && item_result(
                    r,
                    old(self).remaining()[0] + seq!['\n'] + old(self).remaining()[1],
                )
                &&& final(self).remaining() == old(self).remaining().skip(2)
            } else {
                res is None && final(self).remaining().len() == 0
            },
            old(self).remaining().len() > 0 && !starts_with(
                old(self).remaining()[0],
                "#EXT-X-STREAM-INF:"@,
            ) ==> (res matches Some(r) && item_result(r, old(self).remaining()[0])
                && final(self).remaining() == old(self).remaining().drop_first()),
            res is None <==> items_of(old(self).remaining()).len() == 0,
            res matches Some(r) ==> item_result(r, items_of(old(self).remaining())[0])
                && items_of(final(self).remaining()) == items_of(old(self).remaining()).drop_first(),
            res is None ==> final(self).remaining().len() == 0,
    {
        proof {
            use_type_invariant(&*self);
        }
        let ghost rest = self.remaining();
        if self.index >= self.lines.len() {
            return None;
        }
        let i = self.index;
        assert(rest[0] == self.lines@[i as int]@);
        if has_prefix(&self.lines[i], "#EXT-X-STREAM-INF:") {
            if i + 1 >= self.lines.len() {
                self.index = self.lines.len();
                assert(self.remaining().len() == 0);
                return None;
            }
            assert(rest[1] == self.lines@[i + 1]@);
            let mut item: Vec<char> = Vec::new();
            push_chars(&mut item, &self.lines[i]);
            item.push('\n');
            push_chars(&mut item, &self.lines[i + 1]);
            assert(item@ =~= rest[0] + seq!['\n'] + rest[1]);
            assert(items_of(rest)[0] == rest[0] + seq!['\n'] + rest[1]);
            let r = read_item(&item);
            self.index = i + 2;
            assert(self.remaining() =~= rest.skip(2));
            assert((seq![rest[0] + seq!['\n'] + rest[1]] + items_of(rest.skip(2))).drop_first()
                == items_of(rest.skip(2)));
            Some(r)
        } else {
            assert(items_of(rest)[0] == rest[0]);
            let r = read_item(&self.lines[i]);
            self.index = i + 1;
            assert(self.remaining() =~= rest.drop_first());
            assert((seq![rest[0]] + items_of(rest.drop_first())).drop_first() == items_of(
                rest.drop_first(),
            ));
            Some(r)
        }
    }
}

/// A line that starts with `a` does not start with `p` when the two differ at `j`.
pub proof fn lemma_not_starts(s: Seq<char>, a: Seq<char>, p: Seq<char>, j: int)
    requires
        starts_with(s, a),
        0 <= j < a.len(),
        j < p.len(),
        a[j] != p[j],
    ensures
        !starts_with(s, p),
{
    assert(s.take(a.len() as int)[j] == s[j]);
    if starts_with(s, p) {
        assert(s.take(p.len() as int)[j] == s[j]);
    }
}

/// A line that starts with `a` starts with every beginning `b` of `a`.
pub proof fn lemma_starts_prefix(s: Seq<char>, a: Seq<char>, b: Seq<char>)
    requires
        starts_with(s, a),
        starts_with(a, b),
    ensures
        starts_with(s, b),
{
    assert(s.take(b.len() as int) =~= a.take(b.len() as int));
}


/// What a line that starts with `#EXT-X-VERSION:` reads as.
pub proof fn lemma_version_line(s: Seq<char>)
    requires
        starts_with(s, "#EXT-X-VERSION:"@),
    ensures
        line_kind(s) == match ExtXVersion::spec_parse(s) {
            Some(t) => Some(LineView::Tag(TagView::Version(t))),
            None => None,
        },
{
    reveal_strlit("#EXT");
    reveal_strlit("#EXT-X-STREAM-INF:");
    reveal_strlit("#EXT-X-VERSION:");
    lemma_not_starts(s, "#EXT-X-VERSION:"@, "#EXT-X-STREAM-INF:"@, 7);
    assert("#EXT-X-VERSION:"@.take(4) =~= "#EXT"@);
    lemma_starts_prefix(s, "#EXT-X-VERSION:"@, "#EXT"@);
}

/// What a line that starts with `#EXTINF:` reads as.
pub proof fn lemma_inf_line(s: Seq<char>)
    requires
        starts_with(s, "#EXTINF:"@),
    ensures
        !starts_with(s, "#EXT-X-STREAM-INF:"@),
        line_kind(s) == match ExtInf::spec_parse(s) {
            Some(t) => Some(LineView::Tag(TagView::Inf(t))),
            None => None,
        },
{
    reveal_strlit("#EXT");
    reveal_strlit("#EXTINF:");
    reveal_strlit("#EXT-X-STREAM-INF:");
    reveal_strlit("#EXT-X-VERSION:");
    lemma_not_starts(s, "#EXTINF:"@, "#EXT-X-STREAM-INF:"@, 4);
    lemma_not_starts(s, "#EXTINF:"@, "#EXT-X-VERSION:"@, 4);
    assert("#EXTINF:"@.take(4) =~= "#EXT"@);
    lemma_starts_prefix(s, "#EXTINF:"@, "#EXT"@);
}

/// The line `#EXT-X-DISCONTINUITY` reads as a discontinuity.
pub proof fn lemma_discontinuity_line()
    ensures
        !starts_with("#EXT-X-DISCONTINUITY"@, "#EXT-X-STREAM-INF:"@),
        line_kind("#EXT-X-DISCONTINUITY"@) == Some(LineView::Tag(TagView::Discontinuity)),
{
    let s = "#EXT-X-DISCONTINUITY"@;
    reveal_strlit("#EXT");
    reveal_strlit("#EXTINF:");
    reveal_strlit("#EXT-X-STREAM-INF:");
    reveal_strlit("#EXT-X-VERSION:");
    reveal_strlit("#EXT-X-BYTERANGE:");
    reveal_strlit("#EXT-X-DISCONTINUITY-SEQUENCE:");
    reveal_strlit("#EXT-X-DISCONTINUITY");
    assert(s.take(s.len() as int) =~= s);
    lemma_not_starts(s, s, "#EXT-X-STREAM-INF:"@, 7);
    lemma_not_starts(s, s, "#EXT-X-VERSION:"@, 7);
    lemma_not_starts(s, s, "#EXTINF:"@, 4);
    lemma_not_starts(s, s, "#EXT-X-BYTERANGE:"@, 7);
    assert(!starts_with(s, "#EXT-X-DISCONTINUITY-SEQUENCE:"@));
    assert(s.take(4) =~= "#EXT"@);
}

/// What a line that starts with `#EXT-X-PROGRAM-DATE-TIME:` reads as.
pub proof fn lemma_program_date_time_line(s: Seq<char>)
    requires
        starts_with(s, "#EXT-X-PROGRAM-DATE-TIME:"@),
    ensures
        !starts_with(s, "#EXT-X-STREAM-INF:"@),
        line_kind(s) == match ExtXProgramDateTime::spec_parse(s) {
            Some(t) => Some(LineView::Tag(TagView::ProgramDateTime(t))),
            None => None,
        },
{
    let p = "#EXT-X-PROGRAM-DATE-TIME:"@;
    reveal_strlit("#EXT");
    reveal_strlit("#EXTINF:");
    reveal_strlit("#EXT-X-STREAM-INF:");
    reveal_strlit("#EXT-X-VERSION:");
    reveal_strlit("#EXT-X-BYTERANGE:");
    reveal_strlit("#EXT-X-DISCONTINUITY-SEQUENCE:");
    reveal_strlit("#EXT-X-DISCONTINUITY");
    reveal_strlit("#EXT-X-KEY:");
    reveal_strlit("#EXT-X-MAP:");
    reveal_strlit("#EXT-X-PROGRAM-DATE-TIME:");
    lemma_not_starts(s, p, "#EXT-X-STREAM-INF:"@, 7);
    lemma_not_starts(s, p, "#EXT-X-VERSION:"@, 7);
    lemma_not_starts(s, p, "#EXTINF:"@, 4);
    lemma_not_starts(s, p, "#EXT-X-BYTERANGE:"@, 7);
    lemma_not_starts(s, p, "#EXT-X-DISCONTINUITY-SEQUENCE:"@, 7);
    lemma_not_starts(s, p, "#EXT-X-DISCONTINUITY"@, 7);
    lemma_not_starts(s, p, "#EXT-X-KEY:"@, 7);
    lemma_not_starts(s, p, "#EXT-X-MAP:"@, 7);
    assert(p.take(4) =~= "#EXT"@);
    lemma_starts_prefix(s, p, "#EXT"@);
}

/// What a line that starts with `#EXT-X-TARGETDURATION:` reads as.
pub proof fn lemma_target_duration_line(s: Seq<char>)
    requires
        starts_with(s, "#EXT-X-TARGETDURATION:"@),
    ensures
        !starts_with(s, "#EXT-X-STREAM-INF:"@),
        line_kind(s) == match ExtXTargetDuration::spec_parse(s) {
            Some(t) => Some(LineView::Tag(TagView::TargetDuration(t))),
            None => None,
        },
{
    let p = "#EXT-X-TARGETDURATION:"@;
    reveal_strlit("#EXT");
    reveal_strlit("#EXTINF:");
    reveal_strlit("#EXT-X-STREAM-INF:");
    reveal_strlit("#EXT-X-VERSION:");
    reveal_strlit("#EXT-X-BYTERANGE:");
    reveal_strlit("#EXT-X-DISCONTINUITY-SEQUENCE:");
    reveal_strlit("#EXT-X-DISCONTINUITY");
    reveal_strlit("#EXT-X-KEY:");
    reveal_strlit("#EXT-X-MAP:");
    reveal_strlit("#EXT-X-PROGRAM-DATE-TIME:");
    reveal_strlit("#EXT-X-TARGETDURATION:");
    lemma_not_starts(s, p, "#EXT-X-STREAM-INF:"@, 7);
    lemma_not_starts(s, p, "#EXT-X-VERSION:"@, 7);
    lemma_not_starts(s, p, "#EXTINF:"@, 4);
    lemma_not_starts(s, p, "#EXT-X-BYTERANGE:"@, 7);
    lemma_not_starts(s, p, "#EXT-X-DISCONTINUITY-SEQUENCE:"@, 7);
    lemma_not_starts(s, p, "#EXT-X-DISCONTINUITY"@, 7);
    lemma_not_starts(s, p, "#EXT-X-KEY:"@, 7);
    lemma_not_starts(s, p, "#EXT-X-MAP:"@, 7);
    lemma_not_starts(s, p, "#EXT-X-PROGRAM-DATE-TIME:"@, 7);
    assert(p.take(4) =~= "#EXT"@);
    lemma_starts_prefix(s, p, "#EXT"@);
}

/// What a line that starts with `#EXT-X-DATERANGE:` reads as.
pub proof fn lemma_date_range_line(s: Seq<char>)
    requires
        starts_with(s, "#EXT-X-DATERANGE:"@),
    ensures
        !starts_with(s, "#EXT-X-STREAM-INF:"@),
        line_kind(s) == match ExtXDateRange::spec_parse(s) {
            Some(t) => Some(LineView::Tag(TagView::DateRange(t))),
            None => None,
        },
{
    let p = "#EXT-X-DATERANGE:"@;
    reveal_strlit("#EXT");
    reveal_strlit("#EXTINF:");
    reveal_strlit("#EXT-X-STREAM-INF:");
    reveal_strlit("#EXT-X-VERSION:");
    reveal_strlit("#EXT-X-BYTERANGE:");
    reveal_strlit("#EXT-X-DISCONTINUITY-SEQUENCE:");
    reveal_strlit("#EXT-X-DISCONTINUITY");
    reveal_strlit("#EXT-X-KEY:");
    reveal_strlit("#EXT-X-MAP:");
    reveal_strlit("#EXT-X-PROGRAM-DATE-TIME:");
    reveal_strlit("#EXT-X-TARGETDURATION:");
    reveal_strlit("#EXT-X-DATERANGE:");
    lemma_not_starts(s, p, "#EXT-X-STREAM-INF:"@, 7);
    lemma_not_starts(s, p, "#EXT-X-VERSION:"@, 7);
    lemma_not_starts(s, p, "#EXTINF:"@, 4);
    lemma_not_starts(s, p, "#EXT-X-BYTERANGE:"@, 7);
    lemma_not_starts(s, p, "#EXT-X-DISCONTINUITY-SEQUENCE:"@, 8);
    lemma_not_starts(s, p, "#EXT-X-DISCONTINUITY"@, 8);
    lemma_not_starts(s, p, "#EXT-X-KEY:"@, 7);
    lemma_not_starts(s, p, "#EXT-X-MAP:"@, 7);
    lemma_not_starts(s, p, "#EXT-X-PROGRAM-DATE-TIME:"@, 7);
    lemma_not_starts(s, p, "#EXT-X-TARGETDURATION:"@, 7);
    assert(p.take(4) =~= "#EXT"@);
    lemma_starts_prefix(s, p, "#EXT"@);
}

/// What a line that starts with `#EXT-X-BYTERANGE:` reads as.
pub proof fn lemma_byte_range_line(s: Seq<char>)
    requires
        starts_with(s, "#EXT-X-BYTERANGE:"@),
    ensures
        !starts_with(s, "#EXT-X-STREAM-INF:"@),
        line_kind(s) == match ExtXByteRange::spec_parse(s) {
            Some(t) => Some(LineView::Tag(TagView::ByteRange(t))),
            None => None,
        },
{
    let p = "#EXT-X-BYTERANGE:"@;
    reveal_strlit("#EXT");
    reveal_strlit("#EXTINF:");
    reveal_strlit("#EXT-X-STREAM-INF:");
    reveal_strlit("#EXT-X-VERSION:");
    reveal_strlit("#EXT-X-BYTERANGE:");
    lemma_not_starts(s, p, "#EXT-X-STREAM-INF:"@, 7);
    lemma_not_starts(s, p, "#EXT-X-VERSION:"@, 7);
    lemma_not_starts(s, p, "#EXTINF:"@, 4);
    assert(p.take(4) =~= "#EXT"@);
    lemma_starts_prefix(s, p, "#EXT"@);
}

/// What a line that starts with `#EXT-X-MAP:` reads as.
pub proof fn lemma_map_line(s: Seq<char>)
    requires
        starts_with(s, "#EXT-X-MAP:"@),
    ensures
        !starts_with(s, "#EXT-X-STREAM-INF:"@),
        line_kind(s) == match ExtXMap::spec_parse(s) {
            Some(t) => Some(LineView::Tag(TagView::InitMap(t))),
            None => None,
        },
{
    let p = "#EXT-X-MAP:"@;
    reveal_strlit("#EXT");
    reveal_strlit("#EXTINF:");
    reveal_strlit("#EXT-X-STREAM-INF:");
    reveal_strlit("#EXT-X-VERSION:");
    reveal_strlit("#EXT-X-BYTERANGE:");
    reveal_strlit("#EXT-X-DISCONTINUITY-SEQUENCE:");
    reveal_strlit("#EXT-X-DISCONTINUITY");
    reveal_strlit("#EXT-X-KEY:");
    reveal_strlit("#EXT-X-MAP:");
    lemma_not_starts(s, p, "#EXT-X-STREAM-INF:"@, 7);
    lemma_not_starts(s, p, "#EXT-X-VERSION:"@, 7);
    lemma_not_starts(s, p, "#EXTINF:"@, 4);
    lemma_not_starts(s, p, "#EXT-X-BYTERANGE:"@, 7);
    lemma_not_starts(s, p, "#EXT-X-DISCONTINUITY-SEQUENCE:"@, 7);
    lemma_not_starts(s, p, "#EXT-X-DISCONTINUITY"@, 7);
    lemma_not_starts(s, p, "#EXT-X-KEY:"@, 7);
    assert(p.take(4) =~= "#EXT"@);
    lemma_starts_prefix(s, p, "#EXT"@);
}

/// A line that does not start with `#` reads as a location.
pub proof fn lemma_uri_line(s: Seq<char>)
    requires
        s.len() > 0,
        s[0] != '#',
    ensures
        !starts_with(s, "#EXT-X-STREAM-INF:"@),
        line_kind(s) == Some(LineView::Uri(s)),
{
    reveal_strlit("#EXT");
    reveal_strlit("#");
    reveal_strlit("#EXT-X-STREAM-INF:");
    assert(!starts_with(s, "#EXT-X-STREAM-INF:"@)) by {
        if starts_with(s, "#EXT-X-STREAM-INF:"@) {
            assert(s.take(18)[0] == s[0]);
        }
    }
    assert(!starts_with(s, "#EXT"@)) by {
        if starts_with(s, "#EXT"@) {
            assert(s.take(4)[0] == s[0]);
        }
    }
    assert(!starts_with(s, "#"@)) by {
        if starts_with(s, "#"@) {
            assert(s.take(1)[0] == s[0]);
        }
    }
}

/// What a line that starts with `#EXT-X-MEDIA:` reads as.
pub proof fn lemma_media_line(s: Seq<char>)
    requires
        starts_with(s, "#EXT-X-MEDIA:"@),
    ensures
        line_kind(s) == match ExtXMedia::spec_parse(s) {
            Some(t) => Some(LineView::Tag(TagView::Media(t))),
            None => None,
        },
{
    reveal_strlit("#EXT");
    reveal_strlit("#EXT-X-BYTERANGE:");
    reveal_strlit("#EXT-X-DATERANGE:");
    reveal_strlit("#EXT-X-DISCONTINUITY");
    reveal_strlit("#EXT-X-DISCONTINUITY-SEQUENCE:");
    reveal_strlit("#EXT-X-ENDLIST");
    reveal_strlit("#EXT-X-I-FRAMES-ONLY");
    reveal_strlit("#EXT-X-KEY:");
    reveal_strlit("#EXT-X-MAP:");
    reveal_strlit("#EXT-X-MEDIA-SEQUENCE:");
    reveal_strlit("#EXT-X-MEDIA:");
    reveal_strlit("#EXT-X-PLAYLIST-TYPE:");
    reveal_strlit("#EXT-X-PROGRAM-DATE-TIME:");
    reveal_strlit("#EXT-X-STREAM-INF:");
    reveal_strlit("#EXT-X-TARGETDURATION:");
    reveal_strlit("#EXT-X-VERSION:");
    reveal_strlit("#EXTINF:");
    lemma_not_starts(s, "#EXT-X-MEDIA:"@, "#EXT-X-VERSION:"@, 7);
    lemma_not_starts(s, "#EXT-X-MEDIA:"@, "#EXTINF:"@, 4);
    lemma_not_starts(s, "#EXT-X-MEDIA:"@, "#EXT-X-BYTERANGE:"@, 7);
    lemma_not_starts(s, "#EXT-X-MEDIA:"@, "#EXT-X-DISCONTINUITY-SEQUENCE:"@, 7);
    lemma_not_starts(s, "#EXT-X-MEDIA:"@, "#EXT-X-DISCONTINUITY"@, 7);
    lemma_not_starts(s, "#EXT-X-MEDIA:"@, "#EXT-X-KEY:"@, 7);
    lemma_not_starts(s, "#EXT-X-MEDIA:"@, "#EXT-X-MAP:"@, 8);
    lemma_not_starts(s, "#EXT-X-MEDIA:"@, "#EXT-X-PROGRAM-DATE-TIME:"@, 7);
    lemma_not_starts(s, "#EXT-X-MEDIA:"@, "#EXT-X-TARGETDURATION:"@, 7);
    lemma_not_starts(s, "#EXT-X-MEDIA:"@, "#EXT-X-DATERANGE:"@, 7);
    lemma_not_starts(s, "#EXT-X-MEDIA:"@, "#EXT-X-MEDIA-SEQUENCE:"@, 12);
    lemma_not_starts(s, "#EXT-X-MEDIA:"@, "#EXT-X-ENDLIST"@, 7);
    lemma_not_starts(s, "#EXT-X-MEDIA:"@, "#EXT-X-PLAYLIST-TYPE:"@, 7);
    lemma_not_starts(s, "#EXT-X-MEDIA:"@, "#EXT-X-I-FRAMES-ONLY"@, 7);
    lemma_not_starts(s, "#EXT-X-MEDIA:"@, "#EXT-X-STREAM-INF:"@, 7);
    assert("#EXT-X-MEDIA:"@.take(4) =~= "#EXT"@);
    lemma_starts_prefix(s, "#EXT-X-MEDIA:"@, "#EXT"@);
}

/// What a line that starts with `#EXT-X-I-FRAME-STREAM-INF:` reads as.
pub proof fn lemma_iframe_line(s: Seq<char>)
    requires
        starts_with(s, "#EXT-X-I-FRAME-STREAM-INF:"@),
    ensures
        line_kind(s) == match variant_of_text(s) {
            Some(t) => Some(LineView::Tag(TagView::Variant(t))),
            None => None,
        },
{
    reveal_strlit("#EXT");
    reveal_strlit("#EXT-X-BYTERANGE:");
    reveal_strlit("#EXT-X-DATERANGE:");
    reveal_strlit("#EXT-X-DISCONTINUITY");
    reveal_strlit("#EXT-X-DISCONTINUITY-SEQUENCE:");
    reveal_strlit("#EXT-X-ENDLIST");
    reveal_strlit("#EXT-X-I-FRAME-STREAM-INF:");
    reveal_strlit("#EXT-X-I-FRAMES-ONLY");
    reveal_strlit("#EXT-X-KEY:");
    reveal_strlit("#EXT-X-MAP:");
    reveal_strlit("#EXT-X-MEDIA-SEQUENCE:");
    reveal_strlit("#EXT-X-MEDIA:");
    reveal_strlit("#EXT-X-PLAYLIST-TYPE:");
    reveal_strlit("#EXT-X-PROGRAM-DATE-TIME:");
    reveal_strlit("#EXT-X-STREAM-INF:");
    reveal_strlit("#EXT-X-TARGETDURATION:");
    reveal_strlit("#EXT-X-VERSION:");
    reveal_strlit("#EXTINF:");
    lemma_not_starts(s, "#EXT-X-I-FRAME-STREAM-INF:"@, "#EXT-X-VERSION:"@, 7);
    lemma_not_starts(s, "#EXT-X-I-FRAME-STREAM-INF:"@, "#EXTINF:"@, 4);
    lemma_not_starts(s, "#EXT-X-I-FRAME-STREAM-INF:"@, "#EXT-X-BYTERANGE:"@, 7);
    lemma_not_starts(s, "#EXT-X-I-FRAME-STREAM-INF:"@, "#EXT-X-DISCONTINUITY-SEQUENCE:"@, 7);
    lemma_not_starts(s, "#EXT-X-I-FRAME-STREAM-INF:"@, "#EXT-X-DISCONTINUITY"@, 7);
    lemma_not_starts(s, "#EXT-X-I-FRAME-STREAM-INF:"@, "#EXT-X-KEY:"@, 7);
    lemma_not_starts(s, "#EXT-X-I-FRAME-STREAM-INF:"@, "#EXT-X-MAP:"@, 7);
    lemma_not_starts(s, "#EXT-X-I-FRAME-STREAM-INF:"@, "#EXT-X-PROGRAM-DATE-TIME:"@, 7);
    lemma_not_starts(s, "#EXT-X-I-FRAME-STREAM-INF:"@, "#EXT-X-TARGETDURATION:"@, 7);
    lemma_not_starts(s, "#EXT-X-I-FRAME-STREAM-INF:"@, "#EXT-X-DATERANGE:"@, 7);
    lemma_not_starts(s, "#EXT-X-I-FRAME-STREAM-INF:"@, "#EXT-X-MEDIA-SEQUENCE:"@, 7);
    lemma_not_starts(s, "#EXT-X-I-FRAME-STREAM-INF:"@, "#EXT-X-ENDLIST"@, 7);
    lemma_not_starts(s, "#EXT-X-I-FRAME-STREAM-INF:"@, "#EXT-X-PLAYLIST-TYPE:"@, 7);
    lemma_not_starts(s, "#EXT-X-I-FRAME-STREAM-INF:"@, "#EXT-X-I-FRAMES-ONLY"@, 14);
    lemma_not_starts(s, "#EXT-X-I-FRAME-STREAM-INF:"@, "#EXT-X-MEDIA:"@, 7);
    lemma_not_starts(s, "#EXT-X-I-FRAME-STREAM-INF:"@, "#EXT-X-STREAM-INF:"@, 7);
    assert("#EXT-X-I-FRAME-STREAM-INF:"@.take(4) =~= "#EXT"@);
    lemma_starts_prefix(s, "#EXT-X-I-FRAME-STREAM-INF:"@, "#EXT"@);
}

/// What a line that starts with `#EXT-X-SESSION-DATA:` reads as.
pub proof fn lemma_session_data_line(s: Seq<char>)
    requires
        starts_with(s, "#EXT-X-SESSION-DATA:"@),
    ensures
        line_kind(s) == match ExtXSessionData::spec_parse(s) {
            Some(t) => Some(LineView::Tag(TagView::SessionData(t))),
            None => None,
        },
{
    reveal_strlit("#EXT");
    reveal_strlit("#EXT-X-BYTERANGE:");
    reveal_strlit("#EXT-X-DATERANGE:");
    reveal_strlit("#EXT-X-DISCONTINUITY");
    reveal_strlit("#EXT-X-DISCONTINUITY-SEQUENCE:");
    reveal_strlit("#EXT-X-ENDLIST");
    reveal_strlit("#EXT-X-I-FRAME-STREAM-INF:");
    reveal_strlit("#EXT-X-I-FRAMES-ONLY");
    reveal_strlit("#EXT-X-KEY:");
    reveal_strlit("#EXT-X-MAP:");
    reveal_strlit("#EXT-X-MEDIA-SEQUENCE:");
    reveal_strlit("#EXT-X-MEDIA:");
    reveal_strlit("#EXT-X-PLAYLIST-TYPE:");
    reveal_strlit("#EXT-X-PROGRAM-DATE-TIME:");
    reveal_strlit("#EXT-X-SESSION-DATA:");
    reveal_strlit("#EXT-X-STREAM-INF:");
    reveal_strlit("#EXT-X-TARGETDURATION:");
    reveal_strlit("#EXT-X-VERSION:");
    reveal_strlit("#EXTINF:");
    lemma_not_starts(s, "#EXT-X-SESSION-DATA:"@, "#EXT-X-VERSION:"@, 7);
    lemma_not_starts(s, "#EXT-X-SESSION-DATA:"@, "#EXTINF:"@, 4);
    lemma_not_starts(s, "#EXT-X-SESSION-DATA:"@, "#EXT-X-BYTERANGE:"@, 7);
    lemma_not_starts(s, "#EXT-X-SESSION-DATA:"@, "#EXT-X-DISCONTINUITY-SEQUENCE:"@, 7);
    lemma_not_starts(s, "#EXT-X-SESSION-DATA:"@, "#EXT-X-DISCONTINUITY"@, 7);
    lemma_not_starts(s, "#EXT-X-SESSION-DATA:"@, "#EXT-X-KEY:"@, 7);
    lemma_not_starts(s, "#EXT-X-SESSION-DATA:"@, "#EXT-X-MAP:"@, 7);
    lemma_not_starts(s, "#EXT-X-SESSION-DATA:"@, "#EXT-X-PROGRAM-DATE-TIME:"@, 7);
    lemma_not_starts(s, "#EXT-X-SESSION-DATA:"@, "#EXT-X-TARGETDURATION:"@, 7);
    lemma_not_starts(s, "#EXT-X-SESSION-DATA:"@, "#EXT-X-DATERANGE:"@, 7);
    lemma_not_starts(s, "#EXT-X-SESSION-DATA:"@, "#EXT-X-MEDIA-SEQUENCE:"@, 7);
    lemma_not_starts(s, "#EXT-X-SESSION-DATA:"@, "#EXT-X-ENDLIST"@, 7);
    lemma_not_starts(s, "#EXT-X-SESSION-DATA:"@, "#EXT-X-PLAYLIST-TYPE:"@, 7);
    lemma_not_starts(s, "#EXT-X-SESSION-DATA:"@, "#EXT-X-I-FRAMES-ONLY"@, 7);
    lemma_not_starts(s, "#EXT-X-SESSION-DATA:"@, "#EXT-X-MEDIA:"@, 7);
    lemma_not_starts(s, "#EXT-X-SESSION-DATA:"@, "#EXT-X-I-FRAME-STREAM-INF:"@, 7);
    lemma_not_starts(s, "#EXT-X-SESSION-DATA:"@, "#EXT-X-STREAM-INF:"@, 8);
    lemma_not_starts(s, "#EXT-X-SESSION-DATA:"@, "#EXT-X-STREAM-INF:"@, 8);
    assert("#EXT-X-SESSION-DATA:"@.take(4) =~= "#EXT"@);
    lemma_starts_prefix(s, "#EXT-X-SESSION-DATA:"@, "#EXT"@);
}

/// What a line that starts with `#EXT-X-SESSION-KEY:` reads as.
pub proof fn lemma_session_key_line(s: Seq<char>)
    requires
        starts_with(s, "#EXT-X-SESSION-KEY:"@),
    ensures
        line_kind(s) == match ExtXSessionKey::spec_parse(s) {
            Some(t) => Some(LineView::Tag(TagView::SessionKey(t))),
            None => None,
        },
{
    reveal_strlit("#EXT");
    reveal_strlit("#EXT-X-BYTERANGE:");
    reveal_strlit("#EXT-X-DATERANGE:");
    reveal_strlit("#EXT-X-DISCONTINUITY");
    reveal_strlit("#EXT-X-DISCONTINUITY-SEQUENCE:");
    reveal_strlit("#EXT-X-ENDLIST");
    reveal_strlit("#EXT-X-I-FRAME-STREAM-INF:");
    reveal_strlit("#EXT-X-I-FRAMES-ONLY");
    reveal_strlit("#EXT-X-KEY:");
    reveal_strlit("#EXT-X-MAP:");
    reveal_strlit("#EXT-X-MEDIA-SEQUENCE:");
    reveal_strlit("#EXT-X-MEDIA:");
    reveal_strlit("#EXT-X-PLAYLIST-TYPE:");
    reveal_strlit("#EXT-X-PROGRAM-DATE-TIME:");
    reveal_strlit("#EXT-X-SESSION-DATA:");
    reveal_strlit("#EXT-X-SESSION-KEY:");
    reveal_strlit("#EXT-X-STREAM-INF:");
    reveal_strlit("#EXT-X-TARGETDURATION:");
    reveal_strlit("#EXT-X-VERSION:");
    reveal_strlit("#EXTINF:");
    lemma_not_starts(s, "#EXT-X-SESSION-KEY:"@, "#EXT-X-VERSION:"@, 7);
    lemma_not_starts(s, "#EXT-X-SESSION-KEY:"@, "#EXTINF:"@, 4);
    lemma_not_starts(s, "#EXT-X-SESSION-KEY:"@, "#EXT-X-BYTERANGE:"@, 7);
    lemma_not_starts(s, "#EXT-X-SESSION-KEY:"@, "#EXT-X-DISCONTINUITY-SEQUENCE:"@, 7);
    lemma_not_starts(s, "#EXT-X-SESSION-KEY:"@, "#EXT-X-DISCONTINUITY"@, 7);
    lemma_not_starts(s, "#EXT-X-SESSION-KEY:"@, "#EXT-X-KEY:"@, 7);
    lemma_not_starts(s, "#EXT-X-SESSION-KEY:"@, "#EXT-X-MAP:"@, 7);
    lemma_not_starts(s, "#EXT-X-SESSION-KEY:"@, "#EXT-X-PROGRAM-DATE-TIME:"@, 7);
    lemma_not_starts(s, "#EXT-X-SESSION-KEY:"@, "#EXT-X-TARGETDURATION:"@, 7);
    lemma_not_starts(s, "#EXT-X-SESSION-KEY:"@, "#EXT-X-DATERANGE:"@, 7);
    lemma_not_starts(s, "#EXT-X-SESSION-KEY:"@, "#EXT-X-MEDIA-SEQUENCE:"@, 7);
    lemma_not_starts(s, "#EXT-X-SESSION-KEY:"@, "#EXT-X-ENDLIST"@, 7);
    lemma_not_starts(s, "#EXT-X-SESSION-KEY:"@, "#EXT-X-PLAYLIST-TYPE:"@, 7);
    lemma_not_starts(s, "#EXT-X-SESSION-KEY:"@, "#EXT-X-I-FRAMES-ONLY"@, 7);
    lemma_not_starts(s, "#EXT-X-SESSION-KEY:"@, "#EXT-X-MEDIA:"@, 7);
    lemma_not_starts(s, "#EXT-X-SESSION-KEY:"@, "#EXT-X-I-FRAME-STREAM-INF:"@, 7);
    lemma_not_starts(s, "#EXT-X-SESSION-KEY:"@, "#EXT-X-STREAM-INF:"@, 8);
    lemma_not_starts(s, "#EXT-X-SESSION-KEY:"@, "#EXT-X-SESSION-DATA:"@, 15);
    lemma_not_starts(s, "#EXT-X-SESSION-KEY:"@, "#EXT-X-STREAM-INF:"@, 8);
    assert("#EXT-X-SESSION-KEY:"@.take(4) =~= "#EXT"@);
    lemma_starts_prefix(s, "#EXT-X-SESSION-KEY:"@, "#EXT"@);
}

/// What a line that starts with `#EXT-X-INDEPENDENT-SEGMENTS` reads as.
pub proof fn lemma_independent_segments_line(s: Seq<char>)
    requires
        starts_with(s, "#EXT-X-INDEPENDENT-SEGMENTS"@),
    ensures
        line_kind(s) == match ExtXIndependentSegments::spec_parse(s) {
            Some(_) => Some(LineView::Tag(TagView::IndependentSegments)),
            None => None,
        },
{
    reveal_strlit("#EXT");
    reveal_strlit("#EXT-X-BYTERANGE:");
    reveal_strlit("#EXT-X-DATERANGE:");
    reveal_strlit("#EXT-X-DISCONTINUITY");
    reveal_strlit("#EXT-X-DISCONTINUITY-SEQUENCE:");
    reveal_strlit("#EXT-X-ENDLIST");
    reveal_strlit("#EXT-X-I-FRAME-STREAM-INF:");
    reveal_strlit("#EXT-X-I-FRAMES-ONLY");
    reveal_strlit("#EXT-X-INDEPENDENT-SEGMENTS");
    reveal_strlit("#EXT-X-KEY:");
    reveal_strlit("#EXT-X-MAP:");
    reveal_strlit("#EXT-X-MEDIA-SEQUENCE:");
    reveal_strlit("#EXT-X-MEDIA:");
    reveal_strlit("#EXT-X-PLAYLIST-TYPE:");
    reveal_strlit("#EXT-X-PROGRAM-DATE-TIME:");
    reveal_strlit("#EXT-X-SESSION-DATA:");
    reveal_strlit("#EXT-X-SESSION-KEY:");
    reveal_strlit("#EXT-X-STREAM-INF:");
    reveal_strlit("#EXT-X-TARGETDURATION:");
    reveal_strlit("#EXT-X-VERSION:");
    reveal_strlit("#EXTINF:");
    lemma_not_starts(s, "#EXT-X-INDEPENDENT-SEGMENTS"@, "#EXT-X-VERSION:"@, 7);
    lemma_not_starts(s, "#EXT-X-INDEPENDENT-SEGMENTS"@, "#EXTINF:"@, 4);
    lemma_not_starts(s, "#EXT-X-INDEPENDENT-SEGMENTS"@, "#EXT-X-BYTERANGE:"@, 7);
    lemma_not_starts(s, "#EXT-X-INDEPENDENT-SEGMENTS"@, "#EXT-X-DISCONTINUITY-SEQUENCE:"@, 7);
    lemma_not_starts(s, "#EXT-X-INDEPENDENT-SEGMENTS"@, "#EXT-X-DISCONTINUITY"@, 7);
    lemma_not_starts(s, "#EXT-X-INDEPENDENT-SEGMENTS"@, "#EXT-X-KEY:"@, 7);
    lemma_not_starts(s, "#EXT-X-INDEPENDENT-SEGMENTS"@, "#EXT-X-MAP:"@, 7);
    lemma_not_starts(s, "#EXT-X-INDEPENDENT-SEGMENTS"@, "#EXT-X-PROGRAM-DATE-TIME:"@, 7);
    lemma_not_starts(s, "#EXT-X-INDEPENDENT-SEGMENTS"@, "#EXT-X-TARGETDURATION:"@, 7);
    lemma_not_starts(s, "#EXT-X-INDEPENDENT-SEGMENTS"@, "#EXT-X-DATERANGE:"@, 7);
    lemma_not_starts(s, "#EXT-X-INDEPENDENT-SEGMENTS"@, "#EXT-X-MEDIA-SEQUENCE:"@, 7);
    lemma_not_starts(s, "#EXT-X-INDEPENDENT-SEGMENTS"@, "#EXT-X-ENDLIST"@, 7);
    lemma_not_starts(s, "#EXT-X-INDEPENDENT-SEGMENTS"@, "#EXT-X-PLAYLIST-TYPE:"@, 7);
    lemma_not_starts(s, "#EXT-X-INDEPENDENT-SEGMENTS"@, "#EXT-X-I-FRAMES-ONLY"@, 8);
    lemma_not_starts(s, "#EXT-X-INDEPENDENT-SEGMENTS"@, "#EXT-X-MEDIA:"@, 7);
    lemma_not_starts(s, "#EXT-X-INDEPENDENT-SEGMENTS"@, "#EXT-X-I-FRAME-STREAM-INF:"@, 8);
    lemma_not_starts(s, "#EXT-X-INDEPENDENT-SEGMENTS"@, "#EXT-X-STREAM-INF:"@, 7);
    lemma_not_starts(s, "#EXT-X-INDEPENDENT-SEGMENTS"@, "#EXT-X-SESSION-DATA:"@, 7);
    lemma_not_starts(s, "#EXT-X-INDEPENDENT-SEGMENTS"@, "#EXT-X-SESSION-KEY:"@, 7);
    lemma_not_starts(s, "#EXT-X-INDEPENDENT-SEGMENTS"@, "#EXT-X-STREAM-INF:"@, 7);
    assert("#EXT-X-INDEPENDENT-SEGMENTS"@.take(4) =~= "#EXT"@);
    lemma_starts_prefix(s, "#EXT-X-INDEPENDENT-SEGMENTS"@, "#EXT"@);
}

/// What a line that starts with `#EXT-X-START:` reads as.
pub proof fn lemma_start_line(s: Seq<char>)
    requires
        starts_with(s, "#EXT-X-START:"@),
    ensures
        line_kind(s) == match ExtXStart::spec_parse(s) {
            Some(t) => Some(LineView::Tag(TagView::Start(t))),
            None => None,
        },
{
    reveal_strlit("#EXT");
    reveal_strlit("#EXT-X-BYTERANGE:");
    reveal_strlit("#EXT-X-DATERANGE:");
    reveal_strlit("#EXT-X-DISCONTINUITY");
    reveal_strlit("#EXT-X-DISCONTINUITY-SEQUENCE:");
    reveal_strlit("#EXT-X-ENDLIST");
    reveal_strlit("#EXT-X-I-FRAME-STREAM-INF:");
    reveal_strlit("#EXT-X-I-FRAMES-ONLY");
    reveal_strlit("#EXT-X-INDEPENDENT-SEGMENTS");
    reveal_strlit("#EXT-X-KEY:");
    reveal_strlit("#EXT-X-MAP:");
    reveal_strlit("#EXT-X-MEDIA-SEQUENCE:");
    reveal_strlit("#EXT-X-MEDIA:");
    reveal_strlit("#EXT-X-PLAYLIST-TYPE:");
    reveal_strlit("#EXT-X-PROGRAM-DATE-TIME:");
    reveal_strlit("#EXT-X-SESSION-DATA:");
    reveal_strlit("#EXT-X-SESSION-KEY:");
    reveal_strlit("#EXT-X-START:");
    reveal_strlit("#EXT-X-STREAM-INF:");
    reveal_strlit("#EXT-X-TARGETDURATION:");
    reveal_strlit("#EXT-X-VERSION:");
    reveal_strlit("#EXTINF:");
    lemma_not_starts(s, "#EXT-X-START:"@, "#EXT-X-VERSION:"@, 7);
    lemma_not_starts(s, "#EXT-X-START:"@, "#EXTINF:"@, 4);
    lemma_not_starts(s, "#EXT-X-START:"@, "#EXT-X-BYTERANGE:"@, 7);
    lemma_not_starts(s, "#EXT-X-START:"@, "#EXT-X-DISCONTINUITY-SEQUENCE:"@, 7);
    lemma_not_starts(s, "#EXT-X-START:"@, "#EXT-X-DISCONTINUITY"@, 7);
    lemma_not_starts(s, "#EXT-X-START:"@, "#EXT-X-KEY:"@, 7);
    lemma_not_starts(s, "#EXT-X-START:"@, "#EXT-X-MAP:"@, 7);
    lemma_not_starts(s, "#EXT-X-START:"@, "#EXT-X-PROGRAM-DATE-TIME:"@, 7);
    lemma_not_starts(s, "#EXT-X-START:"@, "#EXT-X-TARGETDURATION:"@, 7);
    lemma_not_starts(s, "#EXT-X-START:"@, "#EXT-X-DATERANGE:"@, 7);
    lemma_not_starts(s, "#EXT-X-START:"@, "#EXT-X-MEDIA-SEQUENCE:"@, 7);
    lemma_not_starts(s, "#EXT-X-START:"@, "#EXT-X-ENDLIST"@, 7);
    lemma_not_starts(s, "#EXT-X-START:"@, "#EXT-X-PLAYLIST-TYPE:"@, 7);
    lemma_not_starts(s, "#EXT-X-START:"@, "#EXT-X-I-FRAMES-ONLY"@, 7);
    lemma_not_starts(s, "#EXT-X-START:"@, "#EXT-X-MEDIA:"@, 7);
    lemma_not_starts(s, "#EXT-X-START:"@, "#EXT-X-I-FRAME-STREAM-INF:"@, 7);
    lemma_not_starts(s, "#EXT-X-START:"@, "#EXT-X-STREAM-INF:"@, 9);
    lemma_not_starts(s, "#EXT-X-START:"@, "#EXT-X-SESSION-DATA:"@, 8);
    lemma_not_starts(s, "#EXT-X-START:"@, "#EXT-X-SESSION-KEY:"@, 8);
    lemma_not_starts(s, "#EXT-X-START:"@, "#EXT-X-INDEPENDENT-SEGMENTS"@, 7);
    lemma_not_starts(s, "#EXT-X-START:"@, "#EXT-X-STREAM-INF:"@, 9);
    assert("#EXT-X-START:"@.take(4) =~= "#EXT"@);
    lemma_starts_prefix(s, "#EXT-X-START:"@, "#EXT"@);
}

/// The items `items` joined by line feeds.
pub open spec fn cat_items(items: Seq<Seq<char>>) -> Seq<char>
    decreases items.len(),
{
    if items.len() == 0 {
        seq![]
    } else if items.len() == 1 {
        items[0]
    } else {
        items[0] + seq!['\n'] + cat_items(items.drop_first())
    }
}

/// The lines of an item: the item itself, or the two lines around its line feed.
pub open spec fn lines_of_item(x: Seq<char>) -> Seq<Seq<char>> {
    match find_char(x, '\n') {
        Some(k) => seq![x.take(k), x.skip(k + 1)],
        None => seq![x],
    }
}

/// The lines of the items `items`, in order.
pub open spec fn item_lines(items: Seq<Seq<char>>) -> Seq<Seq<char>>
    decreases items.len(),
{
    if items.len() == 0 {
        seq![]
    } else {
        lines_of_item(items[0]) + item_lines(items.drop_first())
    }
}

/// A line that reads back as itself: not blank, not padded, without line feeds.
pub open spec fn line_ok(l: Seq<char>) -> bool {
    l.len() > 0 && trim(l) == l && no_lf(l)
}

/// An item that reads back as itself: a line that does not start a stream, or a stream
/// tag line and the line of its location.
pub open spec fn item_ok(x: Seq<char>) -> bool {
    match find_char(x, '\n') {
        None => line_ok(x) && !starts_with(x, "#EXT-X-STREAM-INF:"@),
        Some(k) => line_ok(x.take(k)) && line_ok(x.skip(k + 1)) && starts_with(
            x.take(k),
            "#EXT-X-STREAM-INF:"@,
        ),
    }
}

/// Every item of `items` reads back as itself.
pub open spec fn items_ok(items: Seq<Seq<char>>) -> bool {
    forall|i: int| 0 <= i < items.len() ==> item_ok(#[trigger] items[i])
}

/// Splitting joined items at their line feeds gives the lines of the items.
pub proof fn lemma_split_items(items: Seq<Seq<char>>)
    requires
        items.len() > 0,
        items_ok(items),
    ensures
        split_on(cat_items(items), '\n') == item_lines(items),
    decreases items.len(),
{
    let x = items[0];
    assert(item_ok(items[0]));
    lemma_find_char(x, '\n');
    let rest = items.drop_first();
    assert(items_ok(rest)) by {
        assert forall|i: int| 0 <= i < rest.len() implies item_ok(#[trigger] rest[i]) by {
            assert(rest[i] == items[i + 1]);
        }
    }
    if rest.len() > 0 {
        lemma_split_items(rest);
    }
    let tail = if rest.len() == 0 {
        Seq::<char>::empty()
    } else {
        seq!['\n'] + cat_items(rest)
    };
    assert(cat_items(items) == x + tail);
    assert(item_lines(items) == lines_of_item(x) + item_lines(rest));
    if rest.len() == 0 {
        assert(item_lines(rest) == Seq::<Seq<char>>::empty());
    }
    match find_char(x, '\n') {
        None => {
            let s = x + tail;
            if rest.len() == 0 {
                assert(s == x);
                assert(split_on(s, '\n') == seq![x]);
                assert(split_on(s, '\n') =~= item_lines(items));
            } else {
                assert forall|j: int| 0 <= j < x.len() implies s[j] != '\n' by {
                    assert(s[j] == x[j]);
                }
                assert(s[x.len() as int] == '\n');
                lemma_find_char_at(s, '\n', x.len() as int);
                assert(s.take(x.len() as int) == x);
                assert(s.skip(x.len() + 1int) == cat_items(rest));
                assert(split_on(s, '\n') =~= item_lines(items));
            }
        },
        Some(k) => {
            let t = x.take(k);
            let u = x.skip(k + 1);
            let s = x + tail;
            assert forall|j: int| 0 <= j < k implies s[j] != '\n' by {
                assert(s[j] == x[j]);
            }
            assert(s[k] == '\n');
            lemma_find_char_at(s, '\n', k);
            assert(s.take(k) == t);
            let s2 = s.skip(k + 1);
            assert(s2 == u + tail);
            assert(no_lf(u));
            if rest.len() == 0 {
                assert(s2 == u);
                lemma_find_char(u, '\n');
                if let Some(m) = find_char(u, '\n') {
                    assert(u[m] == '\n');
                }
                assert(split_on(s2, '\n') == seq![u]);
            } else {
                assert forall|j: int| 0 <= j < u.len() implies s2[j] != '\n' by {
                    assert(s2[j] == u[j]);
                }
                assert(s2[u.len() as int] == '\n');
                lemma_find_char_at(s2, '\n', u.len() as int);
                assert(s2.take(u.len() as int) == u);
                assert(s2.skip(u.len() + 1int) == cat_items(rest));
                assert(split_on(s2, '\n') == seq![u] + split_on(cat_items(rest), '\n'));
            }
            assert(split_on(s, '\n') == seq![t] + split_on(s2, '\n'));
            assert(lines_of_item(x) == seq![t, u]);
            assert(split_on(s, '\n') =~= item_lines(items));
        },
    }
}

/// Dropping the blank first piece and keeping lines that read back as themselves.
pub proof fn lemma_nonblank_lines(ls: Seq<Seq<char>>)
    requires
        forall|i: int| 0 <= i < ls.len() ==> line_ok(#[trigger] ls[i]),
    ensures
        nonblank_lines(seq![Seq::<char>::empty()] + ls) == ls,
    decreases ls.len(),
{
    let e = Seq::<char>::empty();
    assert(nonblank_lines(Seq::<Seq<char>>::empty()) == Seq::<Seq<char>>::empty());
    assert(trim(e) =~= e);
    if ls.len() == 0 {
        assert(seq![e] + ls == seq![e]);
        assert(seq![e].drop_last() == Seq::<Seq<char>>::empty());
        assert(seq![e].last() == e);
        assert(nonblank_lines(seq![e]) == nonblank_lines(seq![e].drop_last()));
    } else {
        let r = ls.drop_last();
        assert forall|i: int| 0 <= i < r.len() implies line_ok(#[trigger] r[i]) by {
            assert(r[i] == ls[i]);
        }
        lemma_nonblank_lines(r);
        let all = seq![e] + ls;
        assert(all.drop_last() == seq![e] + r);
        assert(all.last() == ls.last());
        assert(line_ok(ls[ls.len() - 1]));
        assert(trim(all.last()) == ls.last());
        assert(nonblank_lines(all) == nonblank_lines(all.drop_last()).push(trim(all.last())));
        assert(nonblank_lines(all) =~= ls);
    }
}

/// The lines of items that read back as themselves read back as lines.
pub proof fn lemma_item_lines_ok(items: Seq<Seq<char>>)
    requires
        items_ok(items),
    ensures
        forall|i: int| 0 <= i < item_lines(items).len() ==> line_ok(#[trigger] item_lines(items)[i]),
        items_of(item_lines(items)) == items,
    decreases items.len(),
{
    if items.len() > 0 {
        let x = items[0];
        assert(item_ok(items[0]));
        let rest = items.drop_first();
        assert(items_ok(rest)) by {
            assert forall|i: int| 0 <= i < rest.len() implies item_ok(#[trigger] rest[i]) by {
                assert(rest[i] == items[i + 1]);
            }
        }
        lemma_item_lines_ok(rest);
        let lx = lines_of_item(x);
        let lr = item_lines(rest);
        let all = item_lines(items);
        assert(all == lx + lr);
        lemma_find_char(x, '\n');
        match find_char(x, '\n') {
            None => {
                assert(all[0] == x);
                assert(all.drop_first() =~= lr);
            },
            Some(k) => {
                assert(all[0] == x.take(k));
                assert(all[1] == x.skip(k + 1));
                assert(all.skip(2) =~= lr);
                assert(x.take(k) + seq!['\n'] + x.skip(k + 1) =~= x);
            },
        }
        assert forall|i: int| 0 <= i < all.len() implies line_ok(#[trigger] all[i]) by {
            if i >= lx.len() {
                assert(all[i] == lr[i - lx.len()]);
            }
        }
        assert(items_of(all) =~= items);
    }
}

/// The last item of joined items ends them.
pub proof fn lemma_cat_items_push(items: Seq<Seq<char>>, x: Seq<char>)
    requires
        items.len() > 0,
    ensures
        cat_items(items.push(x)) == cat_items(items) + seq!['\n'] + x,
    decreases items.len(),
{
    if items.len() == 1 {
        assert(items.push(x).drop_first() == seq![x]);
        assert(items.push(x)[0] == items[0]);
        assert(cat_items(seq![x]) == x);
        assert(cat_items(items) == items[0]);
    } else {
        lemma_cat_items_push(items.drop_first(), x);
        assert(items.push(x).drop_first() == items.drop_first().push(x));
        assert(items.push(x)[0] == items[0]);
        assert(cat_items(items.push(x)) =~= cat_items(items) + seq!['\n'] + x);
    }
}

/// Joined items end with the end of their last item.
pub proof fn lemma_cat_items_last(items: Seq<Seq<char>>)
    requires
        items.len() > 0,
        items_ok(items),
    ensures
        cat_items(items).len() > 0,
        !is_ws(cat_items(items).last()),
{
    let x = items.last();
    assert(item_ok(items[items.len() - 1]));
    lemma_find_char(x, '\n');
    match find_char(x, '\n') {
        None => {
            lemma_trim_keeps_ends(x);
        },
        Some(k) => {
            let u = x.skip(k + 1);
            lemma_trim_keeps_ends(u);
            assert(x.last() == u.last());
        },
    }
    if items.len() == 1 {
        assert(cat_items(items) == x);
    } else {
        lemma_cat_items_push(items.drop_last(), x);
        assert(items.drop_last().push(x) == items);
    }
}

/// Reading a header line followed by items, each on its own line(s), gives the items
/// back: the header is stripped, and the lines regroup into the items.
pub proof fn lemma_read_items(h: Seq<char>, items: Seq<Seq<char>>)
    requires
        h.len() > 0,
        !is_ws(h[0]),
        !is_ws(h.last()),
        items_ok(items),
    ensures
        after_tag(cat_items(seq![h] + items) + seq!['\n'], h) matches Some(r) && items_of(
            lines_of(r),
        ) == items,
{
    let e = Seq::<char>::empty();
    let all = seq![h] + items;
    let text = cat_items(all) + seq!['\n'];
    if items.len() == 0 {
        assert(all == seq![h]);
        assert(cat_items(all) == h);
        lemma_trim_id(h);
        lemma_trim_newline(h);
        assert(text.take(h.len() as int) == h);
        assert(trim(text).skip(h.len() as int) =~= e);
        assert(split_on(e, '\n') == seq![e]);
        lemma_nonblank_lines(Seq::<Seq<char>>::empty());
        assert(seq![e] + Seq::<Seq<char>>::empty() == seq![e]);
        assert(items_of(Seq::<Seq<char>>::empty()) == Seq::<Seq<char>>::empty());
        assert(trim(text) == h);
        assert(h.take(h.len() as int) == h);
        assert(starts_with(trim(text), h));
        assert(after_tag(text, h) == Some(e));
        assert(lines_of(e) == Seq::<Seq<char>>::empty());
    } else {
        let c = cat_items(items);
        assert(all.drop_first() == items);
        assert(cat_items(all) == h + seq!['\n'] + c);
        lemma_cat_items_last(items);
        let x = h + seq!['\n'] + c;
        assert(x[0] == h[0]);
        assert(x.last() == c.last());
        lemma_trim_id(x);
        lemma_trim_newline(x);
        assert(trim(text) == x);
        assert(x.take(h.len() as int) == h);
        let r = x.skip(h.len() as int);
        assert(r == seq!['\n'] + c);
        assert(r[0] == '\n');
        lemma_find_char_at(r, '\n', 0);
        assert(r.take(0) =~= e);
        assert(r.skip(1) == c);
        lemma_split_items(items);
        assert(split_on(r, '\n') == seq![e] + item_lines(items));
        lemma_item_lines_ok(items);
        lemma_nonblank_lines(item_lines(items));
        assert(starts_with(trim(text), h));
        assert(after_tag(text, h) == Some(r));
        assert(lines_of(r) == item_lines(items));
    }
}

/// A text that is its own trim stays so with a line feed after it.
pub proof fn lemma_trim_newline(x: Seq<char>)
    requires
        x.len() > 0,
        trim(x) == x,
    ensures
        trim(x + seq!['\n']) == x,
{
    lemma_trim_keeps_ends(x);
    let y = x + seq!['\n'];
    assert(y[0] == x[0]);
    assert(trim_start(y) == y);
    assert(y.last() == '\n');
    assert(y.drop_last() == x);
    assert(trim_end(y) == trim_end(x));
    assert(trim_start(x) == x);
}

} // verus!
