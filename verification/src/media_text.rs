//! What reading back the text of a media segment gives.
use vstd::prelude::*;

use crate::line::{
    cat_items, item_ok, items_ok, lemma_byte_range_line, lemma_map_line, lemma_date_range_line, lemma_discontinuity_line, lemma_inf_line,
    lemma_program_date_time_line, lemma_read_items, lemma_target_duration_line, lemma_uri_line,
    line_kind, LineView, TagView,
};
use crate::master_playlist::joined_lines;
use crate::master_text::{lemma_joined_cat, lemma_joined_concat};
use crate::media_playlist::{
    built_playlist, final_builder, initial_state, lemma_build_succeeds,
    lemma_media_item, max_nanos, media_fold, media_parse, media_state, parse_fits,
    table_of, MediaParseState, MediaPlaylistBuilder, PlaylistBuilderView,
};
use crate::media_segment::{inf_text, line, segment_text, SegmentView};
use crate::slots::slot_room_limit;
use crate::tags::{
    date_range_reads_back, date_range_text, lemma_date_range_roundtrip, lemma_date_range_text_line, lemma_target_duration_roundtrip,
    lemma_byte_range_tag_roundtrip, lemma_map_text_roundtrip, lemma_range_text_ends, map_text, MapView, lemma_range_text_plain, DateRangeView,
    ExtInf, ExtXByteRange, ExtXTargetDuration,
};
use crate::text::{
    dec, is_ws, lemma_after_tag, lemma_dec, lemma_decimal_text_plain,
    lemma_find_char, lemma_find_char_at, lemma_trim_id, no_lf, quoted, strip_quotes, trim,
};
use crate::types::{lemma_duration_roundtrip, range_ok, range_text, ByteRange, Duration};

verus! {

/// A line of text that reads back as itself: not empty, neither starting nor ending
/// with white space, without line feeds.
pub open spec fn text_line_ok(x: Seq<char>) -> bool {
    x.len() > 0 && !is_ws(x[0]) && !is_ws(x.last()) && no_lf(x)
}

/// A segment whose text reads back as itself in a playlist: it has no keys and no
/// explicit number; its map, if any, has no keys, a location without double quotes,
/// line feeds or carriage returns, and a valid range; its byte range, if any, has a
/// start that does not lie after its end; its date range, if any, reads back as
/// itself; its date and time and its title, when it has them, and its location are
/// lines that read back as themselves, and its location does not start with `#`.
pub open spec fn segment_reads_back(v: SegmentView) -> bool {
    &&& (v.map matches Some(m) ==> m.keys.len() == 0 && strip_quotes(m.uri) == m.uri && (
    m.range matches Some(r) ==> range_ok(r@.0, r@.1)))
    &&& (v.byte_range matches Some(r) ==> r.0 is Some && range_ok(r.0, r.1))
    &&& (v.date_range matches Some(d) ==> date_range_reads_back(d))
    &&& v.keys.len() == 0
    &&& !v.explicit_number
    &&& v.duration.0.nanos() < 1_000_000_000
    &&& (v.program_date_time matches Some(p) ==> text_line_ok(p))
    &&& (v.duration.1 matches Some(x) ==> text_line_ok(x))
    &&& text_line_ok(v.uri)
    &&& v.uri[0] != '#'
}

/// A segment that reads back as itself (see [`segment_reads_back`]) and is the first
/// of its playlist, numbered 0.
pub open spec fn plain_segment(v: SegmentView) -> bool {
    segment_reads_back(v) && v.number == 0
}

/// Whether the item `x` reads as the tag `t`.
#[verifier::opaque]
spec fn reads_as(x: Seq<char>, t: TagView) -> bool {
    line_kind(x) == Some(LineView::Tag(t))
}

/// The lines of a plain segment, without their line feeds.
spec fn segment_lines(v: SegmentView) -> Seq<Seq<char>> {
    (match v.map {
        Some(m) => seq!["#EXT-X-MAP:"@ + map_text(m.uri, m.range)],
        None => seq![],
    }) + (match v.byte_range {
        Some(r) => seq!["#EXT-X-BYTERANGE:"@ + range_text(r.0, r.1)],
        None => seq![],
    }) + (match v.date_range {
        Some(d) => seq![date_range_text(d)],
        None => seq![],
    }) + (if v.has_discontinuity {
        seq!["#EXT-X-DISCONTINUITY"@]
    } else {
        seq![]
    }) + (match v.program_date_time {
        Some(p) => seq!["#EXT-X-PROGRAM-DATE-TIME:"@ + p],
        None => seq![],
    }) + seq![inf_text(v.duration), v.uri]
}

/// The text of a plain segment is its lines, each followed by a line feed.
#[verifier::spinoff_prover]
#[verifier::rlimit(80)]
proof fn lemma_segment_lines(v: SegmentView)
    requires
        segment_reads_back(v),
    ensures
        segment_text(v) == joined_lines(segment_lines(v)),
{
    let w: Seq<Seq<char>> = match v.map {
        Some(m) => seq!["#EXT-X-MAP:"@ + map_text(m.uri, m.range)],
        None => seq![],
    };
    let y: Seq<Seq<char>> = match v.byte_range {
        Some(r) => seq!["#EXT-X-BYTERANGE:"@ + range_text(r.0, r.1)],
        None => seq![],
    };
    let z: Seq<Seq<char>> = match v.date_range {
        Some(d) => seq![date_range_text(d)],
        None => seq![],
    };
    let a: Seq<Seq<char>> = if v.has_discontinuity {
        seq!["#EXT-X-DISCONTINUITY"@]
    } else {
        seq![]
    };
    let b: Seq<Seq<char>> = match v.program_date_time {
        Some(p) => seq!["#EXT-X-PROGRAM-DATE-TIME:"@ + p],
        None => seq![],
    };
    let c = seq![inf_text(v.duration), v.uri];
    lemma_joined_concat(w + y + z + a + b, c);
    lemma_joined_concat(w + y + z + a, b);
    lemma_joined_concat(w + y + z, a);
    lemma_joined_concat(w + y, z);
    lemma_joined_concat(w, y);
    if let Some(m) = v.map {
        lemma_joined_one("#EXT-X-MAP:"@ + map_text(m.uri, m.range));
    }
    if let Some(r) = v.byte_range {
        lemma_joined_one("#EXT-X-BYTERANGE:"@ + range_text(r.0, r.1));
    }
    assert(joined_lines(seq![]) == Seq::<char>::empty());
    if let Some(d) = v.date_range {
        lemma_joined_one(date_range_text(d));
    }
    if v.has_discontinuity {
        lemma_joined_one("#EXT-X-DISCONTINUITY"@);
    }
    if let Some(p) = v.program_date_time {
        lemma_joined_one("#EXT-X-PROGRAM-DATE-TIME:"@ + p);
    }
    let c1 = seq![inf_text(v.duration)];
    assert(c.drop_last() =~= c1);
    assert(c.last() == v.uri);
    lemma_joined_one(inf_text(v.duration));
    assert(joined_lines(c) =~= line(inf_text(v.duration)) + line(v.uri));
    assert(segment_text(v) =~= joined_lines(w) + joined_lines(y) + joined_lines(z) + joined_lines(a) + joined_lines(b)
        + joined_lines(c));
}

/// Reading the `#EXTINF` line of a duration and title gives them back, when the title
/// (if any) is a line that reads back as itself.
proof fn lemma_inf_text_roundtrip(d: (Duration, Option<Seq<char>>))
    requires
        d.0.nanos() < 1_000_000_000,
        d.1 matches Some(x) ==> text_line_ok(x),
    ensures
        ExtInf::spec_parse(inf_text(d)) == Some(d),
{
    reveal_strlit("#EXTINF:");
    let p = "#EXTINF:"@;
    let t = d.0.spec_to_string();
    let title = match d.1 {
        Some(x) => x,
        None => Seq::<char>::empty(),
    };
    let r = t + seq![','] + title;
    lemma_decimal_text_plain(d.0.secs(), d.0.nanos());
    assert(inf_text(d) == p + r);
    if title.len() > 0 {
        assert(r.last() == title.last());
    } else {
        assert(r.last() == ',');
    }
    lemma_after_tag(p, r);
    assert forall|j: int| 0 <= j < t.len() implies r[j] != ',' by {
        assert(r[j] == t[j]);
    }
    assert(r[t.len() as int] == ',');
    lemma_find_char_at(r, ',', t.len() as int);
    assert(r.take(t.len() as int) == t);
    assert(r.skip(t.len() + 1int) == title);
    Duration::lemma_secs_bound(d.0);
    lemma_duration_roundtrip(d.0);
    if title.len() > 0 {
        lemma_trim_id(title);
    } else {
        assert(trim(title).len() == 0);
    }
}

/// A line of text is an item that reads back as itself, when it does not start a
/// stream.
proof fn lemma_text_item(x: Seq<char>)
    requires
        text_line_ok(x),
        !crate::text::starts_with(x, "#EXT-X-STREAM-INF:"@),
    ensures
        item_ok(x),
{
    lemma_find_char(x, '\n');
    lemma_trim_id(x);
}

/// A tag `p` followed by a text `x` is a line of text, when `x` (if not empty) is one
/// and `p` is one without a blank end.
proof fn lemma_tag_text_line(p: Seq<char>, x: Seq<char>)
    requires
        text_line_ok(p),
        x.len() > 0 ==> !is_ws(x.last()) && no_lf(x),
    ensures
        text_line_ok(p + x),
{
    let s = p + x;
    assert(s[0] == p[0]);
    if x.len() > 0 {
        assert(s.last() == x.last());
    } else {
        assert(s.last() == p.last());
    }
    assert forall|i: int| 0 <= i < s.len() implies s[i] != '\n' by {
        if i < p.len() {
            assert(s[i] == p[i]);
        } else {
            assert(s[i] == x[i - p.len()]);
        }
    }
}

/// One line, followed by a line feed.
proof fn lemma_joined_one(x: Seq<char>)
    ensures
        joined_lines(seq![x]) == line(x),
{
    assert(seq![x].drop_last() =~= Seq::<Seq<char>>::empty());
    assert(joined_lines(Seq::<Seq<char>>::empty()) == Seq::<char>::empty());
    assert(seq![x].last() == x);
    assert(joined_lines(seq![x]) =~= line(x));
}

/// Decimal digits make a line of text.
proof fn lemma_digits_line(s: Seq<char>)
    requires
        s.len() > 0,
        crate::text::all_digits(s),
    ensures
        text_line_ok(s),
{
    assert(crate::text::is_digit(s[0]));
    assert(crate::text::is_digit(s[s.len() - 1]));
    assert forall|i: int| 0 <= i < s.len() implies s[i] != '\n' by {
        assert(crate::text::is_digit(s[i]));
    }
}

/// The line of the target duration of `n` seconds.
spec fn target_line(n: u64) -> Seq<char> {
    "#EXT-X-TARGETDURATION:"@ + dec(n as nat)
}

/// The target duration of `n` seconds.
spec fn target_tag(n: u64) -> ExtXTargetDuration {
    ExtXTargetDuration(Duration::spec_new(n as nat, 0))
}

/// The line of a target duration reads back as that target duration.
proof fn lemma_target_item(n: u64)
    ensures
        text_line_ok(target_line(n)),
        item_ok(target_line(n)),
        reads_as(target_line(n), TagView::TargetDuration(target_tag(n))),
        target_tag(n).0.secs() == n,
        target_tag(n).0.nanos() == 0,
{
    reveal(reads_as);
    reveal_strlit("#EXT-X-TARGETDURATION:");
    reveal_strlit("#EXT-X-STREAM-INF:");
    let td = target_line(n);
    lemma_dec(n as nat);
    lemma_digits_line(dec(n as nat));
    assert(text_line_ok("#EXT-X-TARGETDURATION:"@));
    lemma_tag_text_line("#EXT-X-TARGETDURATION:"@, dec(n as nat));
    assert(crate::text::starts_with(td, "#EXT-X-TARGETDURATION:"@)) by {
        assert(td.take(22) =~= "#EXT-X-TARGETDURATION:"@);
    }
    lemma_target_duration_line(td);
    lemma_text_item(td);
    Duration::lemma_spec_new(n as nat, 0);
    lemma_target_duration_roundtrip(target_tag(n));
    assert(target_tag(n).spec_to_string() == td);
}

/// The `#EXTINF` line of a plain segment reads back as its duration and title.
proof fn lemma_inf_item(v: SegmentView)
    requires
        segment_reads_back(v),
    ensures
        item_ok(inf_text(v.duration)),
        reads_as(inf_text(v.duration), TagView::Inf(v.duration)),
{
    reveal(reads_as);
    reveal_strlit("#EXTINF:");
    reveal_strlit("#EXT-X-STREAM-INF:");
    let inf = inf_text(v.duration);
    let d = v.duration.0.spec_to_string();
    lemma_decimal_text_plain(v.duration.0.secs(), v.duration.0.nanos());
    let title = match v.duration.1 {
        Some(x) => x,
        None => Seq::<char>::empty(),
    };
    let q = "#EXTINF:"@ + d + seq![','];
    assert(text_line_ok(q)) by {
        assert(q[0] == '#');
        assert(q.last() == ',');
        assert forall|i: int| 0 <= i < q.len() implies q[i] != '\n' by {
            if i >= 8 && i < q.len() - 1 {
                assert(q[i] == d[i - 8]);
            }
        }
    }
    lemma_tag_text_line(q, title);
    assert(inf == q + title);
    assert(crate::text::starts_with(inf, "#EXTINF:"@)) by {
        assert(inf.take(8) =~= "#EXTINF:"@);
    }
    lemma_inf_line(inf);
    lemma_text_item(inf);
    lemma_inf_text_roundtrip(v.duration);
}

/// The line of the date and time `p` reads back as `p`.
proof fn lemma_date_time_item(p: Seq<char>)
    requires
        text_line_ok(p),
    ensures
        item_ok("#EXT-X-PROGRAM-DATE-TIME:"@ + p),
        reads_as("#EXT-X-PROGRAM-DATE-TIME:"@ + p, TagView::ProgramDateTime(p)),
{
    reveal(reads_as);
    reveal_strlit("#EXT-X-PROGRAM-DATE-TIME:");
    reveal_strlit("#EXT-X-STREAM-INF:");
    let x = "#EXT-X-PROGRAM-DATE-TIME:"@ + p;
    assert(text_line_ok("#EXT-X-PROGRAM-DATE-TIME:"@));
    lemma_tag_text_line("#EXT-X-PROGRAM-DATE-TIME:"@, p);
    assert(crate::text::starts_with(x, "#EXT-X-PROGRAM-DATE-TIME:"@)) by {
        assert(x.take(25) =~= "#EXT-X-PROGRAM-DATE-TIME:"@);
    }
    lemma_program_date_time_line(x);
    lemma_text_item(x);
    lemma_after_tag("#EXT-X-PROGRAM-DATE-TIME:"@, p);
}

/// The line of a date range that reads back as itself reads back as that date range.
proof fn lemma_date_range_item(d: DateRangeView)
    requires
        date_range_reads_back(d),
    ensures
        item_ok(date_range_text(d)),
        reads_as(date_range_text(d), TagView::DateRange(d)),
{
    reveal(reads_as);
    reveal_strlit("#EXT-X-DATERANGE:");
    let t = date_range_text(d);
    lemma_date_range_text_line(d);
    lemma_date_range_line(t);
    lemma_date_range_roundtrip(d);
    assert(t[0] == '#') by {
        assert(t.take(17)[0] == t[0]);
    }
    lemma_text_item(t);
}

/// The line of a map reads back as its location and range, when the location holds no
/// double quote, line feed or carriage return and the range is valid.
proof fn lemma_map_item(uri: Seq<char>, range: Option<ByteRange>)
    requires
        strip_quotes(uri) == uri,
        range matches Some(r) ==> range_ok(r@.0, r@.1),
    ensures
        item_ok("#EXT-X-MAP:"@ + map_text(uri, range)),
        reads_as("#EXT-X-MAP:"@ + map_text(uri, range), TagView::InitMap((uri, range))),
{
    reveal(reads_as);
    reveal_strlit("#EXT-X-MAP:");
    reveal_strlit("URI=");
    reveal_strlit(",BYTERANGE=");
    let b = map_text(uri, range);
    let x = "#EXT-X-MAP:"@ + b;
    lemma_map_text_roundtrip(uri, range);
    crate::text::lemma_strip_quotes_plain(uri);
    let qu = quoted(uri);
    assert forall|i: int| 0 <= i < qu.len() implies qu[i] != '\n' by {
        if 0 < i < qu.len() - 1 {
            assert(qu[i] == uri[i - 1]);
            assert(crate::text::strip_quotes(uri)[i - 1] != '\n');
        }
    }
    let tail: Seq<char> = match range {
        Some(r) => ",BYTERANGE="@ + quoted(range_text(r@.0, r@.1)),
        None => seq![],
    };
    if let Some(r) = range {
        let rt = range_text(r@.0, r@.1);
        lemma_range_text_plain(r@.0, r@.1);
        crate::text::lemma_strip_quotes_plain(rt);
        let qr = quoted(rt);
        assert forall|i: int| 0 <= i < qr.len() implies qr[i] != '\n' by {
            if 0 < i < qr.len() - 1 {
                assert(qr[i] == rt[i - 1]);
                assert(crate::text::strip_quotes(rt)[i - 1] != '\n');
            }
        }
        assert forall|i: int| 0 <= i < tail.len() implies tail[i] != '\n' by {
            if i >= 11 {
                assert(tail[i] == qr[i - 11]);
            }
        }
        assert(tail.last() == '"');
    }
    assert(b == "URI="@ + qu + tail);
    assert forall|i: int| 0 <= i < b.len() implies b[i] != '\n' by {
        if 4 <= i < 4 + qu.len() {
            assert(b[i] == qu[i - 4]);
        } else if i >= 4 + qu.len() {
            assert(b[i] == tail[i - 4 - qu.len()]);
        }
    }
    assert(b.last() == '"');
    assert(text_line_ok("#EXT-X-MAP:"@));
    lemma_tag_text_line("#EXT-X-MAP:"@, b);
    assert(crate::text::starts_with(x, "#EXT-X-MAP:"@)) by {
        assert(x.take(11) =~= "#EXT-X-MAP:"@);
    }
    lemma_map_line(x);
    lemma_text_item(x);
}

/// The line of a byte range with a valid start reads back as that byte range.
proof fn lemma_byte_range_item(r: (Option<usize>, usize))
    requires
        range_ok(r.0, r.1),
    ensures
        item_ok("#EXT-X-BYTERANGE:"@ + range_text(r.0, r.1)),
        reads_as("#EXT-X-BYTERANGE:"@ + range_text(r.0, r.1), TagView::ByteRange(r)),
{
    reveal(reads_as);
    reveal_strlit("#EXT-X-BYTERANGE:");
    let b = range_text(r.0, r.1);
    let x = "#EXT-X-BYTERANGE:"@ + b;
    let t = ExtXByteRange(ByteRange::spec_from(r.0, r.1));
    ByteRange::lemma_spec_from(r.0, r.1);
    lemma_byte_range_tag_roundtrip(t);
    assert(t.spec_to_string() == x);
    lemma_range_text_plain(r.0, r.1);
    crate::text::lemma_strip_quotes_plain(b);
    lemma_range_text_ends(r.0, r.1);
    assert(!is_ws(b.last())) by {
        assert(crate::text::is_digit(b.last()));
    }
    assert forall|i: int| 0 <= i < b.len() implies b[i] != '\n' by {
        assert(crate::text::strip_quotes(b)[i] != '\n');
    }
    assert(text_line_ok("#EXT-X-BYTERANGE:"@));
    lemma_tag_text_line("#EXT-X-BYTERANGE:"@, b);
    assert(crate::text::starts_with(x, "#EXT-X-BYTERANGE:"@)) by {
        assert(x.take(17) =~= "#EXT-X-BYTERANGE:"@);
    }
    lemma_byte_range_line(x);
    lemma_text_item(x);
}

/// The discontinuity line reads back as a discontinuity.
proof fn lemma_discontinuity_item()
    ensures
        item_ok("#EXT-X-DISCONTINUITY"@),
        reads_as("#EXT-X-DISCONTINUITY"@, TagView::Discontinuity),
{
    reveal(reads_as);
    reveal_strlit("#EXT-X-DISCONTINUITY");
    lemma_discontinuity_line();
    assert(text_line_ok("#EXT-X-DISCONTINUITY"@));
    lemma_text_item("#EXT-X-DISCONTINUITY"@);
}

/// Every line of a plain segment reads back as itself.
proof fn lemma_segment_items_ok(v: SegmentView)
    requires
        segment_reads_back(v),
    ensures
        items_ok(segment_lines(v)),
{
    let sl = segment_lines(v);
    lemma_inf_item(v);
    lemma_uri_line(v.uri);
    lemma_text_item(v.uri);
    if let Some(m) = v.map {
        lemma_map_item(m.uri, m.range);
    }
    if let Some(r) = v.byte_range {
        lemma_byte_range_item(r);
    }
    if let Some(d) = v.date_range {
        lemma_date_range_item(d);
    }
    if v.has_discontinuity {
        lemma_discontinuity_item();
    }
    if let Some(p) = v.program_date_time {
        lemma_date_time_item(p);
    }
    assert forall|i: int| 0 <= i < sl.len() implies item_ok(#[trigger] sl[i]) by {
        let k: int = (if v.map is Some { 1int } else { 0int }) + (if v.byte_range is Some { 1int } else { 0int }) + (if v.date_range is Some { 1int } else { 0int }) + (if v.has_discontinuity { 1int } else { 0int }) + (if v.program_date_time is Some { 1int } else { 0int });
        assert(sl.len() == k + 2);
        if i == k {
            assert(sl[i] == inf_text(v.duration));
        } else if i == k + 1 {
            assert(sl[i] == v.uri);
        }
    }
}

/// Reading a media playlist made of `#EXTM3U`, a target duration of `n` seconds and the
/// text of one plain segment `v` that lasts no longer than that gives a playlist whose
/// only segment is `v`: its map, byte range, date range, discontinuity, date and time,
/// duration and title and its location all come back.
pub proof fn lemma_segment_roundtrip(n: u64, v: SegmentView)
    requires
        plain_segment(v),
        v.duration.0.total_nanos() <= n * 1_000_000_000,
    ensures
        media_parse(
            MediaPlaylistBuilder::new_view(),
            line("#EXTM3U"@) + line("#EXT-X-TARGETDURATION:"@ + dec(n as nat)) + segment_text(v),
        ) matches Some(p) && p.segments == seq![v],
{
    let vs = seq![v];
    assert(vs.drop_last() =~= Seq::<SegmentView>::empty());
    assert(segments_text(Seq::<SegmentView>::empty()) == Seq::<char>::empty());
    assert(segments_text(vs) =~= segment_text(v));
    assert(slot_room_limit() / 4 > 1);
    lemma_segments_roundtrip(n, vs);
}

/// A state of reading between two segments: no tag of a segment has been read since
/// the last location, and no key is in force.
spec fn at_boundary(st: MediaParseState) -> bool {
    &&& st.duration is None
    &&& st.byte_range is None
    &&& !st.has_discontinuity
    &&& st.map is None
    &&& st.program_date_time is None
    &&& st.date_range is None
    &&& !st.partial
    &&& st.keys.len() == 0
}

/// The segment `v` as reading gives it: numbered 0, its number not explicit.
spec fn as_read(v: SegmentView) -> SegmentView {
    SegmentView { number: 0, explicit_number: false, ..v }
}

/// The state after reading the segment `v` from the state `st` between segments.
spec fn after_segment(st: MediaParseState, v: SegmentView) -> MediaParseState {
    MediaParseState {
        segments: st.segments.push(as_read(v)),
        discontinuity_tag: st.discontinuity_tag || v.has_discontinuity,
        ..st
    }
}

/// Reading one more item, a tag `t`, after the first `k` items.
proof fn lemma_tag_step(
    b: PlaylistBuilderView,
    items: Seq<Seq<char>>,
    k: nat,
    st: MediaParseState,
    t: TagView,
)
    requires
        k < items.len(),
        media_fold(b, items, k) == Some(st),
        reads_as(items[k as int], t),
    ensures
        media_fold(b, items, k + 1) == crate::media_playlist::media_tag_step(st, t),
{
    reveal(reads_as);
    lemma_media_item(st, items[k as int]);
}

/// Reading one more item, a location `u`, after the first `k` items.
proof fn lemma_uri_step(b: PlaylistBuilderView, items: Seq<Seq<char>>, k: nat, st: MediaParseState)
    requires
        k < items.len(),
        media_fold(b, items, k) == Some(st),
        items[k as int].len() > 0,
        items[k as int][0] != '#',
    ensures
        media_fold(b, items, k + 1) == crate::media_playlist::media_step(
            st,
            LineView::Uri(items[k as int]),
        ),
{
    lemma_uri_line(items[k as int]);
    lemma_media_item(st, items[k as int]);
}

/// Reading the lines of a segment that reads back as itself, from a state between
/// segments, adds the segment.
#[verifier::spinoff_prover]
#[verifier::rlimit(80)]
proof fn lemma_segment_fold(
    b: PlaylistBuilderView,
    items: Seq<Seq<char>>,
    j: nat,
    st0: MediaParseState,
    v: SegmentView,
)
    requires
        segment_reads_back(v),
        at_boundary(st0),
        media_fold(b, items, j) == Some(st0),
        j + segment_lines(v).len() <= items.len(),
        forall|i: int| 0 <= i < segment_lines(v).len() ==> items[j + i] == #[trigger] segment_lines(v)[i],
    ensures
        media_fold(b, items, j + segment_lines(v).len()) == Some(after_segment(st0, v)),
{
    reveal_strlit("#EXT-X-DISCONTINUITY");
    let sl = segment_lines(v);
    let inf = inf_text(v.duration);
    lemma_inf_item(v);
    let mut st = st0;
    let mut k: nat = j;
    if let Some(m) = v.map {
        lemma_map_item(m.uri, m.range);
        let x = "#EXT-X-MAP:"@ + map_text(m.uri, m.range);
        assert(sl[k - j] == x);
        assert(items[k as int] == x);
        lemma_tag_step(b, items, k, st, TagView::InitMap((m.uri, m.range)));
        assert(st.keys =~= m.keys);
        st = MediaParseState { partial: true, map: Some(MapView { uri: m.uri, range: m.range, keys: st.keys }), ..st };
        k = k + 1;
        assert(media_fold(b, items, k) == Some(st));
    }
    if let Some(r) = v.byte_range {
        lemma_byte_range_item(r);
        let x = "#EXT-X-BYTERANGE:"@ + range_text(r.0, r.1);
        assert(sl[k - j] == x);
        assert(items[k as int] == x);
        lemma_tag_step(b, items, k, st, TagView::ByteRange(r));
        st = MediaParseState { partial: true, byte_range: Some(r), ..st };
        k = k + 1;
        assert(media_fold(b, items, k) == Some(st));
    }
    if let Some(d) = v.date_range {
        lemma_date_range_item(d);
        assert(sl[k - j] == date_range_text(d));
        assert(items[k as int] == date_range_text(d));
        lemma_tag_step(b, items, k, st, TagView::DateRange(d));
        st = MediaParseState { partial: true, date_range: Some(d), ..st };
        k = k + 1;
        assert(media_fold(b, items, k) == Some(st));
    }
    if v.has_discontinuity {
        lemma_discontinuity_item();
        assert(sl[k - j] == "#EXT-X-DISCONTINUITY"@);
        assert(items[k as int] == "#EXT-X-DISCONTINUITY"@);
        lemma_tag_step(b, items, k, st, TagView::Discontinuity);
        st = MediaParseState { partial: true, has_discontinuity: true, discontinuity_tag: true, ..st };
        k = k + 1;
        assert(media_fold(b, items, k) == Some(st));
    }
    if let Some(p) = v.program_date_time {
        lemma_date_time_item(p);
        assert(sl[k - j] == "#EXT-X-PROGRAM-DATE-TIME:"@ + p);
        assert(items[k as int] == "#EXT-X-PROGRAM-DATE-TIME:"@ + p);
        lemma_tag_step(b, items, k, st, TagView::ProgramDateTime(p));
        st = MediaParseState { partial: true, program_date_time: Some(p), ..st };
        k = k + 1;
        assert(media_fold(b, items, k) == Some(st));
    }
    assert(sl[k - j] == inf);
    assert(items[k as int] == inf);
    lemma_tag_step(b, items, k, st, TagView::Inf(v.duration));
    st = MediaParseState { partial: true, duration: Some(v.duration), ..st };
    k = k + 1;
    assert(media_fold(b, items, k) == Some(st));
    assert(sl[k - j] == v.uri);
    assert(items[k as int] == v.uri);
    assert(k + 1 == j + sl.len());
    lemma_uri_step(b, items, k, st);
    let seg = SegmentView {
        number: 0,
        explicit_number: false,
        keys: st.keys,
        map: st.map,
        byte_range: st.byte_range,
        date_range: st.date_range,
        has_discontinuity: st.has_discontinuity,
        program_date_time: st.program_date_time,
        duration: v.duration,
        uri: v.uri,
    };
    assert(st.keys =~= v.keys);
    assert(seg == as_read(v));
    assert(media_fold(b, items, k + 1) == Some(after_segment(st0, v)));
}

/// The lines of the segments `vs`, one segment after the other.
spec fn all_lines(vs: Seq<SegmentView>) -> Seq<Seq<char>>
    decreases vs.len(),
{
    if vs.len() == 0 {
        seq![]
    } else {
        all_lines(vs.drop_last()) + segment_lines(vs.last())
    }
}

/// The texts of the segments `vs`, one after the other.
pub open spec fn segments_text(vs: Seq<SegmentView>) -> Seq<char>
    decreases vs.len(),
{
    if vs.len() == 0 {
        seq![]
    } else {
        segments_text(vs.drop_last()) + segment_text(vs.last())
    }
}

/// The text of segments that read back as themselves is their lines, each followed by a
/// line feed, and each of those lines reads back as itself.
proof fn lemma_all_lines(vs: Seq<SegmentView>)
    requires
        forall|i: int| 0 <= i < vs.len() ==> segment_reads_back(#[trigger] vs[i]),
    ensures
        segments_text(vs) == joined_lines(all_lines(vs)),
        items_ok(all_lines(vs)),
    decreases vs.len(),
{
    if vs.len() > 0 {
        let a = vs.drop_last();
        assert forall|i: int| 0 <= i < a.len() implies segment_reads_back(#[trigger] a[i]) by {
            assert(a[i] == vs[i]);
        }
        lemma_all_lines(a);
        assert(segment_reads_back(vs[vs.len() - 1]));
        lemma_segment_lines(vs.last());
        lemma_segment_items_ok(vs.last());
        lemma_joined_concat(all_lines(a), segment_lines(vs.last()));
        let x = all_lines(a);
        let y = segment_lines(vs.last());
        assert forall|i: int| 0 <= i < (x + y).len() implies item_ok(#[trigger] (x + y)[i]) by {
            if i < x.len() {
                assert((x + y)[i] == x[i]);
            } else {
                assert((x + y)[i] == y[i - x.len()]);
            }
        }
    } else {
        assert(joined_lines(Seq::<Seq<char>>::empty()) == Seq::<char>::empty());
    }
}

/// The lines of the first `m` segments begin the lines of all of them.
proof fn lemma_all_lines_prefix(vs: Seq<SegmentView>, m: nat)
    requires
        m <= vs.len(),
    ensures
        all_lines(vs.take(m as int)).len() <= all_lines(vs).len(),
        forall|i: int|
            0 <= i < all_lines(vs.take(m as int)).len() ==> #[trigger] all_lines(vs)[i] == all_lines(
                vs.take(m as int),
            )[i],
    decreases vs.len() - m,
{
    if m == vs.len() {
        assert(vs.take(m as int) =~= vs);
    } else {
        lemma_all_lines_prefix(vs.drop_last(), m);
        assert(vs.drop_last().take(m as int) =~= vs.take(m as int));
    }
}

/// The state after reading the target duration of `n` seconds and the first `m`
/// segments of `vs`.
spec fn states(n: u64, vs: Seq<SegmentView>, m: nat) -> MediaParseState
    decreases m,
{
    if m == 0 {
        let b0 = MediaPlaylistBuilder::new_view();
        MediaParseState {
            builder: PlaylistBuilderView { target_duration: Some(target_tag(n).0), ..b0 },
            ..initial_state(b0)
        }
    } else {
        after_segment(states(n, vs, (m - 1) as nat), vs[m - 1])
    }
}

/// Reading the first `m` segments keeps the state between segments and gathers them,
/// as read, in order.
proof fn lemma_states(n: u64, vs: Seq<SegmentView>, m: nat)
    requires
        m <= vs.len(),
    ensures
        at_boundary(states(n, vs, m)),
        states(n, vs, m).builder == (PlaylistBuilderView {
            target_duration: Some(target_tag(n).0),
            ..MediaPlaylistBuilder::new_view()
        }),
        states(n, vs, m).unknown.len() == 0,
        states(n, vs, m).segments == Seq::new(m, |i: int| as_read(vs[i])),
    decreases m,
{
    if m > 0 {
        lemma_states(n, vs, (m - 1) as nat);
        assert(states(n, vs, m).segments =~= Seq::new(m, |i: int| as_read(vs[i])));
    }
}

/// Reading the target duration and the first `m` segments of `vs` gives [`states`].
proof fn lemma_all_fold(n: u64, vs: Seq<SegmentView>, m: nat)
    requires
        m <= vs.len(),
        forall|i: int| 0 <= i < vs.len() ==> segment_reads_back(#[trigger] vs[i]),
    ensures
        media_fold(
            MediaPlaylistBuilder::new_view(),
            seq![target_line(n)] + all_lines(vs),
            1 + all_lines(vs.take(m as int)).len(),
        ) == Some(states(n, vs, m)),
    decreases m,
{
    let b0 = MediaPlaylistBuilder::new_view();
    let items = seq![target_line(n)] + all_lines(vs);
    if m == 0 {
        lemma_target_item(n);
        assert(vs.take(0) =~= Seq::<SegmentView>::empty());
        assert(all_lines(vs.take(0)).len() == 0);
        assert(items[0] == target_line(n));
        assert(media_fold(b0, items, 0) == Some(initial_state(b0)));
        lemma_tag_step(b0, items, 0, initial_state(b0), TagView::TargetDuration(target_tag(n)));
    } else {
        lemma_all_fold(n, vs, (m - 1) as nat);
        lemma_states(n, vs, (m - 1) as nat);
        let pre = vs.take(m - 1);
        let cur = vs.take(m as int);
        assert(cur.drop_last() =~= pre);
        assert(cur.last() == vs[m - 1]);
        assert(all_lines(cur) == all_lines(pre) + segment_lines(vs[m - 1]));
        lemma_all_lines_prefix(vs, m);
        let j = 1 + all_lines(pre).len();
        let sl = segment_lines(vs[m - 1]);
        assert forall|i: int| 0 <= i < sl.len() implies items[j + i] == #[trigger] sl[i] by {
            assert(all_lines(cur)[all_lines(pre).len() + i] == sl[i]);
            assert(all_lines(vs)[all_lines(pre).len() + i] == all_lines(cur)[all_lines(pre).len() + i]);
        }
        lemma_segment_fold(b0, items, j, states(n, vs, (m - 1) as nat), vs[m - 1]);
    }
}

/// Reading a media playlist made of `#EXTM3U`, a target duration of `n` seconds and the
/// texts of the segments `vs`, one after the other, gives the segments back, in order
/// and numbered from 0: every segment reads back as itself and lasts no longer than the
/// target duration.
pub proof fn lemma_segments_roundtrip(n: u64, vs: Seq<SegmentView>)
    requires
        vs.len() < slot_room_limit() / 4,
        forall|i: int|
            0 <= i < vs.len() ==> segment_reads_back(#[trigger] vs[i]) && vs[i].number == i
                && vs[i].duration.0.total_nanos() <= n * 1_000_000_000,
    ensures
        media_parse(
            MediaPlaylistBuilder::new_view(),
            line("#EXTM3U"@) + line("#EXT-X-TARGETDURATION:"@ + dec(n as nat)) + segments_text(vs),
        ) matches Some(p) && p.segments == vs,
{
    reveal_strlit("#EXTM3U");
    let h = "#EXTM3U"@;
    let td = target_line(n);
    let al = all_lines(vs);
    let items = seq![td] + al;
    let text = line(h) + line(td) + segments_text(vs);
    assert forall|i: int| 0 <= i < vs.len() implies segment_reads_back(#[trigger] vs[i]) by {}
    lemma_all_lines(vs);
    lemma_joined_concat(seq![h, td], al);
    assert(seq![h, td].drop_last() =~= seq![h]);
    assert(seq![h, td].last() == td);
    lemma_joined_one(h);
    assert(joined_lines(seq![h, td]) =~= line(h) + line(td));
    assert(seq![h, td] + al =~= seq![h] + items);
    lemma_joined_cat(seq![h] + items);
    assert(text =~= cat_items(seq![h] + items) + seq!['\n']);
    lemma_target_item(n);
    assert(items_ok(items)) by {
        assert forall|i: int| 0 <= i < items.len() implies item_ok(#[trigger] items[i]) by {
            if i == 0 {
                assert(items[i] == td);
            } else {
                assert(items[i] == al[i - 1]);
            }
        }
    }
    lemma_read_items(h, items);
    assert(vs.take(vs.len() as int) =~= vs);
    lemma_all_fold(n, vs, vs.len());
    lemma_states(n, vs, vs.len());
    let fin = states(n, vs, vs.len());
    assert(media_state(MediaPlaylistBuilder::new_view(), text) == Some(fin));
    assert(parse_fits(fin));
    let segs = fin.segments;
    assert forall|i: int| 0 <= i < segs.len() implies !(#[trigger] segs[i]).explicit_number by {}
    crate::media_playlist::lemma_table_of_implicit(segs, segs.len());
    assert(table_of(segs) =~= Seq::new(segs.len(), |i: int| Some(segs[i])));
    let fb = final_builder(fin);
    let t = fb.segments->0;
    assert(max_nanos(target_tag(n).0, None) == n * 1_000_000_000);
    assert forall|i: int| 0 <= i < t.len() implies (#[trigger] t[i])->0.duration.0.total_nanos()
        <= max_nanos(fb.target_duration->0, fb.allowable_excess_duration) by {
        assert(t[i]->0 == as_read(vs[i]));
    }
    assert forall|i: int| 0 <= i < t.len() implies ((#[trigger] t[i])->0.byte_range matches Some(r)
        ==> r.0 is Some) by {
        assert(t[i]->0 == as_read(vs[i]));
        assert(segment_reads_back(vs[i]));
    }
    assert forall|i: int, k: int|
        0 <= i < t.len() && 0 <= k < t[i]->0.keys.len() implies (#[trigger] t[i]->0.keys[k] matches Some(
        key,
    ) && key.method == crate::types::EncryptionMethod::Aes128) by {
        assert(t[i]->0 == as_read(vs[i]));
        assert(segment_reads_back(vs[i]));
    }
    lemma_build_succeeds(fb);
    let ps = built_playlist(fb).segments;
    assert forall|k: int| 0 <= k < vs.len() implies #[trigger] ps[k] == vs[k] by {
        assert(t[k]->0 == as_read(vs[k]));
        assert(segment_reads_back(vs[k]));
        assert(ps[k].keys =~= vs[k].keys);
    }
    assert(ps =~= vs);
}

} // verus!
