//! The text of a master playlist, line by line, and what reading it gives back.
use vstd::prelude::*;

use crate::line::{
    cat_items, item_ok, items_of, items_ok, lemma_cat_items_push, lemma_read_items, lemma_iframe_line, lemma_independent_segments_line, lemma_media_line,
    lemma_not_starts, lemma_session_data_line, lemma_session_key_line, lemma_start_line,
    lemma_version_line, line_kind, line_ok, LineView, TagView,
};
use crate::master_playlist::{
    built_master, first_conflict, joined_lines, lemma_master_item, master_body,
    master_builder_of, master_failure, master_fold, master_head, master_initial, master_parse,
    master_tag_step, master_tail, master_text, master_version, variants_scan, MasterParseState,
    MasterPlaylistView,
};
use crate::media_segment::line;
use crate::tags::{
    iframe_reads_back, iframe_text, lemma_independent_segments_roundtrip, lemma_media_line_ok,
    lemma_media_tag_roundtrip, lemma_session_data_roundtrip, lemma_session_key_roundtrip,
    lemma_start_roundtrip, lemma_stream_inf_lines, lemma_stream_text_ends,
    lemma_stream_text_no_lf, lemma_variant_roundtrip, media_reads_back, media_text,
    opt_quoted_attr, session_data_text, stream_inf_extra, stream_inf_reads_back,
    stream_inf_text, variant_reads_back, variant_text, ExtXIndependentSegments, ExtXStart,
    ExtXVersion, MediaView, SessionDataTagView, SessionDataView, StreamInfView, VariantView,
};
use crate::text::{
    decimal_text, find_char, is_digit, is_ws, lemma_decimal_text_plain, lemma_find_char,
    lemma_find_char_at, lemma_no_lf_concat, lemma_quoted_no_lf, lemma_trim_id,
    lemma_trim_keeps_ends, no_lf, quoted, starts_with, strip_quotes, trim,
};
use crate::types::{
    key_reads_back, key_text, lemma_key_text_ends, lemma_key_text_no_lf,
    lemma_protocol_version_roundtrip, stream_text, KeyView, ProtocolVersion,
};

verus! {

/// The item `x` is read back as itself and reads as the tag `t`.
pub open spec fn item_reads(x: Seq<char>, t: TagView) -> bool {
    item_ok(x) && line_kind(x) == Some(LineView::Tag(t))
}

/// A line that starts with `p`, whose rest holds no line feed and does not end with
/// white space, reads back as one line that does not start a stream.
proof fn lemma_tag_line_ok(p: Seq<char>, b: Seq<char>, j: int)
    requires
        p.len() > 0,
        p[0] == '#',
        0 <= j < p.len(),
        j < "#EXT-X-STREAM-INF:"@.len(),
        p[j] != "#EXT-X-STREAM-INF:"@[j],
        no_lf(p),
        no_lf(b),
        b.len() > 0 ==> !is_ws(b.last()),
        b.len() == 0 ==> !is_ws(p.last()),
    ensures
        line_ok(p + b),
        find_char(p + b, '\n') is None,
        !starts_with(p + b, "#EXT-X-STREAM-INF:"@),
{
    reveal_strlit("#EXT-X-STREAM-INF:");
    let x = p + b;
    lemma_no_lf_concat(p, b);
    assert(x[0] == '#');
    if b.len() > 0 {
        assert(x.last() == b.last());
    } else {
        assert(x == p);
    }
    lemma_trim_id(x);
    lemma_find_char(x, '\n');
    if let Some(k) = find_char(x, '\n') {
        assert(x[k] == '\n');
    }
    assert(x.take(p.len() as int) == p);
    assert(starts_with(x, p));
    lemma_not_starts(x, p, "#EXT-X-STREAM-INF:"@, j);
}

/// The line of a protocol version reads as a version tag.
pub proof fn lemma_version_item(v: ProtocolVersion)
    ensures
        item_reads(
            "#EXT-X-VERSION:"@ + v.spec_to_string(),
            TagView::Version(ExtXVersion(v)),
        ),
{
    reveal_strlit("#EXT-X-STREAM-INF:");
    reveal_strlit("#EXT-X-VERSION:");
    let p = "#EXT-X-VERSION:"@;
    let b = v.spec_to_string();
    lemma_protocol_version_roundtrip(v);
    assert(b.len() == 1);
    crate::text::lemma_digit_char(v.number());
    assert(no_lf(b)) by {
        assert(is_digit(b[0]));
    }
    assert(b.last() == b[0]);
    lemma_tag_line_ok(p, b, 7);
    let x = p + b;
    assert(x.take(p.len() as int) == p);
    lemma_version_line(x);
    crate::tags::lemma_ext_x_version_roundtrip(ExtXVersion(v));
}

/// The line of a rendition that reads back as itself reads as its tag.
pub proof fn lemma_media_item(m: MediaView)
    requires
        media_reads_back(m),
    ensures
        item_reads("#EXT-X-MEDIA:"@ + media_text(m), TagView::Media(m)),
{
    reveal_strlit("#EXT-X-MEDIA:");
    reveal_strlit("#EXT-X-STREAM-INF:");
    let x = "#EXT-X-MEDIA:"@ + media_text(m);
    lemma_media_line_ok(m);
    lemma_find_char(x, '\n');
    if let Some(k) = find_char(x, '\n') {
        assert(x[k] == '\n');
    }
    lemma_not_starts(x, "#EXT-X-MEDIA:"@, "#EXT-X-STREAM-INF:"@, 7);
    lemma_media_line(x);
    lemma_media_tag_roundtrip(m);
}

/// The line of a session key that reads back as itself reads as its tag.
pub proof fn lemma_session_key_item(k: KeyView)
    requires
        key_reads_back(k),
    ensures
        item_reads("#EXT-X-SESSION-KEY:"@ + key_text(k), TagView::SessionKey(k)),
{
    reveal_strlit("#EXT-X-STREAM-INF:");
    reveal_strlit("#EXT-X-SESSION-KEY:");
    let p = "#EXT-X-SESSION-KEY:"@;
    lemma_key_text_ends(k);
    lemma_key_text_no_lf(k);
    lemma_tag_line_ok(p, key_text(k), 8);
    let x = p + key_text(k);
    assert(x.take(p.len() as int) == p);
    lemma_session_key_line(x);
    lemma_session_key_roundtrip(k);
}

/// The line of session data that reads back as itself reads as its tag.
pub proof fn lemma_session_data_item(d: SessionDataTagView)
    requires
        strip_quotes(d.data_id) == d.data_id,
        d.data matches SessionDataView::Value(v) ==> strip_quotes(v) == v,
        d.data matches SessionDataView::Uri(u) ==> strip_quotes(u) == u,
        d.language matches Some(l) ==> strip_quotes(l) == l,
    ensures
        item_reads(session_data_text(d), TagView::SessionData(d)),
{
    reveal_strlit("#EXT-X-STREAM-INF:");
    reveal_strlit("#EXT-X-SESSION-DATA:");
    reveal_strlit("DATA-ID=");
    reveal_strlit(",VALUE=");
    reveal_strlit(",URI=");
    reveal_strlit("LANGUAGE");
    let p = "#EXT-X-SESSION-DATA:"@;
    let a = "DATA-ID="@ + quoted(d.data_id);
    let b = match d.data {
        SessionDataView::Value(v) => ",VALUE="@ + quoted(v),
        SessionDataView::Uri(u) => ",URI="@ + quoted(u),
    };
    let c = opt_quoted_attr("LANGUAGE"@, d.language);
    lemma_quoted_no_lf(d.data_id);
    lemma_no_lf_concat("DATA-ID="@, quoted(d.data_id));
    match d.data {
        SessionDataView::Value(v) => {
            lemma_quoted_no_lf(v);
            lemma_no_lf_concat(",VALUE="@, quoted(v));
        },
        SessionDataView::Uri(u) => {
            lemma_quoted_no_lf(u);
            lemma_no_lf_concat(",URI="@, quoted(u));
        },
    }
    if let Some(l) = d.language {
        lemma_quoted_no_lf(l);
        lemma_no_lf_concat(seq![','] + "LANGUAGE"@ + seq!['='], quoted(l));
        assert(c == seq![','] + "LANGUAGE"@ + seq!['='] + quoted(l));
    }
    lemma_no_lf_concat(a, b);
    lemma_no_lf_concat(a + b, c);
    let body = a + b + c;
    assert(session_data_text(d) == p + body);
    if c.len() > 0 {
        assert(body.last() == c.last());
    } else {
        assert(body.last() == b.last());
    }
    lemma_tag_line_ok(p, body, 8);
    let x = p + body;
    assert(x.take(p.len() as int) == p);
    lemma_session_data_line(x);
    lemma_session_data_roundtrip(d);
}

/// The line of independent segments reads as its tag.
pub proof fn lemma_independent_segments_item()
    ensures
        item_reads("#EXT-X-INDEPENDENT-SEGMENTS"@, TagView::IndependentSegments),
{
    reveal_strlit("#EXT-X-STREAM-INF:");
    reveal_strlit("#EXT-X-INDEPENDENT-SEGMENTS");
    let p = "#EXT-X-INDEPENDENT-SEGMENTS"@;
    lemma_tag_line_ok(p, Seq::<char>::empty(), 7);
    assert(p + Seq::<char>::empty() == p);
    assert(p.take(p.len() as int) == p);
    lemma_independent_segments_line(p);
    lemma_independent_segments_roundtrip(ExtXIndependentSegments);
}

/// The line of a start tag reads as its tag, when its offset is written exactly.
pub proof fn lemma_start_item(t: ExtXStart)
    requires
        t.offset()@.2 < 1_000_000_000,
        t.offset()@.0 ==> t.offset()@.1 != 0 || t.offset()@.2 != 0,
    ensures
        item_reads(t.spec_to_string(), TagView::Start((t.offset(), t.precise()))),
{
    reveal_strlit("#EXT-X-STREAM-INF:");
    reveal_strlit("#EXT-X-START:");
    reveal_strlit("TIME-OFFSET=");
    reveal_strlit(",PRECISE=YES");
    let p = "#EXT-X-START:"@;
    let x = t.offset();
    let ft = x.spec_to_string();
    let d = decimal_text(x@.1 as nat, x@.2 as nat);
    lemma_decimal_text_plain(x@.1 as nat, x@.2 as nat);
    assert(no_lf(ft)) by {
        assert forall|i: int| 0 <= i < ft.len() implies ft[i] != '\n' by {
            if x@.0 {
                if i > 0 {
                    assert(ft[i] == d[i - 1]);
                }
            } else {
                assert(ft[i] == d[i]);
            }
        }
    }
    assert(ft.len() > 0);
    assert(!is_ws(ft.last())) by {
        if x@.0 {
            assert(ft.last() == d.last());
        }
        assert(d.last() == d[d.len() - 1]);
    }
    let pr = if t.precise() {
        ",PRECISE=YES"@
    } else {
        seq![]
    };
    lemma_no_lf_concat("TIME-OFFSET="@, ft);
    lemma_no_lf_concat("TIME-OFFSET="@ + ft, pr);
    let body = "TIME-OFFSET="@ + ft + pr;
    if t.precise() {
        assert(body.last() == 'S');
    } else {
        assert(body.last() == ft.last());
    }
    assert(t.spec_to_string() == p + body);
    lemma_tag_line_ok(p, body, 9);
    let y = p + body;
    assert(y.take(p.len() as int) == p);
    lemma_start_line(y);
    lemma_start_roundtrip(t);
}

/// The line of an I-frame stream that reads back as itself reads as its tag.
pub proof fn lemma_iframe_item(i: crate::tags::IFrameView)
    requires
        iframe_reads_back(i),
    ensures
        item_reads(iframe_text(i), TagView::Variant(VariantView::IFrame(i))),
{
    reveal_strlit("#EXT-X-STREAM-INF:");
    reveal_strlit("#EXT-X-I-FRAME-STREAM-INF:");
    reveal_strlit("URI=");
    let p = "#EXT-X-I-FRAME-STREAM-INF:"@;
    let a = "URI="@ + quoted(i.uri) + seq![','];
    let s = stream_text(i.stream);
    lemma_quoted_no_lf(i.uri);
    lemma_no_lf_concat("URI="@, quoted(i.uri));
    lemma_no_lf_concat("URI="@ + quoted(i.uri), seq![',']);
    lemma_stream_text_no_lf(i.stream);
    lemma_stream_text_ends(i.stream);
    lemma_no_lf_concat(a, s);
    let body = a + s;
    assert(body.last() == s.last());
    assert(iframe_text(i) == p + body);
    lemma_tag_line_ok(p, body, 7);
    let x = p + body;
    assert(x.take(p.len() as int) == p);
    lemma_iframe_line(x);
    lemma_variant_roundtrip(VariantView::IFrame(i));
}

/// The two lines of a stream that reads back as itself read as its tag.
pub proof fn lemma_stream_inf_item(i: StreamInfView)
    requires
        stream_inf_reads_back(i),
    ensures
        item_reads(stream_inf_text(i), TagView::Variant(VariantView::StreamInf(i))),
{
    reveal_strlit("#EXT-X-STREAM-INF:");
    let p = "#EXT-X-STREAM-INF:"@;
    let a = stream_text(i.stream) + stream_inf_extra(i);
    lemma_stream_inf_lines(i);
    lemma_no_lf_concat(p, a);
    let t = p + a;
    let x = stream_inf_text(i);
    assert(x == t + seq!['\n'] + i.uri);
    assert(t[0] == '#');
    assert(t.last() == a.last());
    lemma_trim_id(t);
    assert forall|j: int| 0 <= j < t.len() implies x[j] != '\n' by {
        assert(x[j] == t[j]);
    }
    assert(x[t.len() as int] == '\n');
    lemma_find_char_at(x, '\n', t.len() as int);
    assert(x.take(t.len() as int) == t);
    assert(x.skip(t.len() + 1int) == i.uri);
    assert(t.take(p.len() as int) == p);
    assert(x.take(p.len() as int) == p);
    lemma_variant_roundtrip(VariantView::StreamInf(i));
}

/// The text of a variant stream that reads back as itself reads as its tag.
pub proof fn lemma_variant_item(v: VariantView)
    requires
        variant_reads_back(v),
    ensures
        item_reads(variant_text(v), TagView::Variant(v)),
{
    match v {
        VariantView::IFrame(i) => lemma_iframe_item(i),
        VariantView::StreamInf(s) => lemma_stream_inf_item(s),
    }
}

/// Every item of `xs` reads back as itself and as the tag of `ts` at the same place.
pub open spec fn items_tagged(xs: Seq<Seq<char>>, ts: Seq<TagView>) -> bool {
    &&& xs.len() == ts.len()
    &&& forall|i: int| 0 <= i < xs.len() ==> item_reads(#[trigger] xs[i], ts[i])
}

/// Tagged items one after the other are tagged items.
pub proof fn lemma_items_tagged_concat(
    xs: Seq<Seq<char>>,
    ts: Seq<TagView>,
    ys: Seq<Seq<char>>,
    us: Seq<TagView>,
)
    requires
        items_tagged(xs, ts),
        items_tagged(ys, us),
    ensures
        items_tagged(xs + ys, ts + us),
{
    assert forall|i: int| 0 <= i < (xs + ys).len() implies item_reads(
        #[trigger] (xs + ys)[i],
        (ts + us)[i],
    ) by {
        if i < xs.len() {
            assert((xs + ys)[i] == xs[i] && (ts + us)[i] == ts[i]);
        } else {
            assert((xs + ys)[i] == ys[i - xs.len()] && (ts + us)[i] == us[i - xs.len()]);
        }
    }
}

/// Tagged items read back as themselves.
pub proof fn lemma_items_tagged_ok(xs: Seq<Seq<char>>, ts: Seq<TagView>)
    requires
        items_tagged(xs, ts),
    ensures
        items_ok(xs),
{
    assert forall|i: int| 0 <= i < xs.len() implies item_ok(#[trigger] xs[i]) by {
        assert(item_reads(xs[i], ts[i]));
    }
}

/// The state after the tags `ts`, one after the other, from the state `st`.
pub open spec fn tag_steps(st: MasterParseState, ts: Seq<TagView>) -> Option<MasterParseState>
    decreases ts.len(),
{
    if ts.len() == 0 {
        Some(st)
    } else {
        match tag_steps(st, ts.drop_last()) {
            Some(x) => master_tag_step(x, ts.last()),
            None => None,
        }
    }
}

/// Reading tagged items is taking their tags one after the other.
pub proof fn lemma_fold_items(xs: Seq<Seq<char>>, ts: Seq<TagView>, k: nat)
    requires
        items_tagged(xs, ts),
        k <= xs.len(),
    ensures
        master_fold(xs, k) == tag_steps(master_initial(), ts.take(k as int)),
    decreases k,
{
    if k == 0 {
        assert(ts.take(0) =~= Seq::<TagView>::empty());
    } else {
        lemma_fold_items(xs, ts, (k - 1) as nat);
        assert(item_reads(xs[k - 1], ts[k - 1]));
        assert(ts.take(k as int).drop_last() =~= ts.take(k - 1));
        assert(ts.take(k as int).last() == ts[k - 1]);
        if let Some(st) = master_fold(xs, (k - 1) as nat) {
            lemma_master_item(st, xs[k - 1]);
        }
    }
}

/// Taking the tags of two lists is taking those of the first, then those of the second.
pub proof fn lemma_tag_steps_concat(st: MasterParseState, a: Seq<TagView>, b: Seq<TagView>)
    ensures
        tag_steps(st, a + b) == match tag_steps(st, a) {
            Some(x) => tag_steps(x, b),
            None => None,
        },
    decreases b.len(),
{
    if b.len() == 0 {
        assert(a + b =~= a);
    } else {
        lemma_tag_steps_concat(st, a, b.drop_last());
        assert((a + b).drop_last() =~= a + b.drop_last());
        assert((a + b).last() == b.last());
    }
}

/// Taking the tags of renditions adds the renditions.
proof fn lemma_steps_media(st: MasterParseState, ms: Seq<MediaView>)
    ensures
        tag_steps(st, Seq::new(ms.len(), |i: int| TagView::Media(ms[i]))) == Some(
            MasterParseState { media: st.media + ms, ..st },
        ),
    decreases ms.len(),
{
    let ts = Seq::new(ms.len(), |i: int| TagView::Media(ms[i]));
    if ms.len() == 0 {
        assert(st.media + ms =~= st.media);
    } else {
        let r = ms.drop_last();
        lemma_steps_media(st, r);
        assert(ts.drop_last() =~= Seq::new(r.len(), |i: int| TagView::Media(r[i])));
        assert(st.media + r.push(ms.last()) =~= st.media + ms) by {
            assert(r.push(ms.last()) =~= ms);
        }
        assert((st.media + r).push(ms.last()) =~= st.media + ms);
    }
}

/// Taking the tags of variant streams adds the variant streams.
proof fn lemma_steps_variants(st: MasterParseState, vs: Seq<VariantView>)
    ensures
        tag_steps(st, Seq::new(vs.len(), |i: int| TagView::Variant(vs[i]))) == Some(
            MasterParseState { variant_streams: st.variant_streams + vs, ..st },
        ),
    decreases vs.len(),
{
    let ts = Seq::new(vs.len(), |i: int| TagView::Variant(vs[i]));
    if vs.len() == 0 {
        assert(st.variant_streams + vs =~= st.variant_streams);
    } else {
        let r = vs.drop_last();
        lemma_steps_variants(st, r);
        assert(ts.drop_last() =~= Seq::new(r.len(), |i: int| TagView::Variant(r[i])));
        assert((st.variant_streams + r).push(vs.last()) =~= st.variant_streams + vs);
    }
}

/// Taking the tags of session data adds the session data.
proof fn lemma_steps_session_data(st: MasterParseState, ds: Seq<SessionDataTagView>)
    ensures
        tag_steps(st, Seq::new(ds.len(), |i: int| TagView::SessionData(ds[i]))) == Some(
            MasterParseState { session_data: st.session_data + ds, ..st },
        ),
    decreases ds.len(),
{
    let ts = Seq::new(ds.len(), |i: int| TagView::SessionData(ds[i]));
    if ds.len() == 0 {
        assert(st.session_data + ds =~= st.session_data);
    } else {
        let r = ds.drop_last();
        lemma_steps_session_data(st, r);
        assert(ts.drop_last() =~= Seq::new(r.len(), |i: int| TagView::SessionData(r[i])));
        assert((st.session_data + r).push(ds.last()) =~= st.session_data + ds);
    }
}

/// Taking the tags of session keys adds the session keys.
proof fn lemma_steps_session_keys(st: MasterParseState, ks: Seq<KeyView>)
    ensures
        tag_steps(st, Seq::new(ks.len(), |i: int| TagView::SessionKey(ks[i]))) == Some(
            MasterParseState { session_keys: st.session_keys + ks, ..st },
        ),
    decreases ks.len(),
{
    let ts = Seq::new(ks.len(), |i: int| TagView::SessionKey(ks[i]));
    if ks.len() == 0 {
        assert(st.session_keys + ks =~= st.session_keys);
    } else {
        let r = ks.drop_last();
        lemma_steps_session_keys(st, r);
        assert(ts.drop_last() =~= Seq::new(r.len(), |i: int| TagView::SessionKey(r[i])));
        assert((st.session_keys + r).push(ks.last()) =~= st.session_keys + ks);
    }
}

/// Taking unknown tags adds them.
proof fn lemma_steps_unknown(st: MasterParseState, us: Seq<Seq<char>>)
    ensures
        tag_steps(st, Seq::new(us.len(), |i: int| TagView::Unknown(us[i]))) == Some(
            MasterParseState { unknown_tags: st.unknown_tags + us, ..st },
        ),
    decreases us.len(),
{
    let ts = Seq::new(us.len(), |i: int| TagView::Unknown(us[i]));
    if us.len() == 0 {
        assert(st.unknown_tags + us =~= st.unknown_tags);
    } else {
        let r = us.drop_last();
        lemma_steps_unknown(st, r);
        assert(ts.drop_last() =~= Seq::new(r.len(), |i: int| TagView::Unknown(r[i])));
        assert((st.unknown_tags + r).push(us.last()) =~= st.unknown_tags + us);
    }
}

/// Texts joined, each followed by a line feed, one list after the other.
pub proof fn lemma_joined_concat(a: Seq<Seq<char>>, b: Seq<Seq<char>>)
    ensures
        joined_lines(a + b) == joined_lines(a) + joined_lines(b),
    decreases b.len(),
{
    if b.len() == 0 {
        assert(a + b =~= a);
        assert(joined_lines(a) + joined_lines(b) =~= joined_lines(a));
    } else {
        lemma_joined_concat(a, b.drop_last());
        assert((a + b).drop_last() =~= a + b.drop_last());
        assert((a + b).last() == b.last());
        assert(joined_lines(a + b) =~= joined_lines(a) + joined_lines(b));
    }
}

/// Texts each followed by a line feed are the texts joined by line feeds, and a line
/// feed.
pub proof fn lemma_joined_cat(a: Seq<Seq<char>>)
    requires
        a.len() > 0,
    ensures
        joined_lines(a) == cat_items(a) + seq!['\n'],
    decreases a.len(),
{
    if a.len() == 1 {
        assert(a.drop_last() =~= Seq::<Seq<char>>::empty());
        assert(joined_lines(Seq::<Seq<char>>::empty()) == Seq::<char>::empty());
        assert(a.last() == a[0]);
        assert(cat_items(a) == a[0]);
        assert(joined_lines(a) =~= cat_items(a) + seq!['\n']);
    } else {
        lemma_joined_cat(a.drop_last());
        lemma_cat_items_push(a.drop_last(), a.last());
        assert(a.drop_last().push(a.last()) =~= a);
        assert(joined_lines(a) =~= cat_items(a) + seq!['\n']);
    }
}

/// The line of the protocol version of a master playlist, unless it is 1.
pub open spec fn version_items(v: MasterPlaylistView) -> Seq<Seq<char>> {
    if master_version(v) != ProtocolVersion::V1 {
        seq!["#EXT-X-VERSION:"@ + master_version(v).spec_to_string()]
    } else {
        seq![]
    }
}

/// The tag of the protocol version of a master playlist, unless it is 1.
pub open spec fn version_tags(v: MasterPlaylistView) -> Seq<TagView> {
    if master_version(v) != ProtocolVersion::V1 {
        seq![TagView::Version(ExtXVersion(master_version(v)))]
    } else {
        seq![]
    }
}

/// The line of independent segments, when they are.
pub open spec fn independent_items(v: MasterPlaylistView) -> Seq<Seq<char>> {
    if v.has_independent_segments {
        seq!["#EXT-X-INDEPENDENT-SEGMENTS"@]
    } else {
        seq![]
    }
}

/// The tag of independent segments, when they are.
pub open spec fn independent_tags(v: MasterPlaylistView) -> Seq<TagView> {
    if v.has_independent_segments {
        seq![TagView::IndependentSegments]
    } else {
        seq![]
    }
}

/// The line of the start, if there is one.
pub open spec fn start_items(v: MasterPlaylistView) -> Seq<Seq<char>> {
    match v.start {
        Some(t) => seq![t.spec_to_string()],
        None => seq![],
    }
}

/// The tag of the start, if there is one.
pub open spec fn start_tags(v: MasterPlaylistView) -> Seq<TagView> {
    match v.start {
        Some(t) => seq![TagView::Start((t.offset(), t.precise()))],
        None => seq![],
    }
}

/// The items of a master playlist after `#EXTM3U`, in the order it is written.
pub open spec fn master_items(v: MasterPlaylistView) -> Seq<Seq<char>> {
    version_items(v) + Seq::new(v.media.len(), |i: int| "#EXT-X-MEDIA:"@ + media_text(v.media[i]))
        + Seq::new(v.variant_streams.len(), |i: int| variant_text(v.variant_streams[i]))
        + Seq::new(v.session_data.len(), |i: int| session_data_text(v.session_data[i]))
        + Seq::new(
        v.session_keys.len(),
        |i: int| "#EXT-X-SESSION-KEY:"@ + key_text(v.session_keys[i]),
    ) + independent_items(v) + start_items(v) + v.unknown_tags
}

/// The tags of the items of a master playlist, in order.
pub open spec fn master_tags(v: MasterPlaylistView) -> Seq<TagView> {
    version_tags(v) + Seq::new(v.media.len(), |i: int| TagView::Media(v.media[i])) + Seq::new(
        v.variant_streams.len(),
        |i: int| TagView::Variant(v.variant_streams[i]),
    ) + Seq::new(v.session_data.len(), |i: int| TagView::SessionData(v.session_data[i]))
        + Seq::new(v.session_keys.len(), |i: int| TagView::SessionKey(v.session_keys[i]))
        + independent_tags(v) + start_tags(v) + Seq::new(
        v.unknown_tags.len(),
        |i: int| TagView::Unknown(v.unknown_tags[i]),
    )
}

/// Appending nine pieces in three groups is appending the first to the rest.
proof fn lemma_concat_nine(
    a: Seq<char>,
    b: Seq<char>,
    c: Seq<char>,
    d: Seq<char>,
    e: Seq<char>,
    f: Seq<char>,
    g: Seq<char>,
    h: Seq<char>,
    k: Seq<char>,
)
    ensures
        (a + b + c) + (d + e + f) + (g + h + k) == a + (b + c + d + e + f + g + h + k),
{
    assert((a + b + c) + (d + e + f) + (g + h + k) =~= a + (b + c + d + e + f + g + h + k));
}

/// The parts of the text of a master playlist, as joined lines.
proof fn lemma_master_parts(v: MasterPlaylistView)
    ensures
        master_head(v) == joined_lines(seq!["#EXTM3U"@]) + joined_lines(version_items(v))
            + joined_lines(
            Seq::new(v.media.len(), |i: int| "#EXT-X-MEDIA:"@ + media_text(v.media[i])),
        ),
        master_body(v) == joined_lines(
            Seq::new(v.variant_streams.len(), |i: int| variant_text(v.variant_streams[i])),
        ) + joined_lines(
            Seq::new(v.session_data.len(), |i: int| session_data_text(v.session_data[i])),
        ) + joined_lines(
            Seq::new(
                v.session_keys.len(),
                |i: int| "#EXT-X-SESSION-KEY:"@ + key_text(v.session_keys[i]),
            ),
        ),
        master_tail(v) == joined_lines(independent_items(v)) + joined_lines(start_items(v))
            + joined_lines(v.unknown_tags),
{
    let h = seq!["#EXTM3U"@];
    let vi = version_items(v);
    let ii = independent_items(v);
    let si = start_items(v);
    assert(joined_lines(Seq::<Seq<char>>::empty()) == Seq::<char>::empty());
    assert(h.drop_last() =~= Seq::<Seq<char>>::empty());
    if vi.len() > 0 {
        assert(vi.drop_last() =~= Seq::<Seq<char>>::empty());
    }
    if ii.len() > 0 {
        assert(ii.drop_last() =~= Seq::<Seq<char>>::empty());
    }
    if si.len() > 0 {
        assert(si.drop_last() =~= Seq::<Seq<char>>::empty());
    }
}

/// The text of a master playlist is `#EXTM3U` and its items, each on its own line(s).
pub proof fn lemma_master_text_items(v: MasterPlaylistView)
    ensures
        master_text(v) == cat_items(seq!["#EXTM3U"@] + master_items(v)) + seq!['\n'],
{
    let h = seq!["#EXTM3U"@];
    let vi = version_items(v);
    let mi = Seq::new(v.media.len(), |i: int| "#EXT-X-MEDIA:"@ + media_text(v.media[i]));
    let wi = Seq::new(v.variant_streams.len(), |i: int| variant_text(v.variant_streams[i]));
    let di = Seq::new(v.session_data.len(), |i: int| session_data_text(v.session_data[i]));
    let ki = Seq::new(
        v.session_keys.len(),
        |i: int| "#EXT-X-SESSION-KEY:"@ + key_text(v.session_keys[i]),
    );
    let ii = independent_items(v);
    let si = start_items(v);
    let ui = v.unknown_tags;
    lemma_master_parts(v);
    lemma_concat_nine(
        joined_lines(h),
        joined_lines(vi),
        joined_lines(mi),
        joined_lines(wi),
        joined_lines(di),
        joined_lines(ki),
        joined_lines(ii),
        joined_lines(si),
        joined_lines(ui),
    );
    lemma_joined_concat(vi, mi);
    lemma_joined_concat(vi + mi, wi);
    lemma_joined_concat(vi + mi + wi, di);
    lemma_joined_concat(vi + mi + wi + di, ki);
    lemma_joined_concat(vi + mi + wi + di + ki, ii);
    lemma_joined_concat(vi + mi + wi + di + ki + ii, si);
    lemma_joined_concat(vi + mi + wi + di + ki + ii + si, ui);
    lemma_joined_concat(h, master_items(v));
    lemma_joined_cat(h + master_items(v));
}

/// Session data whose text reads back as itself: its texts hold no double quote, line
/// feed or carriage return.
pub open spec fn session_data_reads_back(d: SessionDataTagView) -> bool {
    &&& strip_quotes(d.data_id) == d.data_id
    &&& (d.data matches SessionDataView::Value(x) ==> strip_quotes(x) == x)
    &&& (d.data matches SessionDataView::Uri(u) ==> strip_quotes(u) == u)
    &&& (d.language matches Some(l) ==> strip_quotes(l) == l)
}

/// Master playlists whose text reads back as themselves: valid as the builder requires
/// (every group a variant stream names has a rendition, and no two session data share
/// an id and a language), with tags that each read back as themselves, and unknown tags
/// that read as unknown tags.
pub open spec fn master_reads_back(v: MasterPlaylistView) -> bool {
    &&& variants_scan(v.media, v.variant_streams, v.variant_streams.len()).0 is None
    &&& first_conflict(v.session_data) is None
    &&& forall|i: int| 0 <= i < v.media.len() ==> media_reads_back(#[trigger] v.media[i])
    &&& forall|i: int|
        0 <= i < v.variant_streams.len() ==> variant_reads_back(#[trigger] v.variant_streams[i])
    &&& forall|i: int|
        0 <= i < v.session_data.len() ==> session_data_reads_back(#[trigger] v.session_data[i])
    &&& forall|i: int| 0 <= i < v.session_keys.len() ==> key_reads_back(#[trigger] v.session_keys[i])
    &&& (v.start matches Some(t) ==> t.offset()@.2 < 1_000_000_000 && (t.offset()@.0
        ==> t.offset()@.1 != 0 || t.offset()@.2 != 0))
    &&& forall|i: int|
        0 <= i < v.unknown_tags.len() ==> item_reads(
            #[trigger] v.unknown_tags[i],
            TagView::Unknown(v.unknown_tags[i]),
        )
}

/// Every item of a master playlist that reads back as itself reads as its tag.
proof fn lemma_master_items_tagged(v: MasterPlaylistView)
    requires
        master_reads_back(v),
    ensures
        items_tagged(master_items(v), master_tags(v)),
{
    let vi = version_items(v);
    let vt = version_tags(v);
    if master_version(v) != ProtocolVersion::V1 {
        lemma_version_item(master_version(v));
    }
    assert(items_tagged(vi, vt));
    let mi = Seq::new(v.media.len(), |i: int| "#EXT-X-MEDIA:"@ + media_text(v.media[i]));
    let mt = Seq::new(v.media.len(), |i: int| TagView::Media(v.media[i]));
    assert forall|i: int| 0 <= i < mi.len() implies item_reads(#[trigger] mi[i], mt[i]) by {
        lemma_media_item(v.media[i]);
    }
    let wi = Seq::new(v.variant_streams.len(), |i: int| variant_text(v.variant_streams[i]));
    let wt = Seq::new(v.variant_streams.len(), |i: int| TagView::Variant(v.variant_streams[i]));
    assert forall|i: int| 0 <= i < wi.len() implies item_reads(#[trigger] wi[i], wt[i]) by {
        lemma_variant_item(v.variant_streams[i]);
    }
    let di = Seq::new(v.session_data.len(), |i: int| session_data_text(v.session_data[i]));
    let dt = Seq::new(v.session_data.len(), |i: int| TagView::SessionData(v.session_data[i]));
    assert forall|i: int| 0 <= i < di.len() implies item_reads(#[trigger] di[i], dt[i]) by {
        assert(session_data_reads_back(v.session_data[i]));
        lemma_session_data_item(v.session_data[i]);
    }
    let ki = Seq::new(
        v.session_keys.len(),
        |i: int| "#EXT-X-SESSION-KEY:"@ + key_text(v.session_keys[i]),
    );
    let kt = Seq::new(v.session_keys.len(), |i: int| TagView::SessionKey(v.session_keys[i]));
    assert forall|i: int| 0 <= i < ki.len() implies item_reads(#[trigger] ki[i], kt[i]) by {
        lemma_session_key_item(v.session_keys[i]);
    }
    let ii = independent_items(v);
    let it = independent_tags(v);
    if v.has_independent_segments {
        lemma_independent_segments_item();
    }
    assert(items_tagged(ii, it));
    let si = start_items(v);
    let st = start_tags(v);
    if let Some(t) = v.start {
        lemma_start_item(t);
    }
    assert(items_tagged(si, st));
    let ui = v.unknown_tags;
    let ut = Seq::new(v.unknown_tags.len(), |i: int| TagView::Unknown(v.unknown_tags[i]));
    assert(items_tagged(ui, ut));
    lemma_items_tagged_concat(vi, vt, mi, mt);
    lemma_items_tagged_concat(vi + mi, vt + mt, wi, wt);
    lemma_items_tagged_concat(vi + mi + wi, vt + mt + wt, di, dt);
    lemma_items_tagged_concat(vi + mi + wi + di, vt + mt + wt + dt, ki, kt);
    lemma_items_tagged_concat(vi + mi + wi + di + ki, vt + mt + wt + dt + kt, ii, it);
    lemma_items_tagged_concat(
        vi + mi + wi + di + ki + ii,
        vt + mt + wt + dt + kt + it,
        si,
        st,
    );
    lemma_items_tagged_concat(
        vi + mi + wi + di + ki + ii + si,
        vt + mt + wt + dt + kt + it + st,
        ui,
        ut,
    );
}

/// The state that reading the items of a master playlist ends in.
pub open spec fn master_state(v: MasterPlaylistView) -> MasterParseState {
    MasterParseState {
        has_independent_segments: if v.has_independent_segments {
            Some(true)
        } else {
            None
        },
        start: v.start,
        media: v.media,
        variant_streams: v.variant_streams,
        session_data: v.session_data,
        session_keys: v.session_keys,
        unknown_tags: v.unknown_tags,
    }
}

/// Taking the tags of a master playlist ends in its state.
proof fn lemma_master_tag_steps(v: MasterPlaylistView)
    ensures
        tag_steps(master_initial(), master_tags(v)) == Some(master_state(v)),
{
    let s0 = master_initial();
    let vt = version_tags(v);
    let mt = Seq::new(v.media.len(), |i: int| TagView::Media(v.media[i]));
    let wt = Seq::new(v.variant_streams.len(), |i: int| TagView::Variant(v.variant_streams[i]));
    let dt = Seq::new(v.session_data.len(), |i: int| TagView::SessionData(v.session_data[i]));
    let kt = Seq::new(v.session_keys.len(), |i: int| TagView::SessionKey(v.session_keys[i]));
    let it = independent_tags(v);
    let st = start_tags(v);
    let ut = Seq::new(v.unknown_tags.len(), |i: int| TagView::Unknown(v.unknown_tags[i]));
    assert(tag_steps(s0, vt) == Some(s0)) by {
        assert(tag_steps(s0, Seq::<TagView>::empty()) == Some(s0));
        if vt.len() > 0 {
            assert(vt.drop_last() =~= Seq::<TagView>::empty());
        } else {
            assert(vt =~= Seq::<TagView>::empty());
        }
    }
    let s1 = MasterParseState { media: s0.media + v.media, ..s0 };
    lemma_steps_media(s0, v.media);
    let s2 = MasterParseState { variant_streams: s1.variant_streams + v.variant_streams, ..s1 };
    lemma_steps_variants(s1, v.variant_streams);
    let s3 = MasterParseState { session_data: s2.session_data + v.session_data, ..s2 };
    lemma_steps_session_data(s2, v.session_data);
    let s4 = MasterParseState { session_keys: s3.session_keys + v.session_keys, ..s3 };
    lemma_steps_session_keys(s3, v.session_keys);
    let s5 = MasterParseState {
        has_independent_segments: if v.has_independent_segments {
            Some(true)
        } else {
            None
        },
        ..s4
    };
    assert(tag_steps(s4, it) == Some(s5)) by {
        assert(tag_steps(s4, Seq::<TagView>::empty()) == Some(s4));
        if it.len() > 0 {
            assert(it.drop_last() =~= Seq::<TagView>::empty());
        } else {
            assert(it =~= Seq::<TagView>::empty());
            assert(s5 == s4);
        }
    }
    let s6 = MasterParseState { start: v.start, ..s5 };
    assert(tag_steps(s5, st) == Some(s6)) by {
        assert(tag_steps(s5, Seq::<TagView>::empty()) == Some(s5));
        if let Some(t) = v.start {
            assert(st.drop_last() =~= Seq::<TagView>::empty());
            ExtXStart::lemma_from_parts(t);
        } else {
            assert(st =~= Seq::<TagView>::empty());
            assert(s6 == s5);
        }
    }
    lemma_steps_unknown(s6, v.unknown_tags);
    lemma_tag_steps_concat(s0, vt, mt);
    lemma_tag_steps_concat(s0, vt + mt, wt);
    lemma_tag_steps_concat(s0, vt + mt + wt, dt);
    lemma_tag_steps_concat(s0, vt + mt + wt + dt, kt);
    lemma_tag_steps_concat(s0, vt + mt + wt + dt + kt, it);
    lemma_tag_steps_concat(s0, vt + mt + wt + dt + kt + it, st);
    lemma_tag_steps_concat(s0, vt + mt + wt + dt + kt + it + st, ut);
    assert(s0.media + v.media =~= v.media);
    assert(s1.variant_streams + v.variant_streams =~= v.variant_streams);
    assert(s2.session_data + v.session_data =~= v.session_data);
    assert(s3.session_keys + v.session_keys =~= v.session_keys);
    assert(s6.unknown_tags + v.unknown_tags =~= v.unknown_tags);
}

/// Reading the text of a master playlist gives the master playlist back, when it reads
/// back as itself.
pub proof fn lemma_master_roundtrip(v: MasterPlaylistView)
    requires
        master_reads_back(v),
    ensures
        master_parse(master_text(v)) == Some(v),
{
    reveal_strlit("#EXTM3U");
    let items = master_items(v);
    lemma_master_text_items(v);
    lemma_master_items_tagged(v);
    lemma_items_tagged_ok(items, master_tags(v));
    lemma_read_items("#EXTM3U"@, items);
    lemma_fold_items(items, master_tags(v), items.len());
    assert(master_tags(v).take(items.len() as int) =~= master_tags(v));
    lemma_master_tag_steps(v);
    let b = master_builder_of(master_state(v));
    assert(master_failure(b) is None);
    assert(built_master(b) == v);
}

} // verus!
