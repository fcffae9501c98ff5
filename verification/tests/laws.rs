use hls_m3u8::attribute::AttributePairs;
use hls_m3u8::hex::DecodeError;
use hls_m3u8::line::{Line, Lines, Tag};
use hls_m3u8::tags::{
    ExtInf, ExtXByteRange, ExtXDateRange, ExtXIFrameStreamInf, ExtXStreamInf, ExtXDiscontinuitySequence, ExtXKey, ExtXMedia, ExtXSessionData,
    ExtXSessionKey, ExtXTargetDuration, SessionData, VariantStream,
};
use hls_m3u8::types::{
    ByteRange, ClosedCaptions, DecryptionKey, Duration, EncryptionMethod, InitializationVector, KeyFormat,
    KeyFormatVersions, MediaType, ProtocolVersion, StreamData,
};
use hls_m3u8::{Error, MasterPlaylist, MediaPlaylist, MediaSegment};

fn seg(secs: u64, uri: &str) -> MediaSegment {
    MediaSegment::builder()
        .duration(ExtInf::new(Duration::from_secs(secs)))
        .uri(uri)
        .build()
        .unwrap()
}

#[test]
fn built_segments_are_numbered_from_the_media_sequence() {
    let p = MediaPlaylist::builder()
        .target_duration(Duration::from_secs(10))
        .media_sequence(7)
        .segments(vec![seg(5, "a.ts"), seg(5, "b.ts"), seg(5, "c.ts")])
        .build()
        .unwrap();
    let numbers: Vec<usize> = p.segments.iter().map(|s| s.number()).collect();
    assert_eq!(numbers, vec![7, 8, 9]);
}

#[test]
fn explicit_numbers_keep_their_slot() {
    let explicit = MediaSegment::builder()
        .number(Some(0))
        .duration(ExtInf::new(Duration::from_secs(5)))
        .uri("explicit.ts")
        .build()
        .unwrap();
    let p = MediaPlaylist::builder()
        .target_duration(Duration::from_secs(10))
        .segments(vec![seg(5, "a.ts"), explicit, seg(5, "b.ts")])
        .build()
        .unwrap();
    let uris: Vec<String> = p.segments.iter().map(|s| s.uri().clone()).collect();
    assert_eq!(uris, vec!["explicit.ts", "a.ts", "b.ts"]);
    let numbers: Vec<usize> = p.segments.iter().map(|s| s.number()).collect();
    assert_eq!(numbers, vec![0, 1, 2]);
}

#[test]
fn push_segment_with_a_gap_leaves_a_segment_missing() {
    let explicit = MediaSegment::builder()
        .number(Some(3))
        .duration(ExtInf::new(Duration::from_secs(5)))
        .uri("late.ts")
        .build()
        .unwrap();
    let result = MediaPlaylist::builder()
        .target_duration(Duration::from_secs(10))
        .push_segment(seg(5, "a.ts"))
        .push_segment(explicit)
        .build();
    assert_eq!(result, Err("a segment is missing".to_string()));
}

#[test]
fn push_segment_replaces_the_slot_of_its_number() {
    let replacement = MediaSegment::builder()
        .number(Some(0))
        .duration(ExtInf::new(Duration::from_secs(4)))
        .uri("new.ts")
        .build()
        .unwrap();
    let p = MediaPlaylist::builder()
        .target_duration(Duration::from_secs(10))
        .push_segment(seg(5, "old.ts"))
        .push_segment(replacement)
        .build()
        .unwrap();
    assert_eq!(p.segments.len(), 1);
    assert_eq!(p.segments[0].uri().as_str(), "new.ts");
}

#[test]
fn explicit_segment_before_the_sequence_is_refused() {
    let explicit = MediaSegment::builder()
        .number(Some(0))
        .duration(ExtInf::new(Duration::from_secs(5)))
        .uri("a.ts")
        .build()
        .unwrap();
    let result = MediaPlaylist::builder()
        .target_duration(Duration::from_secs(10))
        .media_sequence(2)
        .push_segment(explicit)
        .build();
    assert_eq!(
        result,
        Err("there should be no segment (#EXTINF:5,\na.ts\n) before the sequence_number (2)".to_string())
    );
}

#[test]
fn missing_target_duration_and_segments_are_reported() {
    assert_eq!(
        MediaPlaylist::builder().target_duration(Duration::from_secs(1)).build(),
        Err("missing field `segments`".to_string())
    );
    assert_eq!(
        MediaPlaylist::builder().segments(vec![seg(1, "a.ts")]).build(),
        Err("missing field `target_duration`".to_string())
    );
}

#[test]
fn byte_ranges_without_start_follow_the_one_before() {
    let text = [
        "#EXTM3U\n",
        "#EXT-X-TARGETDURATION:10\n",
        "#EXTINF:5,\n",
        "#EXT-X-BYTERANGE:100@0\n",
        "video.ts\n",
        "#EXTINF:5,\n",
        "#EXT-X-BYTERANGE:50\n",
        "video.ts\n",
    ]
    .concat();
    let p = MediaPlaylist::try_from(&text).unwrap();
    let r0 = p.segments[0].byte_range.unwrap().0;
    let r1 = p.segments[1].byte_range.unwrap().0;
    assert_eq!((r0.start(), r0.end()), (Some(0), 100));
    assert_eq!((r1.start(), r1.end()), (Some(100), 150));
}

#[test]
fn first_byte_range_needs_a_start() {
    let text = [
        "#EXTM3U\n",
        "#EXT-X-TARGETDURATION:10\n",
        "#EXTINF:5,\n",
        "#EXT-X-BYTERANGE:100\n",
        "video.ts\n",
    ]
    .concat();
    assert_eq!(
        MediaPlaylist::try_from(&text),
        Err(Error::Custom("invalid input".to_string()))
    );
}

#[test]
fn byte_range_of_another_resource_is_refused() {
    let text = [
        "#EXTM3U\n",
        "#EXT-X-TARGETDURATION:10\n",
        "#EXTINF:5,\n",
        "#EXT-X-BYTERANGE:100@0\n",
        "video.ts\n",
        "#EXTINF:5,\n",
        "#EXT-X-BYTERANGE:50\n",
        "other.ts\n",
    ]
    .concat();
    assert_eq!(
        MediaPlaylist::try_from(&text),
        Err(Error::Custom("invalid input".to_string()))
    );
}

#[test]
fn aes_keys_get_the_segment_number_as_vector() {
    let text = [
        "#EXTM3U\n",
        "#EXT-X-TARGETDURATION:10\n",
        "#EXT-X-MEDIA-SEQUENCE:5\n",
        "#EXT-X-KEY:METHOD=AES-128,URI=\"https://example.com/key\"\n",
        "#EXTINF:5,\n",
        "a.ts\n",
        "#EXTINF:5,\n",
        "b.ts\n",
    ]
    .concat();
    let p = MediaPlaylist::try_from(&text).unwrap();
    let iv0 = p.segments[0].keys[0].0.as_ref().unwrap().iv;
    let iv1 = p.segments[1].keys[0].0.as_ref().unwrap().iv;
    assert_eq!(iv0, InitializationVector::Number(5));
    assert_eq!(iv1, InitializationVector::Number(6));
    // the vectors given by the numbers are left out again when writing
    let written = p.to_string();
    assert_eq!(
        written,
        [
            "#EXTM3U\n",
            "#EXT-X-VERSION:2\n",
            "#EXT-X-TARGETDURATION:10\n",
            "#EXT-X-MEDIA-SEQUENCE:5\n",
            "#EXT-X-KEY:METHOD=AES-128,URI=\"https://example.com/key\"\n",
            "#EXTINF:5,\n",
            "a.ts\n",
            "#EXTINF:5,\n",
            "b.ts\n",
        ]
        .concat()
    );
    assert_eq!(MediaPlaylist::try_from(&written).unwrap(), p);
}

#[test]
fn segments_longer_than_the_target_are_refused() {
    let text = [
        "#EXTM3U\n",
        "#EXT-X-TARGETDURATION:8\n",
        "#EXTINF:8.5,\n",
        "a.ts\n",
    ]
    .concat();
    assert!(MediaPlaylist::try_from(&text).is_err());
    let over = ["#EXTM3U\n", "#EXT-X-TARGETDURATION:8\n", "#EXTINF:8.001,\n", "a.ts\n"].concat();
    assert!(MediaPlaylist::try_from(&over).is_err());
    let ok = ["#EXTM3U\n", "#EXT-X-TARGETDURATION:8\n", "#EXTINF:8,\n", "a.ts\n"].concat();
    assert!(MediaPlaylist::try_from(&ok).is_ok());
}

#[test]
fn playlist_duration_is_the_sum_of_the_segments() {
    let p = MediaPlaylist::builder()
        .target_duration(Duration::from_secs(10))
        .segments(vec![
            MediaSegment::builder()
                .duration(ExtInf::new(Duration::from_millis(9009)))
                .uri("a.ts")
                .build()
                .unwrap(),
            MediaSegment::builder()
                .duration(ExtInf::new(Duration::from_millis(3003)))
                .uri("b.ts")
                .build()
                .unwrap(),
        ])
        .build()
        .unwrap();
    assert_eq!(p.duration(), Duration::from_millis(12012));
    assert_eq!(p.required_version(), ProtocolVersion::V3);
}

#[test]
fn media_playlist_refuses_master_tags_and_late_sequences() {
    let master_tag = [
        "#EXTM3U\n",
        "#EXT-X-TARGETDURATION:10\n",
        "#EXT-X-MEDIA:TYPE=AUDIO,GROUP-ID=\"foo\",NAME=\"bar\"\n",
    ]
    .concat();
    assert!(matches!(
        MediaPlaylist::try_from(&master_tag),
        Err(Error::UnexpectedTag { .. })
    ));
    let first = ["#EXTM3U\n", "#EXT-X-DISCONTINUITY-SEQUENCE:2\n"].concat();
    assert_eq!(MediaPlaylist::try_from(&first), Err(Error::InvalidInput));
    let partial = ["#EXTM3U\n", "#EXT-X-TARGETDURATION:10\n", "#EXTINF:5,\n"].concat();
    assert_eq!(
        MediaPlaylist::try_from(&partial),
        Err(Error::Custom("Missing URI for the last `MediaSegment`".to_string()))
    );
    assert!(matches!(
        MediaPlaylist::try_from("#EXT-X-TARGETDURATION:10\n"),
        Err(Error::MissingTag { .. })
    ));
}

#[test]
fn media_playlist_roundtrip() {
    let text = [
        "#EXTM3U\n",
        "#EXT-X-VERSION:4\n",
        "#EXT-X-TARGETDURATION:10\n",
        "#EXT-X-MEDIA-SEQUENCE:3\n",
        "#EXT-X-DISCONTINUITY-SEQUENCE:1\n",
        "#EXT-X-PLAYLIST-TYPE:VOD\n",
        "#EXT-X-INDEPENDENT-SEGMENTS\n",
        "#EXT-X-BYTERANGE:100@0\n",
        "#EXTINF:5,first\n",
        "a.ts\n",
        "#EXT-X-DISCONTINUITY\n",
        "#EXTINF:4.5,\n",
        "b.ts\n",
        "#EXT-X-UNKNOWN-TAG:1\n",
        "#EXT-X-ENDLIST\n",
    ]
    .concat();
    // the discontinuity sequence has to come after a segment
    assert!(MediaPlaylist::try_from(&text).is_err());
    let text = text.replace("#EXT-X-DISCONTINUITY-SEQUENCE:1\n", "");
    let p = MediaPlaylist::try_from(&text).unwrap();
    assert_eq!(p.to_string(), text);
}

fn stream(audio: Option<&str>) -> VariantStream {
    VariantStream::ExtXStreamInf {
        uri: "low.m3u8".to_string(),
        frame_rate: None,
        audio: audio.map(|a| a.to_string()),
        subtitles: None,
        closed_captions: None,
        stream_data: StreamData::new(150_000),
    }
}

#[test]
fn master_streams_need_their_groups() {
    let result = MasterPlaylist::builder().variant_streams(vec![stream(Some("aud"))]).build();
    assert_eq!(result, Err("unmatched group: \"aud\"".to_string()));
    let ok = MasterPlaylist::builder()
        .variant_streams(vec![stream(Some("aud"))])
        .media(vec![ExtXMedia::new(MediaType::Audio, "aud", "English")])
        .build()
        .unwrap();
    assert_eq!(ok.associated_with(&ok.variant_streams[0]).len(), 1);
    assert_eq!(ok.unassociated_streams().len(), 0);
    assert_eq!(ok.video_streams().len(), 0);
}

#[test]
fn master_session_data_must_be_unique() {
    let data = || ExtXSessionData::new("com.example", SessionData::Value("x".to_string()));
    let result = MasterPlaylist::builder().session_data(vec![data(), data()]).build();
    assert_eq!(
        result,
        Err("conflict: #EXT-X-SESSION-DATA:DATA-ID=\"com.example\",VALUE=\"x\"".to_string())
    );
}

#[test]
fn master_playlist_refuses_locations_and_media_tags() {
    let uri = ["#EXTM3U\n", "lonely.m3u8\n"].concat();
    assert_eq!(
        MasterPlaylist::try_from(&uri),
        Err(Error::Custom("unexpected uri: \"lonely.m3u8\"".to_string()))
    );
    let media_tag = ["#EXTM3U\n", "#EXT-X-TARGETDURATION:10\n"].concat();
    assert_eq!(
        MasterPlaylist::try_from(&media_tag),
        Err(Error::UnexpectedTag { tag: "#EXT-X-TARGETDURATION:10".to_string() })
    );
}

#[test]
fn master_playlist_roundtrip() {
    let text = [
        "#EXTM3U\n",
        "#EXT-X-MEDIA:TYPE=AUDIO,GROUP-ID=\"aud\",NAME=\"English\"\n",
        "#EXT-X-STREAM-INF:BANDWIDTH=150000,AUDIO=\"aud\"\n",
        "low.m3u8\n",
        "#EXT-X-SESSION-DATA:DATA-ID=\"com.example\",VALUE=\"x\"\n",
        "#EXT-X-INDEPENDENT-SEGMENTS\n",
    ]
    .concat();
    let p = MasterPlaylist::try_from(&text).unwrap();
    assert_eq!(p.to_string(), text);
    assert_eq!(p.audio_streams().len(), 1);
}

#[test]
fn tags_roundtrip_through_their_text() {
    let d = ExtXDiscontinuitySequence(42);
    assert_eq!(ExtXDiscontinuitySequence::try_from(&d.to_string()).unwrap(), d);
    let t = ExtXTargetDuration(Duration::from_secs(6));
    assert_eq!(ExtXTargetDuration::try_from(&t.to_string()).unwrap(), t);
    let k = ExtXKey::new(DecryptionKey::new(EncryptionMethod::SampleAes, "k.bin"));
    assert_eq!(ExtXKey::try_from(&k.to_string()).unwrap(), k);
    let r = ExtXByteRange::new(ByteRange::from_range(3, 9));
    assert_eq!(ExtXByteRange::try_from(&r.to_string()).unwrap(), r);
    let i = ExtInf::with_title(Duration::from_millis(9009), "A title");
    assert_eq!(i.to_string(), "#EXTINF:9.009,A title");
    assert_eq!(ExtInf::try_from(&i.to_string()).unwrap(), i);
    let j = ExtInf::new(Duration::from_secs(5));
    assert_eq!(ExtInf::try_from(&j.to_string()).unwrap(), j);
}

#[test]
fn keys_roundtrip_through_their_text() {
    let mut key = DecryptionKey::new(EncryptionMethod::Aes128, "https://example.com/k");
    key.iv = InitializationVector::Aes128([
        0x10, 0xef, 0x8f, 0x75, 0x8c, 0xa5, 0x55, 0x11, 0x55, 0x80, 0xfe, 0x7c, 0xb3, 0x47, 0x29,
        0x09,
    ]);
    key.format = Some(KeyFormat::Identity);
    key.versions = Some(KeyFormatVersions::from_vec(vec![1, 2, 5]));
    let tag = ExtXKey::new(key.clone());
    assert_eq!(
        tag.to_string(),
        concat_lines(&[
            "#EXT-X-KEY:METHOD=AES-128,URI=\"https://example.com/k\",",
            "IV=0x10ef8f758ca555115580fe7cb3472909,KEYFORMAT=\"identity\",",
            "KEYFORMATVERSIONS=\"1/2/5\"",
        ])
    );
    assert_eq!(ExtXKey::try_from(&tag.to_string()).unwrap(), tag);
    let session = ExtXSessionKey::new(key);
    assert_eq!(ExtXSessionKey::try_from(&session.to_string()).unwrap(), session);
    let none = ExtXKey::empty();
    assert_eq!(ExtXKey::try_from(&none.to_string()).unwrap(), none);
}

fn concat_lines(parts: &[&str]) -> String {
    parts.concat()
}

#[test]
fn error_messages() {
    assert_eq!(Error::InvalidInput.to_string(), "invalid input");
    assert_eq!(
        Error::UnmatchedGroup("g".to_string()).to_string(),
        "unmatched group: \"g\""
    );
    assert_eq!(
        Error::MissingTag { tag: "#EXTM3U".to_string(), input: "x".to_string() }.to_string(),
        "expected `#EXTM3U` at the start of \"x\""
    );
    assert_eq!(Error::Custom("m".to_string()).to_string(), "m");
    assert_eq!(
        DecodeError::InvalidChar { byte: b'Z', index: 3 }.to_string(),
        "invalid hex character 0x5a at index 3"
    );
    assert_eq!(DecodeError::OddLength.to_string(), "odd hex string length");
    assert_eq!(
        DecodeError::LengthMismatch { expected: 6, got: 2 }.to_string(),
        "expected 6 hex bytes, got 2"
    );
}

fn seg_millis(millis: u64, uri: &str) -> MediaSegment {
    MediaSegment::builder()
        .duration(ExtInf::new(Duration::from_millis(millis)))
        .uri(uri)
        .build()
        .unwrap()
}

#[test]
fn segments_longer_than_the_target_are_refused_without_rounding() {
    let result = MediaPlaylist::builder()
        .target_duration(Duration::from_secs(8))
        .segments(vec![seg_millis(8400, "a.ts")])
        .build();
    assert_eq!(
        result,
        Err("Too large segment duration: actual=8.4s, max=8s, target_duration=8s, uri=\"a.ts\""
            .to_string())
    );
    let exact = MediaPlaylist::builder()
        .target_duration(Duration::from_secs(8))
        .segments(vec![seg_millis(8000, "a.ts")])
        .build();
    assert!(exact.is_ok());
    let with_excess = MediaPlaylist::builder()
        .target_duration(Duration::from_secs(8))
        .allowable_excess_duration(Duration::from_millis(400))
        .segments(vec![seg_millis(8400, "a.ts"), seg_millis(8401, "b\"c.ts")])
        .build();
    assert_eq!(
        with_excess,
        Err("Too large segment duration: actual=8.401s, max=8.4s, target_duration=8s, uri=\"b\\\"c.ts\""
            .to_string())
    );
}

#[test]
fn too_long_messages_show_small_durations_in_smaller_units() {
    let result = MediaPlaylist::builder()
        .target_duration(Duration::from_secs(0))
        .segments(vec![seg_millis(500, "half.ts")])
        .build();
    assert_eq!(
        result,
        Err("Too large segment duration: actual=500ms, max=0ns, target_duration=0ns, uri=\"half.ts\""
            .to_string())
    );
    let micro = MediaPlaylist::builder()
        .target_duration(Duration::from_secs(0))
        .segments(vec![MediaSegment::builder()
            .duration(ExtInf::new(Duration::new(0, 1_500)))
            .uri("tiny.ts")
            .build()
            .unwrap()])
        .build();
    assert_eq!(
        micro,
        Err("Too large segment duration: actual=1.5µs, max=0ns, target_duration=0ns, uri=\"tiny.ts\""
            .to_string())
    );
    let nano = MediaPlaylist::builder()
        .target_duration(Duration::from_secs(0))
        .segments(vec![MediaSegment::builder()
            .duration(ExtInf::new(Duration::new(0, 7)))
            .uri("x.ts")
            .build()
            .unwrap()])
        .build();
    assert_eq!(
        nano,
        Err("Too large segment duration: actual=7ns, max=0ns, target_duration=0ns, uri=\"x.ts\""
            .to_string())
    );
}

#[test]
fn unmatched_groups_are_quoted_with_escapes() {
    let result = MasterPlaylist::builder().variant_streams(vec![stream(Some("a\"b\\c\nd\u{1}"))]).build();
    assert_eq!(result, Err("unmatched group: \"a\\\"b\\\\c\\nd\\u{1}\"".to_string()));
    assert_eq!(
        Error::UnmatchedGroup("tab\there".to_string()).to_string(),
        format!("unmatched group: {:?}", "tab\there")
    );
    assert_eq!(
        Error::MissingAttribute { attribute: "x\u{7f}\0\r".to_string() }.to_string(),
        format!("missing attribute: {:?}", "x\u{7f}\0\r")
    );
}

#[test]
fn streams_without_closed_captions_have_no_group() {
    let none = VariantStream::ExtXStreamInf {
        uri: "low.m3u8".to_string(),
        frame_rate: None,
        audio: None,
        subtitles: None,
        closed_captions: Some(ClosedCaptions::Absent),
        stream_data: StreamData::new(150_000),
    };
    let p = MasterPlaylist::builder()
        .variant_streams(vec![none.clone(), stream(Some("aud"))])
        .media(vec![ExtXMedia::new(MediaType::Audio, "aud", "English")])
        .build()
        .unwrap();
    let unassociated = p.unassociated_streams();
    assert_eq!(unassociated.len(), 1);
    assert_eq!(*unassociated[0], none);
}

#[test]
fn size_hint_counts_the_pairs_still_to_come() {
    let mut pairs = AttributePairs::new("A=1,B=\"x=y,z\",C = 3 ,D=");
    let mut left = 4;
    loop {
        assert_eq!(pairs.size_hint(), (left, Some(left)));
        match pairs.next() {
            Some(_) => left -= 1,
            None => break,
        }
    }
    assert_eq!(left, 0);
    // a list that ends in a lone `=` counts one pair too many
    let mut lone = AttributePairs::new("x=1,=");
    assert_eq!(lone.size_hint(), (2, Some(2)));
    assert!(lone.next().is_some());
    assert_eq!(lone.size_hint(), (1, Some(1)));
    assert_eq!(lone.next(), None);
}

#[test]
fn lines_read_one_item_per_call() {
    let mut lines = Lines::new(
        "#EXTM3U\n\n   #EXT-X-TARGETDURATION:8  \n# a comment\n#EXT-X-STREAM-INF:BANDWIDTH=1\nlow.m3u8\nuri.ts\n#EXT-X-STREAM-INF:BANDWIDTH=2\n",
    );
    assert_eq!(lines.next(), Some(Ok(Line::Tag(Tag::Unknown("#EXTM3U".to_string())))));
    assert!(matches!(lines.next(), Some(Ok(Line::Tag(Tag::ExtXTargetDuration(_))))));
    assert_eq!(lines.next(), Some(Ok(Line::Comment("# a comment".to_string()))));
    match lines.next() {
        Some(Ok(Line::Tag(Tag::VariantStream(v)))) => assert!(matches!(
            v,
            VariantStream::ExtXStreamInf { ref uri, .. } if uri == "low.m3u8"
        )),
        other => panic!("expected a stream, got {:?}", other),
    }
    assert_eq!(lines.next(), Some(Ok(Line::Uri("uri.ts".to_string()))));
    // a stream tag on the last line is dropped
    assert_eq!(lines.next(), None);
    assert_eq!(lines.next(), None);
}

#[test]
fn tag_parsers_name_what_is_wrong() {
    assert_eq!(
        ExtXDateRange::try_from("#EXT-X-DATERANGE:CLASS=\"c\""),
        Err(Error::MissingValue { value: "ID".to_string() })
    );
    assert_eq!(
        ExtXDateRange::try_from("#EXT-X-DATERANGE:ID=\"a\",END-ON-NEXT=NO"),
        Err(Error::Custom("`END-ON-NEXT` must be `YES`".to_string()))
    );
    assert_eq!(
        ExtXDateRange::try_from("#EXT-X-DATERANGE:ID=\"a\",END-ON-NEXT=YES"),
        Err(Error::MissingAttribute { attribute: "CLASS".to_string() })
    );
    assert_eq!(
        ExtXDateRange::try_from("#EXT-X-DATERANGE:ID=\"a\",CLASS=\"c\",DURATION=1,END-ON-NEXT=YES"),
        Err(Error::UnexpectedAttribute { attribute: "DURATION".to_string() })
    );
    assert_eq!(
        ExtXDateRange::try_from("#EXT-X-DATERANGE:ID=\"a\",CLASS=\"c\",END-DATE=\"x\",END-ON-NEXT=YES"),
        Err(Error::UnexpectedAttribute { attribute: "END-DATE".to_string() })
    );
    assert_eq!(
        ExtXDateRange::try_from("#EXT-X-DATE:ID=\"a\""),
        Err(Error::MissingTag {
            tag: "#EXT-X-DATERANGE:".to_string(),
            input: "#EXT-X-DATE:ID=\"a\"".to_string()
        })
    );
    assert_eq!(
        ExtXMedia::try_from("#EXT-X-MEDIA:TYPE=SUBTITLES,GROUP-ID=\"s\",NAME=\"n\""),
        Err(Error::Custom("missing attribute: \"URI\"".to_string()))
    );
    assert_eq!(
        ExtXStreamInf::try_from(""),
        Err(Error::MissingValue { value: "first_line".to_string() })
    );
    assert_eq!(
        ExtXStreamInf::try_from("#EXT-X-STREAM-INF:BANDWIDTH=1"),
        Err(Error::MissingValue { value: "URI".to_string() })
    );
    assert_eq!(
        ExtXStreamInf::try_from("#EXT-X-STREAM-INF:CODECS=\"x\"\nlow.m3u8"),
        Err(Error::MissingValue { value: "BANDWIDTH".to_string() })
    );
    assert_eq!(
        ExtXIFrameStreamInf::try_from("#EXT-X-I-FRAME-STREAM-INF:BANDWIDTH=1"),
        Err(Error::MissingValue { value: "URI".to_string() })
    );
    assert_eq!(
        ExtXIFrameStreamInf::try_from("#EXT-X-I-FRAME-STREAM-INF:URI=\"i.m3u8\""),
        Err(Error::MissingValue { value: "BANDWIDTH".to_string() })
    );
}

#[test]
fn unexpected_data_is_quoted() {
    assert_eq!(
        hls_m3u8::tags::ExtXDiscontinuity::try_from("#EXT-X-DISCONTINUITY \"x\""),
        Err(Error::Custom("Unexpected data in the line: \"#EXT-X-DISCONTINUITY \\\"x\\\"\"".to_string()))
    );
    let uri = ["#EXTM3U\n", "a\"b.m3u8\n"].concat();
    assert_eq!(
        MasterPlaylist::try_from(&uri),
        Err(Error::Custom("unexpected uri: \"a\\\"b.m3u8\"".to_string()))
    );
}

#[test]
fn unknown_playlist_types_are_named() {
    assert_eq!(
        hls_m3u8::tags::PlaylistType::try_from("#EXT-X-PLAYLIST-TYPE:LIVE"),
        Err(Error::Custom("Unknown playlist type: \"LIVE\"".to_string()))
    );
}
