use hls_m3u8::tags::{ExtInf, ExtXByteRange, ExtXMap, ExtXMedia, VariantStream};
use hls_m3u8::types::{ByteRange, Duration, MediaType, StreamData};
use hls_m3u8::{MasterPlaylist, MediaPlaylist, MediaSegment};

fn stream(uri: &str, audio: Option<&str>, bandwidth: u64, codecs: &str, res: Option<(usize, usize)>) -> VariantStream {
    let mut b = StreamData::builder().bandwidth(bandwidth).codecs(codecs);
    if let Some((w, h)) = res {
        b = b.resolution(w, h);
    }
    VariantStream::ExtXStreamInf {
        uri: uri.to_string(),
        frame_rate: None,
        audio: audio.map(|a| a.to_string()),
        subtitles: None,
        closed_captions: None,
        stream_data: b.build().unwrap(),
    }
}

fn five_streams() -> Vec<VariantStream> {
    vec![
        stream("http://example.com/low/index.m3u8", None, 150_000, "avc1.42e00a,mp4a.40.2", Some((416, 234))),
        stream("http://example.com/lo_mid/index.m3u8", None, 240_000, "avc1.42e00a,mp4a.40.2", Some((416, 234))),
        stream("http://example.com/hi_mid/index.m3u8", None, 440_000, "avc1.42e00a,mp4a.40.2", Some((416, 234))),
        stream("http://example.com/high/index.m3u8", None, 640_000, "avc1.42e00a,mp4a.40.2", Some((640, 360))),
        stream("http://example.com/audio/index.m3u8", None, 64000, "mp4a.40.5", None),
    ]
}

#[test]
fn test_audio_streams() {
    let astreams = vec![
        stream("http://example.com/low/index.m3u8", Some("ag0"), 150_000, "avc1.42e00a,mp4a.40.2", Some((416, 234))),
        stream("http://example.com/lo_mid/index.m3u8", Some("ag1"), 240_000, "avc1.42e00a,mp4a.40.2", Some((416, 234))),
    ];

    let master_playlist = MasterPlaylist::builder()
        .variant_streams(astreams.clone())
        .media(vec![
            ExtXMedia::builder()
                .media_type(MediaType::Audio)
                .uri("https://www.example.com/ag0.m3u8")
                .group_id("ag0")
                .language("english")
                .name("alternative rendition for ag0")
                .build()
                .unwrap(),
            ExtXMedia::builder()
                .media_type(MediaType::Audio)
                .uri("https://www.example.com/ag1.m3u8")
                .group_id("ag1")
                .language("english")
                .name("alternative rendition for ag1")
                .build()
                .unwrap(),
        ])
        .build()
        .unwrap();

    assert_eq!(
        master_playlist.variant_streams,
        master_playlist
            .audio_streams()
            .into_iter()
            .cloned()
            .collect::<Vec<_>>()
    );

    let audio_streams = master_playlist.audio_streams();
    let mut audio_streams = audio_streams.into_iter();

    assert_eq!(audio_streams.next(), Some(&astreams[0]));
    assert_eq!(audio_streams.next(), Some(&astreams[1]));
    assert_eq!(audio_streams.next(), None);
}

#[test]
fn master_playlist_test_parser() {
    assert_eq!(
        MasterPlaylist::try_from(&[
            "#EXTM3U\n",
            "#EXT-X-STREAM-INF:",
            "BANDWIDTH=150000,CODECS=\"avc1.42e00a,mp4a.40.2\",RESOLUTION=416x234\n",
            "http://example.com/low/index.m3u8\n",
            "#EXT-X-STREAM-INF:",
            "BANDWIDTH=240000,CODECS=\"avc1.42e00a,mp4a.40.2\",RESOLUTION=416x234\n",
            "http://example.com/lo_mid/index.m3u8\n",
            "#EXT-X-STREAM-INF:",
            "BANDWIDTH=440000,CODECS=\"avc1.42e00a,mp4a.40.2\",RESOLUTION=416x234\n",
            "http://example.com/hi_mid/index.m3u8\n",
            "#EXT-X-STREAM-INF:",
            "BANDWIDTH=640000,CODECS=\"avc1.42e00a,mp4a.40.2\",RESOLUTION=640x360\n",
            "http://example.com/high/index.m3u8\n",
            "#EXT-X-STREAM-INF:BANDWIDTH=64000,CODECS=\"mp4a.40.5\"\n",
            "http://example.com/audio/index.m3u8\n"
        ].concat())
        .unwrap(),
        MasterPlaylist::builder()
            .variant_streams(five_streams())
            .build()
            .unwrap()
    );
}

#[test]
fn master_playlist_test_display() {
    assert_eq!(
        MasterPlaylist::builder()
            .variant_streams(five_streams())
            .build()
            .unwrap()
            .to_string(),
        [
            "#EXTM3U\n",
            "#EXT-X-STREAM-INF:",
            "BANDWIDTH=150000,CODECS=\"avc1.42e00a,mp4a.40.2\",RESOLUTION=416x234\n",
            "http://example.com/low/index.m3u8\n",
            "#EXT-X-STREAM-INF:",
            "BANDWIDTH=240000,CODECS=\"avc1.42e00a,mp4a.40.2\",RESOLUTION=416x234\n",
            "http://example.com/lo_mid/index.m3u8\n",
            "#EXT-X-STREAM-INF:",
            "BANDWIDTH=440000,CODECS=\"avc1.42e00a,mp4a.40.2\",RESOLUTION=416x234\n",
            "http://example.com/hi_mid/index.m3u8\n",
            "#EXT-X-STREAM-INF:",
            "BANDWIDTH=640000,CODECS=\"avc1.42e00a,mp4a.40.2\",RESOLUTION=640x360\n",
            "http://example.com/high/index.m3u8\n",
            "#EXT-X-STREAM-INF:BANDWIDTH=64000,CODECS=\"mp4a.40.5\"\n",
            "http://example.com/audio/index.m3u8\n"
        ].concat()
    );
}

fn segment(millis: u64, uri: &str) -> MediaSegment {
    MediaSegment::builder()
        .duration(ExtInf::new(Duration::from_millis(millis)))
        .uri(uri)
        .build()
        .unwrap()
}

fn too_large() -> String {
    [
    "#EXTM3U\n",
    "#EXT-X-TARGETDURATION:8\n",
    "#EXT-X-VERSION:3\n",
    "#EXTINF:9.009,\n",
    "http://media.example.com/first.ts\n",
    "#EXTINF:9.509,\n",
    "http://media.example.com/second.ts\n",
    "#EXTINF:3.003,\n",
    "http://media.example.com/third.ts\n",
    "#EXT-X-ENDLIST\n"
    ].concat()
}

#[test]
fn too_large_segment_duration_test() {
    // Error (allowable segment duration = target duration = 8)
    assert!(MediaPlaylist::try_from(&too_large()).is_err());

    // Error (allowable segment duration = 9)
    assert!(MediaPlaylist::builder()
        .allowable_excess_duration(Duration::from_secs(1))
        .parse(&too_large())
        .is_err());

    // Ok (allowable segment duration = 10)
    assert_eq!(
        MediaPlaylist::builder()
            .allowable_excess_duration(Duration::from_secs(2))
            .parse(&too_large())
            .unwrap(),
        MediaPlaylist::builder()
            .allowable_excess_duration(Duration::from_secs(2))
            .target_duration(Duration::from_secs(8))
            .segments(vec![
                segment(9009, "http://media.example.com/first.ts"),
                segment(9509, "http://media.example.com/second.ts"),
                segment(3003, "http://media.example.com/third.ts"),
            ])
            .has_end_list(true)
            .build()
            .unwrap()
    );
}

#[test]
fn test_segment_number_simple() {
    let playlist = MediaPlaylist::builder()
        .allowable_excess_duration(Duration::from_secs(2))
        .target_duration(Duration::from_secs(8))
        .segments(vec![
            segment(9009, "http://media.example.com/first.ts"),
            segment(9509, "http://media.example.com/second.ts"),
            segment(3003, "http://media.example.com/third.ts"),
        ])
        .build()
        .unwrap();

    let mut segments = playlist
        .segments
        .into_iter()
        .enumerate()
        .map(|(k, v)| (k, v.number));
    assert_eq!(segments.next(), Some((0, 0)));
    assert_eq!(segments.next(), Some((1, 1)));
    assert_eq!(segments.next(), Some((2, 2)));
    assert_eq!(segments.next(), None);
}

#[test]
fn test_segment_number_sequence() {
    let playlist = MediaPlaylist::builder()
        .target_duration(Duration::from_secs(8))
        .media_sequence(2680)
        .segments(vec![
            segment(7975, "https://priv.example.com/fileSequence2680.ts"),
            segment(7941, "https://priv.example.com/fileSequence2681.ts"),
            segment(7975, "https://priv.example.com/fileSequence2682.ts"),
        ])
        .build()
        .unwrap();
    let mut segments = playlist
        .segments
        .into_iter()
        .enumerate()
        .map(|(k, v)| (k, v.number));
    assert_eq!(segments.next(), Some((0, 2680)));
    assert_eq!(segments.next(), Some((1, 2681)));
    assert_eq!(segments.next(), Some((2, 2682)));
    assert_eq!(segments.next(), None);
}

#[test]
fn test_empty_playlist() {
    let playlist = "";
    assert!(MediaPlaylist::try_from(playlist).is_err());
}

#[test]
fn media_segment_test_display() {
    assert_eq!(
        MediaSegment::builder()
            .map(ExtXMap::new("https://www.example.com/"))
            .byte_range(ExtXByteRange::new(ByteRange::from_range(5, 25)))
            .has_discontinuity(true)
            .duration(ExtInf::new(Duration::from_secs(4)))
            .uri("http://www.uri.com/")
            .build()
            .unwrap()
            .to_string(),
        [
            "#EXT-X-MAP:URI=\"https://www.example.com/\"\n",
            "#EXT-X-BYTERANGE:20@5\n",
            "#EXT-X-DISCONTINUITY\n",
            "#EXTINF:4,\n",
            "http://www.uri.com/\n"
        ].concat()
    );
}

#[test]
fn readme_example_parses() {
    let m3u8 = MediaPlaylist::try_from(&[
        "#EXTM3U\n",
        "#EXT-X-TARGETDURATION:10\n",
        "#EXT-X-VERSION:3\n",
        "#EXTINF:9.009,\n",
        "http://media.example.com/first.ts\n",
        "#EXTINF:9.009,\n",
        "http://media.example.com/second.ts\n",
        "#EXTINF:3.003,\n",
        "http://media.example.com/third.ts\n",
        "#EXT-X-ENDLIST",
    ].concat());
    assert!(m3u8.is_ok());
}
