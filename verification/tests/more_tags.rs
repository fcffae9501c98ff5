use hls_m3u8::attribute::AttributePairs;
use hls_m3u8::hex::{decode, decode_to_slice, DecodeError};
use hls_m3u8::tags::{
    ExtXIFrameStreamInf, ExtXMap, ExtXMedia, ExtXProgramDateTime, ExtXSessionData,
    ExtXSessionKey, ExtXStart, ExtXStreamInf, SessionData, VariantStream,
};
use hls_m3u8::types::{
    ByteRange, Channels, DecryptionKey, EncryptionMethod, Float, HdcpLevel, InStreamId,
    KeyFormat, MediaType, ProtocolVersion, StreamData,
};
use hls_m3u8::RequiredVersion;

fn pair(a: &str, b: &str) -> Option<(String, String)> {
    Some((a.to_string(), b.to_string()))
}

#[test]
fn test_attributes() {
    let mut attributes = AttributePairs::new("KEY=VALUE,PAIR=YES");
    assert_eq!((2, Some(2)), attributes.size_hint());
    assert_eq!(attributes.next(), pair("KEY", "VALUE"));
    assert_eq!((1, Some(1)), attributes.size_hint());
    assert_eq!(attributes.next(), pair("PAIR", "YES"));
    assert_eq!((0, Some(0)), attributes.size_hint());
    assert_eq!(attributes.next(), None);

    let mut attributes = AttributePairs::new("garbage");
    assert_eq!((0, Some(0)), attributes.size_hint());
    assert_eq!(attributes.next(), None);

    let mut attributes = AttributePairs::new("KEY=,=VALUE,=,");
    assert_eq!((3, Some(3)), attributes.size_hint());
    assert_eq!(attributes.next(), pair("KEY", ""));
    assert_eq!((2, Some(2)), attributes.size_hint());
    assert_eq!(attributes.next(), pair("", "VALUE"));
    assert_eq!((1, Some(1)), attributes.size_hint());
    assert_eq!(attributes.next(), pair("", ""));
    assert_eq!((0, Some(0)), attributes.size_hint());
    assert_eq!(attributes.next(), None);

    let mut attributes = AttributePairs::new("KEY=\"VALUE,\",");
    assert_eq!((1, Some(1)), attributes.size_hint());
    assert_eq!(attributes.next(), pair("KEY", "\"VALUE,\""));
    assert_eq!((0, Some(0)), attributes.size_hint());
    assert_eq!(attributes.next(), None);

    let text = ["LANGUAGE=\"fre\",", "NAME=\"Français\",", "AUTOSELECT=YES"].concat();
    let mut attributes = AttributePairs::new(&text);
    assert_eq!(attributes.next(), pair("LANGUAGE", "\"fre\""));
    assert_eq!(attributes.next(), pair("NAME", "\"Français\""));
    assert_eq!(attributes.next(), pair("AUTOSELECT", "YES"));
}

#[test]
fn attribute_test_parser() {
    let mut pairs = AttributePairs::new("FOO=BAR,BAR=\"baz,qux\",ABC=12.3");
    assert_eq!(pairs.next(), pair("FOO", "BAR"));
    assert_eq!(pairs.next(), pair("BAR", "\"baz,qux\""));
    assert_eq!(pairs.next(), pair("ABC", "12.3"));
    assert_eq!(pairs.next(), None);

    let text = [
        "載抗留囲軽来実基供全必式覧領意度振。=著地内方満職控努作期投綱研本模,",
        "後文図様改表宮能本園半参裁報作神掲索=\"針支年得率新賞現報発援白少動面。矢拉年世掲注索政平定他込\",",
        "ध्वनि स्थिति और्४५० नीचे =देखने लाभो द्वारा करके(विशेष",
    ]
    .concat();
    let mut pairs = AttributePairs::new(&text);
    assert_eq!((3, Some(3)), pairs.size_hint());
    assert_eq!(
        pairs.next(),
        pair("載抗留囲軽来実基供全必式覧領意度振。", "著地内方満職控努作期投綱研本模")
    );
    assert_eq!((2, Some(2)), pairs.size_hint());
    assert_eq!(
        pairs.next(),
        pair(
            "後文図様改表宮能本園半参裁報作神掲索",
            "\"針支年得率新賞現報発援白少動面。矢拉年世掲注索政平定他込\""
        )
    );
    assert_eq!((1, Some(1)), pairs.size_hint());
    assert_eq!(
        pairs.next(),
        pair("ध्वनि स्थिति और्४५० नीचे", "देखने लाभो द्वारा करके(विशेष")
    );
    assert_eq!((0, Some(0)), pairs.size_hint());
    assert_eq!(pairs.next(), None);
}

#[test]
fn test_decode() {
    assert_eq!(decode("").unwrap(), Vec::<u8>::new());
    assert_eq!(decode("00").unwrap(), vec![0]);
    assert_eq!(decode("ABCDef").unwrap(), vec![0xAB, 0xCD, 0xEF]);
    assert_eq!(decode("010203").unwrap(), vec![1, 2, 3]);
    assert_eq!(decode("0").unwrap_err(), DecodeError::OddLength);
    assert!(matches!(decode("0Z").unwrap_err(), DecodeError::InvalidChar { .. }));
}

#[test]
fn test_decode_to_slice() {
    let mut out = [0u8; 3];
    decode_to_slice(b"010203", &mut out).unwrap();
    assert_eq!(out, [1, 2, 3]);
    assert!(matches!(
        decode_to_slice(b"01", &mut [0u8; 3]).unwrap_err(),
        DecodeError::LengthMismatch { expected: 6, got: 2 }
    ));
    assert!(matches!(
        decode_to_slice(b"01ZZ02", &mut out).unwrap_err(),
        DecodeError::InvalidChar { .. }
    ));
}

#[test]
fn map_test_display() {
    assert_eq!(ExtXMap::new("foo").to_string(), "#EXT-X-MAP:URI=\"foo\"".to_string());
    assert_eq!(
        ExtXMap::with_range("foo", ByteRange::from_range(2, 11)).to_string(),
        "#EXT-X-MAP:URI=\"foo\",BYTERANGE=\"9@2\"".to_string(),
    );
}

#[test]
fn map_test_parser() {
    assert_eq!(ExtXMap::new("foo"), ExtXMap::try_from("#EXT-X-MAP:URI=\"foo\"").unwrap());
    assert_eq!(
        ExtXMap::with_range("foo", ByteRange::from_range(2, 11)),
        ExtXMap::try_from("#EXT-X-MAP:URI=\"foo\",BYTERANGE=\"9@2\"").unwrap()
    );
    assert_eq!(
        ExtXMap::with_range("foo", ByteRange::from_range(2, 11)),
        ExtXMap::try_from("#EXT-X-MAP:URI=\"foo\",BYTERANGE=\"9@2\",UNKNOWN=IGNORED").unwrap()
    );
}

#[test]
fn map_test_required_version() {
    assert_eq!(ExtXMap::new("foo").required_version(), ProtocolVersion::V6);
    assert_eq!(
        ExtXMap::with_range("foo", ByteRange::from_range(2, 11)).required_version(),
        ProtocolVersion::V6
    );
}

#[test]
fn test_encrypted() {
    assert_eq!(ExtXMap::new("foo").keys(), &vec![]);
    assert_eq!(ExtXMap::new("foo").keys_mut(), &mut vec![]);
}

#[test]
fn program_date_time_test_display() {
    assert_eq!(
        ExtXProgramDateTime::new("2010-02-19T14:54:23.031+08:00").to_string(),
        "#EXT-X-PROGRAM-DATE-TIME:2010-02-19T14:54:23.031+08:00".to_string()
    );
}

#[test]
fn program_date_time_test_parser() {
    assert_eq!(
        ExtXProgramDateTime::new("2010-02-19T14:54:23.031+08:00"),
        ExtXProgramDateTime::try_from("#EXT-X-PROGRAM-DATE-TIME:2010-02-19T14:54:23.031+08:00")
            .unwrap()
    );
}

#[test]
fn program_date_time_test_required_version() {
    assert_eq!(
        ExtXProgramDateTime::new("2010-02-19T14:54:23.031+08:00").required_version(),
        ProtocolVersion::V1
    );
}

fn float(negative: bool, whole: u64, frac: u32) -> Float {
    Float::new(negative, whole, frac)
}

#[test]
fn start_test_display() {
    assert_eq!(
        ExtXStart::new(float(true, 1, 230_000_000)).to_string(),
        "#EXT-X-START:TIME-OFFSET=-1.23".to_string(),
    );
    assert_eq!(
        ExtXStart::with_precise(float(false, 1, 230_000_000), true).to_string(),
        "#EXT-X-START:TIME-OFFSET=1.23,PRECISE=YES".to_string(),
    );
}

#[test]
fn start_test_required_version() {
    assert_eq!(ExtXStart::new(float(true, 1, 230_000_000)).required_version(), ProtocolVersion::V1);
    assert_eq!(
        ExtXStart::with_precise(float(false, 1, 230_000_000), true).required_version(),
        ProtocolVersion::V1,
    );
}

#[test]
fn start_test_parser() {
    assert_eq!(
        ExtXStart::new(float(true, 1, 230_000_000)),
        ExtXStart::try_from("#EXT-X-START:TIME-OFFSET=-1.23").unwrap(),
    );
    assert_eq!(
        ExtXStart::with_precise(float(false, 1, 230_000_000), true),
        ExtXStart::try_from("#EXT-X-START:TIME-OFFSET=1.23,PRECISE=YES").unwrap(),
    );
    assert_eq!(
        ExtXStart::with_precise(float(false, 1, 230_000_000), true),
        ExtXStart::try_from("#EXT-X-START:TIME-OFFSET=1.23,PRECISE=YES,UNKNOWN=TAG").unwrap(),
    );
}

const IV: [u8; 16] = [16, 239, 143, 117, 140, 165, 85, 17, 85, 132, 187, 91, 60, 104, 127, 82];

fn session_keys() -> Vec<(ExtXSessionKey, String)> {
    vec![
        (
            ExtXSessionKey::new(
                DecryptionKey::builder()
                    .method(EncryptionMethod::Aes128)
                    .uri("https://www.example.com/hls-key/key.bin")
                    .iv(IV)
                    .build()
                    .unwrap(),
            ),
            [
                "#EXT-X-SESSION-KEY:",
                "METHOD=AES-128,",
                "URI=\"https://www.example.com/hls-key/key.bin\",",
                "IV=0x10ef8f758ca555115584bb5b3c687f52",
            ]
            .concat(),
        ),
        (
            ExtXSessionKey::new(
                DecryptionKey::builder()
                    .method(EncryptionMethod::Aes128)
                    .uri("https://www.example.com/hls-key/key.bin")
                    .iv(IV)
                    .format(KeyFormat::Identity)
                    .build()
                    .unwrap(),
            ),
            [
                "#EXT-X-SESSION-KEY:",
                "METHOD=AES-128,",
                "URI=\"https://www.example.com/hls-key/key.bin\",",
                "IV=0x10ef8f758ca555115584bb5b3c687f52,",
                "KEYFORMAT=\"identity\"",
            ]
            .concat(),
        ),
    ]
}

#[test]
fn session_key_test_display() {
    for (k, s) in session_keys() {
        assert_eq!(k.to_string(), s);
    }
}

#[test]
fn session_key_test_parser() {
    for (k, s) in session_keys() {
        assert_eq!(k, ExtXSessionKey::try_from(&s).unwrap());
    }
}

#[test]
fn session_key_test_required_version() {
    assert_eq!(
        ExtXSessionKey::new(DecryptionKey::new(EncryptionMethod::Aes128, "https://www.example.com/"))
            .required_version(),
        ProtocolVersion::V1
    );
}

fn session_data() -> Vec<(ExtXSessionData, String)> {
    vec![
        (
            ExtXSessionData::new("com.example.lyrics", SessionData::Uri("lyrics.json".to_string())),
            ["#EXT-X-SESSION-DATA:", "DATA-ID=\"com.example.lyrics\",", "URI=\"lyrics.json\""].concat(),
        ),
        (
            ExtXSessionData::with_language(
                "com.example.title",
                SessionData::Value("This is an example".to_string()),
                "en",
            ),
            [
                "#EXT-X-SESSION-DATA:",
                "DATA-ID=\"com.example.title\",",
                "VALUE=\"This is an example\",",
                "LANGUAGE=\"en\"",
            ]
            .concat(),
        ),
        (
            ExtXSessionData::with_language(
                "com.example.title",
                SessionData::Value("Este es un ejemplo".to_string()),
                "es",
            ),
            [
                "#EXT-X-SESSION-DATA:",
                "DATA-ID=\"com.example.title\",",
                "VALUE=\"Este es un ejemplo\",",
                "LANGUAGE=\"es\"",
            ]
            .concat(),
        ),
    ]
}

#[test]
fn session_data_test_display() {
    for (d, s) in session_data() {
        assert_eq!(d.to_string(), s);
    }
}

#[test]
fn session_data_test_parser() {
    for (d, s) in session_data() {
        assert_eq!(d, ExtXSessionData::try_from(&s).unwrap());
    }
    assert!(ExtXSessionData::try_from(
        &["#EXT-X-SESSION-DATA:", "DATA-ID=\"foo\",", "LANGUAGE=\"baz\""].concat()
    )
    .is_err());
    assert!(ExtXSessionData::try_from(
        &[
            "#EXT-X-SESSION-DATA:",
            "DATA-ID=\"foo\",",
            "LANGUAGE=\"baz\",",
            "VALUE=\"VALUE\",",
            "URI=\"https://www.example.com/\"",
        ]
        .concat()
    )
    .is_err());
}

#[test]
fn session_data_test_required_version() {
    assert_eq!(
        ExtXSessionData::new("com.example.lyrics", SessionData::Uri("lyrics.json".to_string()))
            .required_version(),
        ProtocolVersion::V1
    );
}

#[test]
fn test_builder() {
    let mut i_frame_stream_inf = ExtXIFrameStreamInf::new("http://example.com/audio-only.m3u8", 200_000);
    i_frame_stream_inf.set_average_bandwidth(Some(100_000));
    i_frame_stream_inf.set_codecs(Some("mp4a.40.5"));
    i_frame_stream_inf.set_resolution(1920, 1080);
    i_frame_stream_inf.set_hdcp_level(Some(HdcpLevel::NotRequired));
    i_frame_stream_inf.set_video(Some("video"));

    assert_eq!(
        ExtXIFrameStreamInf::builder()
            .uri("http://example.com/audio-only.m3u8")
            .bandwidth(200_000)
            .average_bandwidth(100_000)
            .codecs("mp4a.40.5")
            .resolution(1920, 1080)
            .hdcp_level(HdcpLevel::NotRequired)
            .video("video")
            .build()
            .unwrap(),
        i_frame_stream_inf
    );
}

#[test]
fn i_frame_stream_inf_test_display() {
    assert_eq!(
        ExtXIFrameStreamInf::new("foo", 1000).to_string(),
        "#EXT-X-I-FRAME-STREAM-INF:URI=\"foo\",BANDWIDTH=1000".to_string()
    );
}

#[test]
fn i_frame_stream_inf_test_parser() {
    assert_eq!(
        ExtXIFrameStreamInf::try_from("#EXT-X-I-FRAME-STREAM-INF:URI=\"foo\",BANDWIDTH=1000").unwrap(),
        ExtXIFrameStreamInf::new("foo", 1000)
    );
    assert!(ExtXIFrameStreamInf::try_from("garbage").is_err());
}

#[test]
fn i_frame_stream_inf_test_required_version() {
    assert_eq!(ExtXIFrameStreamInf::new("foo", 1000).required_version(), ProtocolVersion::V1);
}

#[test]
fn i_frame_stream_inf_test_deref() {
    assert_eq!(ExtXIFrameStreamInf::new("https://www.example.com", 20).average_bandwidth(), None)
}

#[test]
fn i_frame_stream_inf_test_deref_mut() {
    let mut s = ExtXIFrameStreamInf::new("https://www.example.com", 20);
    s.set_average_bandwidth(Some(4));
    assert_eq!(s.average_bandwidth(), Some(4))
}

#[test]
fn stream_inf_test_parser() {
    let stream_inf =
        ExtXStreamInf::try_from("#EXT-X-STREAM-INF:BANDWIDTH=1000\nhttp://www.example.com").unwrap();
    assert_eq!(stream_inf, ExtXStreamInf::new("http://www.example.com", 1000));
}

#[test]
fn stream_inf_test_display() {
    assert_eq!(
        ExtXStreamInf::new("http://www.example.com/", 1000).to_string(),
        "#EXT-X-STREAM-INF:BANDWIDTH=1000\nhttp://www.example.com/".to_string()
    );
}

#[test]
fn stream_inf_test_required_version() {
    assert_eq!(
        ProtocolVersion::V1,
        ExtXStreamInf::new("http://www.example.com", 1000).required_version()
    );
}

#[test]
fn stream_inf_test_deref() {
    assert_eq!(ExtXStreamInf::new("http://www.example.com", 1000).bandwidth(), 1000);
}

#[test]
fn stream_inf_test_deref_mut() {
    let mut s = ExtXStreamInf::new("http://www.example.com", 1000);
    s.set_bandwidth(1);
    assert_eq!(s.bandwidth(), 1);
}

#[test]
fn variant_stream_test_required_version() {
    assert_eq!(
        VariantStream::ExtXStreamInf {
            uri: "https://www.example.com/init.bin".to_string(),
            frame_rate: None,
            audio: None,
            subtitles: None,
            closed_captions: None,
            stream_data: StreamData::new(1_110_000),
        }
        .required_version(),
        ProtocolVersion::V1
    );
}

fn media_cases() -> Vec<(ExtXMedia, String)> {
    let audio = |group: &str, lang: &str, name: &str, default: bool, uri: &str| {
        ExtXMedia::builder()
            .media_type(MediaType::Audio)
            .group_id(group)
            .language(lang)
            .name(name)
            .is_autoselect(true)
            .is_default(default)
            .uri(uri)
            .build()
            .unwrap()
    };
    let text = |group: &str, lang: &str, name: &str, default: bool, uri: &str| {
        [
            "#EXT-X-MEDIA:TYPE=AUDIO,URI=\"",
            uri,
            "\",GROUP-ID=\"",
            group,
            "\",LANGUAGE=\"",
            lang,
            "\",NAME=\"",
            name,
            if default { "\",DEFAULT=YES,AUTOSELECT=YES" } else { "\",AUTOSELECT=YES" },
        ]
        .concat()
    };
    let rows: Vec<(&str, &str, &str, bool, &str)> = vec![
        ("audio", "eng", "English", true, "eng/prog_index.m3u8"),
        ("audio", "fre", "Français", false, "fre/prog_index.m3u8"),
        ("audio", "sp", "Espanol", false, "sp/prog_index.m3u8"),
        ("audio-lo", "eng", "English", true, "englo/prog_index.m3u8"),
        ("audio-lo", "fre", "Français", false, "frelo/prog_index.m3u8"),
        ("audio-lo", "es", "Espanol", false, "splo/prog_index.m3u8"),
        ("audio-hi", "eng", "English", true, "eng/prog_index.m3u8"),
        ("audio-hi", "fre", "Français", false, "fre/prog_index.m3u8"),
        ("audio-hi", "es", "Espanol", false, "sp/prog_index.m3u8"),
    ];
    let mut cases: Vec<(ExtXMedia, String)> = rows
        .into_iter()
        .map(|(g, l, n, d, u)| (audio(g, l, n, d, u), text(g, l, n, d, u)))
        .collect();
    cases.push((
        ExtXMedia::builder()
            .media_type(MediaType::Audio)
            .group_id("audio-aacl-312")
            .language("en")
            .name("English")
            .is_autoselect(true)
            .is_default(true)
            .channels(Channels::new(2))
            .build()
            .unwrap(),
        [
            "#EXT-X-MEDIA:TYPE=AUDIO,GROUP-ID=\"audio-aacl-312\",LANGUAGE=\"en\",",
            "NAME=\"English\",DEFAULT=YES,AUTOSELECT=YES,CHANNELS=\"2\"",
        ]
        .concat(),
    ));
    cases.push((
        ExtXMedia::builder()
            .media_type(MediaType::Subtitles)
            .uri("french/ed.ttml")
            .group_id("subs")
            .language("fra")
            .assoc_language("fra")
            .name("French")
            .is_autoselect(true)
            .is_forced(true)
            .characteristics(
                "public.accessibility.transcribes-spoken-dialog,public.accessibility.describes-music-and-sound",
            )
            .build()
            .unwrap(),
        [
            "#EXT-X-MEDIA:TYPE=SUBTITLES,URI=\"french/ed.ttml\",GROUP-ID=\"subs\",",
            "LANGUAGE=\"fra\",ASSOC-LANGUAGE=\"fra\",NAME=\"French\",AUTOSELECT=YES,FORCED=YES,",
            "CHARACTERISTICS=\"public.accessibility.transcribes-spoken-dialog,",
            "public.accessibility.describes-music-and-sound\"",
        ]
        .concat(),
    ));
    cases.push((
        ExtXMedia::builder()
            .media_type(MediaType::ClosedCaptions)
            .group_id("cc")
            .language("sp")
            .name("CC2")
            .instream_id(InStreamId::Cc2)
            .is_autoselect(true)
            .build()
            .unwrap(),
        [
            "#EXT-X-MEDIA:TYPE=CLOSED-CAPTIONS,GROUP-ID=\"cc\",LANGUAGE=\"sp\",",
            "NAME=\"CC2\",AUTOSELECT=YES,INSTREAM-ID=\"CC2\"",
        ]
        .concat(),
    ));
    cases.push((
        ExtXMedia::new(MediaType::Audio, "foo", "bar"),
        "#EXT-X-MEDIA:TYPE=AUDIO,GROUP-ID=\"foo\",NAME=\"bar\"".to_string(),
    ));
    cases
}

#[test]
fn test_display_and_parse() {
    for (media, text) in media_cases() {
        assert_eq!(media.to_string(), text);
        assert_eq!(media, ExtXMedia::try_from(&text).unwrap());
    }
}

#[test]
fn media_test_required_version() {
    for (id, version) in [
        (InStreamId::Cc1, ProtocolVersion::V1),
        (InStreamId::Cc2, ProtocolVersion::V1),
        (InStreamId::Cc3, ProtocolVersion::V1),
        (InStreamId::Cc4, ProtocolVersion::V1),
        (InStreamId::Service1, ProtocolVersion::V7),
    ] {
        assert_eq!(
            ExtXMedia::builder()
                .media_type(MediaType::ClosedCaptions)
                .group_id("audio")
                .name("English")
                .instream_id(id)
                .build()
                .unwrap()
                .required_version(),
            version
        );
    }
    assert_eq!(
        ExtXMedia::builder()
            .media_type(MediaType::Audio)
            .group_id("audio")
            .name("English")
            .build()
            .unwrap()
            .required_version(),
        ProtocolVersion::V1
    );
}

struct Example;

impl RequiredVersion for Example {
    fn required_version(&self) -> ProtocolVersion {
        ProtocolVersion::V3
    }
}

#[test]
fn test_required_version_trait() {
    assert_eq!(Example.required_version(), ProtocolVersion::V3);
    assert_eq!(Example.introduced_version(), ProtocolVersion::V3);
}
