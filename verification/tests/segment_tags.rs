use hls_m3u8::tags::{
    ExtInf, ExtXByteRange, ExtXDateRange, ExtXDiscontinuity, ExtXDiscontinuitySequence,
    ExtXEndList, ExtXIFramesOnly, ExtXKey, ExtXMediaSequence, ExtXTargetDuration,
};
use hls_m3u8::types::{
    ByteRange, DecryptionKey, Duration, EncryptionMethod, Float, KeyFormat, ProtocolVersion, Value,
};
use hls_m3u8::{Error, RequiredVersion};

#[test]
fn discontinuity_sequence_test_display() {
    assert_eq!(
        ExtXDiscontinuitySequence(123).to_string(),
        "#EXT-X-DISCONTINUITY-SEQUENCE:123".to_string()
    );
}

#[test]
fn discontinuity_sequence_test_required_version() {
    assert_eq!(ExtXDiscontinuitySequence(123).required_version(), ProtocolVersion::V1)
}

#[test]
fn discontinuity_sequence_test_parser() {
    assert_eq!(
        ExtXDiscontinuitySequence(123),
        ExtXDiscontinuitySequence::try_from("#EXT-X-DISCONTINUITY-SEQUENCE:123").unwrap()
    );
    assert_eq!(
        ExtXDiscontinuitySequence::try_from("#EXT-X-DISCONTINUITY-SEQUENCE:12A"),
        Err(Error::ParseIntError { input: "12A".to_string() })
    );
}

#[test]
fn end_list_test_display() {
    assert_eq!(ExtXEndList.to_string(), "#EXT-X-ENDLIST".to_string());
}

#[test]
fn end_list_test_parser() {
    assert_eq!(ExtXEndList, ExtXEndList::try_from("#EXT-X-ENDLIST").unwrap());
}

#[test]
fn end_list_test_required_version() {
    assert_eq!(ExtXEndList.required_version(), ProtocolVersion::V1);
}

#[test]
fn i_frames_only_test_display() {
    assert_eq!(ExtXIFramesOnly.to_string(), "#EXT-X-I-FRAMES-ONLY".to_string())
}

#[test]
fn i_frames_only_test_parser() {
    assert_eq!(
        ExtXIFramesOnly,
        ExtXIFramesOnly::try_from("#EXT-X-I-FRAMES-ONLY").unwrap(),
    )
}

#[test]
fn i_frames_only_test_required_version() {
    assert_eq!(ExtXIFramesOnly.required_version(), ProtocolVersion::V4)
}

#[test]
fn media_sequence_test_display() {
    assert_eq!(
        ExtXMediaSequence(123).to_string(),
        "#EXT-X-MEDIA-SEQUENCE:123".to_string()
    );
}

#[test]
fn media_sequence_test_required_version() {
    assert_eq!(ExtXMediaSequence(123).required_version(), ProtocolVersion::V1);
}

#[test]
fn media_sequence_test_parser() {
    assert_eq!(
        ExtXMediaSequence(123),
        ExtXMediaSequence::try_from("#EXT-X-MEDIA-SEQUENCE:123").unwrap()
    );
}

#[test]
fn target_duration_test_display() {
    assert_eq!(
        ExtXTargetDuration(Duration::from_secs(5)).to_string(),
        "#EXT-X-TARGETDURATION:5".to_string()
    );
}

#[test]
fn target_duration_test_required_version() {
    assert_eq!(
        ExtXTargetDuration(Duration::from_secs(5)).required_version(),
        ProtocolVersion::V1
    );
}

#[test]
fn target_duration_test_parser() {
    assert_eq!(
        ExtXTargetDuration(Duration::from_secs(5)),
        ExtXTargetDuration::try_from("#EXT-X-TARGETDURATION:5").unwrap()
    );
}

fn range(start: usize, end: usize) -> ExtXByteRange {
    ExtXByteRange::new(ByteRange::from_range(start, end))
}

#[test]
fn byte_range_test_display() {
    assert_eq!(range(2, 15).to_string(), "#EXT-X-BYTERANGE:13@2".to_string());
    assert_eq!(
        ExtXByteRange::new(ByteRange::up_to(22)).to_string(),
        "#EXT-X-BYTERANGE:22".to_string()
    );
}

#[test]
fn byte_range_test_parser() {
    assert_eq!(range(2, 15), ExtXByteRange::try_from("#EXT-X-BYTERANGE:13@2").unwrap());
    assert_eq!(
        ExtXByteRange::new(ByteRange::up_to(22)),
        ExtXByteRange::try_from("#EXT-X-BYTERANGE:22").unwrap()
    );
}

#[test]
fn byte_range_test_deref() {
    let byte_range = range(0, 22);
    assert_eq!(byte_range.0.len(), 22);
    assert_eq!(byte_range.0.start(), Some(0));
}

#[test]
fn byte_range_test_deref_mut() {
    let mut byte_range = range(10, 110);
    byte_range.0.set_start(Some(50));
    assert_eq!(byte_range.0.len(), 60);
    assert_eq!(byte_range.0.start(), Some(50));
}

#[test]
fn byte_range_test_required_version() {
    assert_eq!(range(5, 20).required_version(), ProtocolVersion::V4);
}

fn date_ranges() -> Vec<(ExtXDateRange, String)> {
    vec![
        (
            ExtXDateRange::builder()
                .id("splice-6FFFFFF0")
                .start_date("2014-03-05T11:15:00Z")
                .planned_duration(Duration::from_millis(59993))
                .scte35_out(
                    &[
                        "0xFC002F0000000000FF00001",
                        "4056FFFFFF000E011622DCAFF0",
                        "00052636200000000000A00080",
                        "29896F50000008700000000",
                    ]
                    .concat(),
                )
                .build()
                .unwrap(),
            [
                "#EXT-X-DATERANGE:",
                "ID=\"splice-6FFFFFF0\",",
                "START-DATE=\"2014-03-05T11:15:00Z\",",
                "PLANNED-DURATION=59.993,",
                "SCTE35-OUT=0xFC002F0000000000FF000014056F",
                "FFFFF000E011622DCAFF000052636200000000000",
                "A0008029896F50000008700000000",
            ]
            .concat(),
        ),
        (
            ExtXDateRange::builder()
                .id("test_id")
                .class("test_class")
                .start_date("2014-03-05T11:15:00Z")
                .end_date("2014-03-05T11:16:00.100Z")
                .duration(Duration::from_millis(60100))
                .planned_duration(Duration::from_millis(59993))
                .insert_client_attribute("X-CUSTOM", Value::Float(Float::new(false, 45, 300_000_000)))
                .scte35_cmd("0xFC002F0000000000FF2")
                .scte35_out("0xFC002F0000000000FF0")
                .scte35_in("0xFC002F0000000000FF1")
                .build()
                .unwrap(),
            [
                "#EXT-X-DATERANGE:",
                "ID=\"test_id\",",
                "CLASS=\"test_class\",",
                "START-DATE=\"2014-03-05T11:15:00Z\",",
                "END-DATE=\"2014-03-05T11:16:00.100Z\",",
                "DURATION=60.1,",
                "PLANNED-DURATION=59.993,",
                "SCTE35-CMD=0xFC002F0000000000FF2,",
                "SCTE35-OUT=0xFC002F0000000000FF0,",
                "SCTE35-IN=0xFC002F0000000000FF1,",
                "X-CUSTOM=45.3",
            ]
            .concat(),
        ),
    ]
}

#[test]
fn date_range_test_display() {
    for (left, right) in date_ranges() {
        assert_eq!(left.to_string(), right);
    }
}

#[test]
fn date_range_test_parser() {
    for (left, right) in date_ranges() {
        assert_eq!(left, ExtXDateRange::try_from(&right).unwrap());
    }
    assert!(ExtXDateRange::try_from("#EXT-X-DATERANGE:END-ON-NEXT=NO").is_err());
    assert!(ExtXDateRange::try_from("garbage").is_err());
    assert!(ExtXDateRange::try_from("").is_err());
    assert!(ExtXDateRange::try_from(
        &[
            "#EXT-X-DATERANGE:",
            "ID=\"test_id\",",
            "START-DATE=\"2014-03-05T11:15:00Z\",",
            "END-ON-NEXT=YES",
        ]
        .concat()
    )
    .is_err());
}

#[test]
fn date_range_test_required_version() {
    assert_eq!(
        ExtXDateRange::new("id", "2010-02-19T14:54:23.031+08:00").required_version(),
        ProtocolVersion::V1
    );
}

#[test]
fn discontinuity_test_display() {
    assert_eq!(ExtXDiscontinuity.to_string(), "#EXT-X-DISCONTINUITY".to_string())
}

#[test]
fn discontinuity_test_parser() {
    assert_eq!(
        ExtXDiscontinuity,
        ExtXDiscontinuity::try_from("#EXT-X-DISCONTINUITY").unwrap()
    );
    assert!(ExtXDiscontinuity::try_from("#EXT-X-DISCONTINUITY:0").is_err());
}

#[test]
fn discontinuity_test_required_version() {
    assert_eq!(ExtXDiscontinuity.required_version(), ProtocolVersion::V1)
}

#[test]
fn inf_test_display() {
    assert_eq!("#EXTINF:5,".to_string(), ExtInf::new(Duration::from_secs(5)).to_string());
    assert_eq!("#EXTINF:5.5,".to_string(), ExtInf::new(Duration::from_millis(5500)).to_string());
    assert_eq!(
        "#EXTINF:5.5,title".to_string(),
        ExtInf::with_title(Duration::from_millis(5500), "title").to_string()
    );
    assert_eq!(
        "#EXTINF:5,title".to_string(),
        ExtInf::with_title(Duration::from_secs(5), "title").to_string()
    );
}

#[test]
fn inf_test_parser() {
    assert_eq!(ExtInf::try_from("#EXTINF:5").unwrap(), ExtInf::new(Duration::from_secs(5)));
    assert_eq!(ExtInf::try_from("#EXTINF:5,").unwrap(), ExtInf::new(Duration::from_secs(5)));
    assert_eq!(ExtInf::try_from("#EXTINF:5.5").unwrap(), ExtInf::new(Duration::from_millis(5500)));
    assert_eq!(ExtInf::try_from("#EXTINF:5.5,").unwrap(), ExtInf::new(Duration::from_millis(5500)));
    assert_eq!(
        ExtInf::try_from("#EXTINF:5.5,title").unwrap(),
        ExtInf::with_title(Duration::from_millis(5500), "title")
    );
    assert_eq!(
        ExtInf::try_from("#EXTINF:5,title").unwrap(),
        ExtInf::with_title(Duration::from_secs(5), "title")
    );
    assert!(ExtInf::try_from("#EXTINF:").is_err());
    assert!(ExtInf::try_from("#EXTINF:garbage").is_err());
}

#[test]
fn test_title() {
    assert_eq!(ExtInf::new(Duration::from_secs(5)).title(), &None);
    assert_eq!(
        ExtInf::with_title(Duration::from_secs(5), "title").title(),
        &Some("title".to_string())
    );
}

#[test]
fn inf_test_required_version() {
    assert_eq!(ExtInf::new(Duration::from_secs(4)).required_version(), ProtocolVersion::V1);
    assert_eq!(ExtInf::new(Duration::from_millis(4400)).required_version(), ProtocolVersion::V3);
}

#[test]
fn test_from() {
    assert_eq!(ExtInf::from(Duration::from_secs(1)), ExtInf::new(Duration::from_secs(1)));
}

const IV: [u8; 16] = [16, 239, 143, 117, 140, 165, 85, 17, 85, 132, 187, 91, 60, 104, 127, 82];

fn keys() -> Vec<(ExtXKey, String)> {
    vec![
        (ExtXKey::empty(), "#EXT-X-KEY:METHOD=NONE".to_string()),
        (
            ExtXKey::new(DecryptionKey::new(
                EncryptionMethod::Aes128,
                "https://priv.example.com/key.php?r=52",
            )),
            [
                "#EXT-X-KEY:",
                "METHOD=AES-128,",
                "URI=\"https://priv.example.com/key.php?r=52\"",
            ]
            .concat(),
        ),
        (
            ExtXKey::new(
                DecryptionKey::builder()
                    .method(EncryptionMethod::Aes128)
                    .uri("https://www.example.com/hls-key/key.bin")
                    .iv(IV)
                    .build()
                    .unwrap(),
            ),
            [
                "#EXT-X-KEY:",
                "METHOD=AES-128,",
                "URI=\"https://www.example.com/hls-key/key.bin\",",
                "IV=0x10ef8f758ca555115584bb5b3c687f52",
            ]
            .concat(),
        ),
        (
            ExtXKey::new(
                DecryptionKey::builder()
                    .method(EncryptionMethod::Aes128)
                    .uri("https://www.example.com/hls-key/key.bin")
                    .iv(IV)
                    .format(KeyFormat::Identity)
                    .versions(vec![1, 2, 3])
                    .build()
                    .unwrap(),
            ),
            [
                "#EXT-X-KEY:",
                "METHOD=AES-128,",
                "URI=\"https://www.example.com/hls-key/key.bin\",",
                "IV=0x10ef8f758ca555115584bb5b3c687f52,",
                "KEYFORMAT=\"identity\",",
                "KEYFORMATVERSIONS=\"1/2/3\"",
            ]
            .concat(),
        ),
    ]
}

#[test]
fn key_test_display() {
    for (k, s) in keys() {
        assert_eq!(k.to_string(), s);
    }
}

#[test]
fn key_test_parser() {
    for (k, s) in keys() {
        assert_eq!(k, ExtXKey::try_from(&s).unwrap());
    }
    assert_eq!(
        ExtXKey::new(DecryptionKey::new(EncryptionMethod::Aes128, "http://www.example.com")),
        ExtXKey::try_from(
            &[
                "#EXT-X-KEY:",
                "METHOD=AES-128,",
                "URI=\"http://www.example.com\",",
                "UNKNOWNTAG=abcd",
            ]
            .concat()
        )
        .unwrap(),
    );
    assert!(ExtXKey::try_from("#EXT-X-KEY:METHOD=AES-128,URI=").is_err());
    assert!(ExtXKey::try_from("garbage").is_err());
}

#[test]
fn key_test_required_version() {
    assert_eq!(
        ExtXKey::new(DecryptionKey::new(EncryptionMethod::Aes128, "https://www.example.com/"))
            .required_version(),
        ProtocolVersion::V1
    );
    assert_eq!(
        ExtXKey::new(
            DecryptionKey::builder()
                .method(EncryptionMethod::Aes128)
                .uri("https://www.example.com/")
                .format(KeyFormat::Identity)
                .versions(vec![1, 2, 3])
                .build()
                .unwrap()
        )
        .required_version(),
        ProtocolVersion::V5
    );
    assert_eq!(
        ExtXKey::new(
            DecryptionKey::builder()
                .method(EncryptionMethod::Aes128)
                .uri("https://www.example.com/")
                .iv([1, 2, 3, 4, 5, 6, 7, 8, 9, 1, 2, 3, 4, 5, 6, 7])
                .build()
                .unwrap()
        )
        .required_version(),
        ProtocolVersion::V2
    );
}
