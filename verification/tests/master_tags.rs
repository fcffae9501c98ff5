use hls_m3u8::tags::{ExtXMedia, ExtXPlaylistType, VariantStream};
use hls_m3u8::types::{ClosedCaptions, InStreamId, MediaType, ProtocolVersion, StreamData};
use hls_m3u8::RequiredVersion;

#[test]
fn it_works() {
    assert!(true)
}

#[test]
fn playlist_type_test_parser() {
    assert_eq!(
        ExtXPlaylistType::try_from("#EXT-X-PLAYLIST-TYPE:VOD").unwrap(),
        ExtXPlaylistType::Vod,
    );
    assert_eq!(
        ExtXPlaylistType::try_from("#EXT-X-PLAYLIST-TYPE:EVENT").unwrap(),
        ExtXPlaylistType::Event,
    );
    assert!(ExtXPlaylistType::try_from("#EXT-X-PLAYLIST-TYPE:H").is_err());
}

#[test]
fn playlist_type_test_display() {
    assert_eq!(
        "#EXT-X-PLAYLIST-TYPE:VOD".to_string(),
        ExtXPlaylistType::Vod.to_string(),
    );
    assert_eq!(
        "#EXT-X-PLAYLIST-TYPE:EVENT".to_string(),
        ExtXPlaylistType::Event.to_string(),
    );
}

#[test]
fn playlist_type_test_required_version() {
    assert_eq!(ExtXPlaylistType::Vod.required_version(), ProtocolVersion::V1);
    assert_eq!(ExtXPlaylistType::Event.required_version(), ProtocolVersion::V1);
}

#[test]
fn test_parser_error() {
    assert!(ExtXMedia::try_from("").is_err());
    assert!(ExtXMedia::try_from("garbage").is_err());
    assert!(ExtXMedia::try_from(
        "#EXT-X-MEDIA:TYPE=CLOSED-CAPTIONS,URI=\"http://www.example.com\""
    )
    .is_err());
    assert!(ExtXMedia::try_from("#EXT-X-MEDIA:TYPE=AUDIO,INSTREAM-ID=CC1").is_err());
    assert!(ExtXMedia::try_from("#EXT-X-MEDIA:TYPE=AUDIO,DEFAULT=YES,AUTOSELECT=NO").is_err());
    assert!(ExtXMedia::try_from("#EXT-X-MEDIA:TYPE=AUDIO,FORCED=YES").is_err());
}

#[test]
fn test_is_associated() {
    let mut variant_stream = VariantStream::ExtXStreamInf {
        uri: "https://www.example.com/init.bin".to_string(),
        frame_rate: None,
        audio: Some("ag1".to_string()),
        subtitles: Some("sg1".to_string()),
        closed_captions: Some(ClosedCaptions::group_id("cc1")),
        stream_data: StreamData::builder()
            .bandwidth(1_110_000)
            .video("vg1")
            .build()
            .unwrap(),
    };

    assert!(variant_stream.is_associated(
        &ExtXMedia::builder()
            .media_type(MediaType::Audio)
            .group_id("ag1")
            .name("audio example")
            .build()
            .unwrap(),
    ));

    assert!(variant_stream.is_associated(
        &ExtXMedia::builder()
            .media_type(MediaType::Subtitles)
            .uri("https://www.example.com/sg1.ssa")
            .group_id("sg1")
            .name("subtitle example")
            .build()
            .unwrap(),
    ));

    assert!(variant_stream.is_associated(
        &ExtXMedia::builder()
            .media_type(MediaType::ClosedCaptions)
            .group_id("cc1")
            .name("closed captions example")
            .instream_id(InStreamId::Cc1)
            .build()
            .unwrap(),
    ));

    if let VariantStream::ExtXStreamInf {
        closed_captions, ..
    } = &mut variant_stream
    {
        *closed_captions = Some(ClosedCaptions::Absent);
    }

    assert!(variant_stream.is_associated(
        &ExtXMedia::builder()
            .media_type(MediaType::ClosedCaptions)
            .group_id("NONE")
            .name("closed captions example")
            .instream_id(InStreamId::Cc1)
            .build()
            .unwrap(),
    ));

    assert!(variant_stream.is_associated(
        &ExtXMedia::builder()
            .media_type(MediaType::Video)
            .group_id("vg1")
            .name("video example")
            .build()
            .unwrap(),
    ));
}
