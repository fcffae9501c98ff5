use hls_m3u8::tags::{ExtM3u, ExtXVersion};
use hls_m3u8::types::ProtocolVersion;
use hls_m3u8::RequiredVersion;

#[test]
fn m3u_test_parser() {
    assert_eq!(ExtM3u::try_from("#EXTM3U").ok(), Some(ExtM3u));
    assert!(ExtM3u::try_from("#EXTM2U").is_err());
}

#[test]
fn test_parser_err() {
    assert!(ExtM3u::try_from("#EEXTM3U").is_err());
}

#[test]
fn m3u_test_display() {
    assert_eq!(ExtM3u.to_string(), "#EXTM3U");
}

#[test]
fn test_required_vesion() {
    assert_eq!(ExtM3u.required_version(), ProtocolVersion::V1);
}

#[test]
fn version_test_display() {
    assert_eq!(ExtXVersion::new(ProtocolVersion::V6).to_string(), "#EXT-X-VERSION:6");
}

#[test]
fn version_test_parser() {
    assert_eq!(
        ExtXVersion::try_from("#EXT-X-VERSION:6").unwrap(),
        ExtXVersion::new(ProtocolVersion::V6)
    );
}

#[test]
fn version_test_required_version() {
    assert_eq!(
        ExtXVersion::new(ProtocolVersion::V6).required_version(),
        ProtocolVersion::V1
    );
}

#[test]
fn test_default_and_from() {
    assert_eq!(ExtXVersion::default(), ExtXVersion::from(ProtocolVersion::V1));
}
