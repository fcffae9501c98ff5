//! Miscellaneous types.
mod byte_range;
mod channels;
mod closed_captions;
mod decimal;
mod decryption_key;
mod duration;
mod encryption_method;
mod hdcp_level;
mod in_stream_id;
mod media_type;
mod protocol_version;
mod resolution;
mod stream_data;
mod strings;
mod value;

pub use byte_range::{
    lemma_byte_range_roundtrip, lemma_view_injective, range_len, range_of_text, range_ok,
    range_text, ByteRange,
};
pub use duration::{duration_debug, lemma_duration_roundtrip, Duration, NANOS_PER_SEC};
pub use protocol_version::{lemma_protocol_version_roundtrip, ProtocolVersion};
pub use encryption_method::{lemma_encryption_method_roundtrip, EncryptionMethod};
pub use hdcp_level::{lemma_hdcp_level_roundtrip, HdcpLevel};
pub use in_stream_id::{lemma_in_stream_id_plain, lemma_in_stream_id_roundtrip, InStreamId};
pub use media_type::{lemma_media_type_roundtrip, MediaType};
pub use channels::{channels_of_text, first_parameter, lemma_channels_roundtrip, Channels};
pub use resolution::{lemma_resolution_roundtrip, resolution_of_text, Resolution};
pub use decimal::{
    float_of_text, lemma_fixed3_roundtrip, lemma_float_roundtrip, lemma_float_view,
    lemma_ufloat_roundtrip, lemma_ufloat_view, rounded_millis, ufloat_of_text,
    Float, UFloat,
};
pub use strings::{M3u8String, QuotedString, Yes};
pub(crate) use decryption_key::hex_digit;
pub use decryption_key::{
    key_reads_back, lemma_key_roundtrip, lemma_key_text_ends, lemma_key_text_no_lf, all_versions, key_attrs_ok, key_of_pairs, key_text, key_version, uri_of, versions_text,
    DecryptionKey, DecryptionKeyBuilder, KeyView, all_ascii, ascii_bytes, hex_char, hex_fixed, hex_text, iv_bytes_of_text, iv_of_bytes, join_versions,
    key_format_of_text, versions_of_text, InitializationVector, KeyFormat, KeyFormatVersions,
};
pub use closed_captions::{closed_captions_of_text, closed_captions_text, ClosedCaptions};
pub use stream_data::{
    lemma_opt_attr_chunk, lemma_stream_keys, lemma_stream_read, lemma_stream_rest_text,
    lemma_stream_rest_values, lemma_stream_values_wf, stream_reads_back, stream_rest_pairs,
    opt_dec, opt_hdcp, opt_quoted, opt_resolution, push_key, write_opt_quoted, write_opt_u64,
    opt_attr, opt_view, stream_attrs_ok, stream_of_pairs, stream_text, StreamBuilderView,
    StreamData, StreamDataBuilder, StreamView,
};
pub use value::{
    float_text, has_hex_prefix, hex_char_upper, hex_text_upper, value_of_text, value_text, Value,
    ValueView,
};
