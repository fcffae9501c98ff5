//! The tags of a playlist (RFC 8216, section 4.3).
mod basic;
mod client_attributes;
mod date_range;
mod media;
mod media_playlist;
mod media_segment;
mod session;
mod shared;
mod stream_inf;
mod variant_stream;

pub use basic::{lemma_ext_m3u_roundtrip, lemma_ext_x_version_roundtrip, ExtM3u, ExtXVersion};
pub use media_playlist::{
    lemma_discontinuity_sequence_roundtrip, lemma_end_list_roundtrip,
    lemma_i_frames_only_roundtrip, lemma_media_sequence_roundtrip, lemma_playlist_type_roundtrip,
    lemma_target_duration_roundtrip, ExtXDiscontinuitySequence, ExtXEndList, ExtXIFramesOnly,
    ExtXMediaSequence, ExtXPlaylistType, ExtXTargetDuration, PlaylistType,
};
pub use media_segment::{
    inf_duration_part, inf_title_part, lemma_byte_range_tag_roundtrip, lemma_inf_roundtrip, lemma_key_tag_roundtrip,
    lemma_map_roundtrip, lemma_map_text_roundtrip, lemma_program_date_time_roundtrip,
    lemma_range_text_ends, lemma_range_text_plain, lemma_strip_plain, map_of_pairs,
    map_text, ExtInf, ExtXByteRange, ExtXDiscontinuity, ExtXKey, ExtXMap, ExtXProgramDateTime,
    MapView,
};
pub use shared::{
    lemma_independent_segments_roundtrip, lemma_start_roundtrip, start_of_pairs, ExtXIndependentSegments, ExtXStart,
};
pub use media::{
    lemma_media_line_ok, lemma_media_roundtrip, lemma_media_tag_roundtrip, media_reads_back, flag_attr, flag_debug, media_attrs_ok, media_build, media_builder_of_pairs, media_flags, media_head,
    media_of_pairs, media_tail, media_text, media_version, opt_quoted_attr, quoted_opt, write_quoted_attr, yes_opt, ExtXMedia, ExtXMediaBuilder, MediaBuilderView,
    MediaView,
};
pub use stream_inf::{
    frame_rate_text, iframe_reads_back, lemma_iframe_roundtrip, lemma_stream_inf_lines,
    lemma_stream_inf_roundtrip, lemma_stream_text_ends, lemma_stream_text_no_lf, lemma_two_lines,
    opt_cc_text, stream_inf_pairs,
    stream_inf_reads_back,
    closed_captions_value, write_stream_inf_extra, after_line, extra_text, first_line, iframe_of_pairs, iframe_text, line_after, line_of, opt_cc,
    rest_after_line, second_line, stream_inf_extra, stream_inf_of_pairs, stream_inf_text,
    ExtXIFrameStreamInf, ExtXIFrameStreamInfBuilder, ExtXStreamInf, ExtXStreamInfBuilder,
    IFrameView, StreamInfView,
};
pub use variant_stream::{
    lemma_variant_roundtrip, variant_reads_back,
    associated, first_quoted, is_group, variant_of_text, variant_text, VariantStream, VariantView,
};
pub use session::{
    lemma_session_data_roundtrip, lemma_session_key_roundtrip, session_data_of_pairs, session_data_text, ExtXSessionData,
    ExtXSessionDataBuilder,
    ExtXSessionKey, SessionData, SessionDataTagView, SessionDataView,
};
pub use client_attributes::{
    client_text, lemma_insert_sorted, lemma_text_lt_order, sorted_keys, spec_insert, text_lt,
    text_order, ClientAttributes, TextOrder,
};
pub use date_range::{
    client_attrs_of, client_ok, date_range_attrs_ok, date_range_head, date_range_of_pairs,
    date_range_reads_back, date_range_tail, date_range_text, end_on_next_ok, is_client_key,
    lemma_date_range_roundtrip, lemma_date_range_text_line, opt_duration,
    valid_client_key, DateRangeView, ExtXDateRange, ExtXDateRangeBuilder,
};
