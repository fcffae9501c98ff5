//! A parser and generator for HLS (RFC 8216) m3u8 playlists.
pub mod attribute;
pub mod error;
pub mod hex;
pub mod line;
pub mod master_playlist;
pub mod master_text;
pub mod media_playlist;
pub mod media_segment;
pub mod media_text;
pub mod slots;
pub mod tags;
pub mod text;
pub mod traits;
pub mod types;

pub use error::{Error, Result};
pub use master_playlist::{MasterPlaylist, MasterPlaylistBuilder};
pub use media_playlist::{MediaPlaylist, MediaPlaylistBuilder};
pub use media_segment::{MediaSegment, MediaSegmentBuilder};
pub use traits::RequiredVersion;
