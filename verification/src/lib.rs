//! Digital Morse: keying conversion, channel coding and the keyer protocol.

pub mod application;
pub mod audio;
pub mod buffer_pool;
pub mod channel_codec;
pub mod config_file;
pub mod conversion;
pub mod gui;
pub mod keyer_io;
pub mod matchers;
pub mod patterns;
pub mod playback;
pub mod source_codec;
pub mod util;
