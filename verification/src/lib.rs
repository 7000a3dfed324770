//! Decoding of audio files to interleaved 32-bit float PCM behind a C-shaped interface.
//!
//! Symphonia does the demuxing and the decoding. This crate decides what to ask of it, keeps the
//! samples that a caller has not taken yet, and turns every outcome into a status code and a
//! message. A sample is held as the bit pattern of its 32-bit float.

pub mod agreement;
pub mod api;
pub mod buffer;
pub mod decoder;
pub mod error;
pub mod laws;
pub mod media;
pub mod message;
pub mod path;
pub mod promises;
pub mod session;
pub mod status;

pub use api::{
    symphonia_c_audio_buffer_free, symphonia_c_channels, symphonia_c_decode_file_f32,
    symphonia_c_last_error, symphonia_c_open_file, symphonia_c_read_f32, symphonia_c_sample_rate,
    symphonia_c_total_frames,
};
pub use buffer::SymphoniaCAudioBuffer;
pub use decoder::SymphoniaCDecoder;
pub use status::{
    SYMPHONIA_C_DECODE_ERROR, SYMPHONIA_C_END_OF_STREAM, SYMPHONIA_C_INTERNAL_ERROR,
    SYMPHONIA_C_INVALID_ARGUMENT, SYMPHONIA_C_IO_ERROR, SYMPHONIA_C_LIMIT_ERROR, SYMPHONIA_C_OK,
    SYMPHONIA_C_UNSUPPORTED, symphonia_c_status_message,
};
