//! Content fingerprints of audio files. Decoded samples are normalized to
//! little-endian bytes per channel, each channel is hashed by its own BLAKE2b
//! accumulator, and the per-channel digests are folded by XOR into one 64-byte
//! checksum, so that files with the same audio samples get the same checksum
//! whatever their container, tags or block layout.

pub mod accumulator;
pub mod checksum;
pub mod codecs;
pub mod engine;
pub mod error;
pub mod filetype;
pub mod samples;

pub use accumulator::ChannelAccumulators;
pub use checksum::Checksum;
pub use codecs::{flac_hash, mp3_hash, vorbis_hash};
pub use engine::{hash_audio, hash_filetype};
pub use error::{CheckError, CodecCause};
pub use filetype::{classify_description, filetype_of_description, find_magic, get_filetype, Filetype};
