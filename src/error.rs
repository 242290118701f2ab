use crate::filetype::Filetype;
use vstd::prelude::*;

verus! {

/// The error type of the magic crate, carried through opaque.
#[verifier::external_type_specification]
#[verifier::external_body]
pub struct ExMagicError(magic::MagicError);

/// The error type of claxon, carried through opaque.
#[verifier::external_type_specification]
#[verifier::external_body]
pub struct ExFlacError(claxon::Error);

/// The error type of lewton, carried through opaque.
#[verifier::external_type_specification]
#[verifier::external_body]
pub struct ExVorbisError(lewton::VorbisError);

/// The error type of simplemad, carried through opaque.
#[verifier::external_type_specification]
#[verifier::external_body]
pub struct ExMp3Error(simplemad::SimplemadError);

/// What a decoder reported when it gave up on a stream.
pub enum CodecCause {
    /// The FLAC decoder's own error.
    Flac(claxon::Error),
    /// The Vorbis decoder's own error.
    Vorbis(lewton::VorbisError),
    /// The MP3 decoder's own error.
    Mp3(simplemad::SimplemadError),
}

/// Why no checksum could be computed for a file.
pub enum CheckError {
    /// The file does not exist or could not be opened.
    FileAccess(String),
    /// The content-sniffing backend could not be set up.
    ClassificationUnavailable(magic::MagicError),
    /// The content is not audio that can be decoded here; holds the file's
    /// extension.
    UnsupportedFiletype(String),
    /// The audio stream of the given kind is malformed or truncated.
    CodecError(Filetype, CodecCause),
    /// Reading the file failed after it was opened.
    IOError(String),
}

} // verus!
