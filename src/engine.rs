use crate::checksum::Checksum;
use crate::codecs::{
    decoded_frames, flac_blocks, flac_channels, flac_checksum, flac_fails, flac_hash,
    flac_header_channels, flac_opens, mp3_channels, mp3_checksum, mp3_hash, mp3_items, mp3_opens,
    vorbis_channels, vorbis_checksum, vorbis_fails, vorbis_hash, vorbis_header_channels,
    vorbis_opens, vorbis_packets,
};
use crate::error::CodecCause;
use crate::error::CheckError;
use crate::filetype::{find_magic, get_filetype, open_classifier, Filetype};
use vstd::prelude::*;

verus! {

/// Whether decoding `data` as `t` gives a checksum: the decoder accepts the
/// stream and, for FLAC and Vorbis, every frame or packet decodes. WAV and
/// Opus never do.
pub open spec fn decodes(t: Filetype, data: Seq<u8>) -> bool {
    match t {
        Filetype::FLAC => flac_opens(data) && !flac_fails(data),
        Filetype::Vorbis => vorbis_opens(data) && !vorbis_fails(data),
        Filetype::MP3 => mp3_opens(data),
        _ => false,
    }
}

/// The checksum computed from `data` decoded as `t`, when it decodes.
pub open spec fn decoded_checksum(t: Filetype, data: Seq<u8>) -> Seq<u8> {
    match t {
        Filetype::FLAC => flac_checksum(data),
        Filetype::Vorbis => vorbis_checksum(data),
        _ => mp3_checksum(data),
    }
}

/// The decoder error that decoding as `t` carries.
pub open spec fn cause_fits(t: Filetype, cause: CodecCause) -> bool {
    match t {
        Filetype::FLAC => cause is Flac,
        Filetype::Vorbis => cause is Vorbis,
        Filetype::MP3 => cause is Mp3,
        _ => false,
    }
}

/// Decoding the same bytes twice as the same filetype gives the same outcome:
/// whether a checksum comes out, and which, depends on the bytes alone.
pub proof fn lemma_decoding_deterministic(t: Filetype, a: Seq<u8>, b: Seq<u8>)
    requires
        a == b,
    ensures
        decodes(t, a) == decodes(t, b),
        decoded_checksum(t, a) == decoded_checksum(t, b),
{
}

/// Two streams of one filetype whose decoders give the same samples on every
/// channel get the same checksum, whatever their container, tags, encoder
/// settings or block and frame layout.
pub proof fn lemma_same_samples_same_checksum(t: Filetype, a: Seq<u8>, b: Seq<u8>)
    requires
        t == Filetype::FLAC ==> flac_channels(flac_blocks(a), flac_header_channels(a) as nat)
            == flac_channels(flac_blocks(b), flac_header_channels(b) as nat),
        t == Filetype::Vorbis ==> vorbis_channels(vorbis_packets(a), vorbis_header_channels(a) as nat)
            == vorbis_channels(vorbis_packets(b), vorbis_header_channels(b) as nat),
        t == Filetype::MP3 ==> mp3_channels(decoded_frames(mp3_items(a))) == mp3_channels(
            decoded_frames(mp3_items(b)),
        ),
    ensures
        (t == Filetype::FLAC || t == Filetype::Vorbis || t == Filetype::MP3) ==> decoded_checksum(
            t,
            a,
        ) == decoded_checksum(t, b),
{
}

/// Decodes `data` as the given filetype and computes its checksum. WAV and
/// Opus are recognized but not decoded: they are refused with the extension.
pub fn hash_filetype(t: Filetype, data: Vec<u8>, extension: &str) -> (r: Result<Checksum, CheckError>)
    ensures
        (t == Filetype::WAV || t == Filetype::Opus) ==> (r matches Err(
            CheckError::UnsupportedFiletype(e),
        ) && e@ == extension@),
        r is Ok == decodes(t, data@),
        r matches Ok(c) ==> c@ == decoded_checksum(t, data@),
        (t == Filetype::FLAC || t == Filetype::Vorbis || t == Filetype::MP3) ==> (r is Err ==> (
        r->Err_0 matches CheckError::CodecError(u, cause) && u == t && cause_fits(t, cause))),
{
    match t {
        Filetype::FLAC => flac_hash(data),
        Filetype::MP3 => mp3_hash(data),
        Filetype::Vorbis => vorbis_hash(data),
        _ => Err(CheckError::UnsupportedFiletype(extension.to_owned())),
    }
}

/// The checksum of a file's decoded audio, from its content: the file is
/// classified by content sniffing, decoded by the matching decoder, and its
/// channels hashed and folded. `extension` is only reported back when the
/// content is refused. A failure at any step ends the computation; the
/// content-sniffing backend failing is `ClassificationUnavailable`.
pub fn hash_audio(data: Vec<u8>, extension: &str) -> (r: Result<Checksum, CheckError>)
    ensures
        r matches Ok(c) ==> exists|t: Filetype| #[trigger] decodes(t, data@) && c@ == decoded_checksum(
            t,
            data@,
        ),
        r is Err ==> (r->Err_0 is ClassificationUnavailable || r->Err_0 is CodecError || (
        r->Err_0 matches CheckError::UnsupportedFiletype(e) && e@ == extension@)),
        r matches Err(CheckError::CodecError(u, cause)) ==> cause_fits(u, cause) && !decodes(
            u,
            data@,
        ),
{
    let cookie = match open_classifier() {
        Ok(c) => c,
        Err(e) => return Err(e),
    };
    match find_magic(&cookie) {
        Ok(()) => {},
        Err(e) => return Err(e),
    }
    let t = match get_filetype(data.as_slice(), extension, &cookie) {
        Ok(t) => t,
        Err(e) => return Err(e),
    };
    hash_filetype(t, data, extension)
}

} // verus!
