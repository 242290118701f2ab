use crate::accumulator::{
    channel_checksum, joined, pcm16_streams, pcm32_streams, planar_run, ChannelAccumulators,
};
use crate::checksum::{Checksum, CHECKSUM_LEN};
use crate::error::{CheckError, CodecCause};
use crate::filetype::Filetype;
use crate::samples::{le_bytes_i32, lemma_le_bytes_i16_concat, lemma_le_bytes_i32_concat, strided};
use claxon::FlacReader;
use lewton::inside_ogg::OggStreamReader;
use lewton::VorbisError;
use simplemad::{Decoder, SimplemadError};
use simplemad_sys::MadMode;
use std::io::Cursor;
use vstd::prelude::*;

verus! {

/// A FLAC decoder reading from memory. Verus cannot declare claxon's reader
/// type (its bound `std::io::Read` is unknown to Verus), so it is held here.
#[verifier::external_body]
pub struct FlacStream {
    reader: FlacReader<Cursor<Vec<u8>>>,
}

/// An Ogg Vorbis decoder reading from memory, held for the same reason.
#[verifier::external_body]
pub struct VorbisStream {
    reader: OggStreamReader<Cursor<Vec<u8>>>,
}

/// An MP3 decoder reading from memory, held for the same reason.
#[verifier::external_body]
pub struct Mp3Stream {
    decoder: Decoder<Cursor<Vec<u8>>>,
}

/// The channel layout an MP3 frame header announces.
#[derive(PartialEq, Eq, Structural, Clone, Copy, Debug)]
pub enum ChannelMode {
    Single,
    Dual,
    Joint,
    Stereo,
}

/// Whether claxon accepts the stream header and metadata blocks of `data`.
pub uninterp spec fn flac_opens(data: Seq<u8>) -> bool;

/// The channel count that the STREAMINFO block of a FLAC stream states: the
/// block must come first, right after the four-byte stream marker and its own
/// four-byte header, and bits 1 to 3 of its thirteenth byte hold the count
/// less one.
pub open spec fn flac_header_channels(data: Seq<u8>) -> u32 {
    (((data[20] >> 1u8) & 7u8) + 1u8) as u32
}

/// A FLAC stream has one to eight channels.
pub proof fn lemma_flac_header_channels_range(data: Seq<u8>)
    requires
        data.len() > 20,
    ensures
        1 <= flac_header_channels(data) <= 8,
{
    let b = data[20];
    assert(1 <= (((b >> 1u8) & 7u8) + 1u8) as u32 <= 8) by (bit_vector);
}

/// The blocks claxon decodes from a FLAC stream, in order, until the stream
/// ends or a frame fails to decode: each is its buffer, with the channels one
/// after another, and its duration.
pub uninterp spec fn flac_blocks(data: Seq<u8>) -> Seq<(Seq<i32>, u32)>;

/// Whether decoding a FLAC stream stops at a frame that fails to decode,
/// rather than at the end of the stream.
pub uninterp spec fn flac_fails(data: Seq<u8>) -> bool;

/// The blocks a FLAC decoder has not handed out yet.
pub uninterp spec fn flac_pending(s: FlacStream) -> Seq<(Seq<i32>, u32)>;

/// Whether a FLAC decoder fails, rather than ends, once its pending blocks are
/// handed out.
pub uninterp spec fn flac_pending_fails(s: FlacStream) -> bool;

/// The channel count that the identification header of an Ogg Vorbis stream
/// states.
pub uninterp spec fn vorbis_header_channels(data: Seq<u8>) -> u8;

/// Whether lewton accepts the three Vorbis headers of `data`.
pub uninterp spec fn vorbis_opens(data: Seq<u8>) -> bool;

/// The audio packets lewton decodes from an Ogg Vorbis stream, in order, each
/// as interleaved 16-bit samples, until the stream ends or a packet fails.
pub uninterp spec fn vorbis_packets(data: Seq<u8>) -> Seq<Seq<i16>>;

/// Whether decoding an Ogg Vorbis stream stops at a packet that fails, rather
/// than at the end of the stream.
pub uninterp spec fn vorbis_fails(data: Seq<u8>) -> bool;

/// The packets a Vorbis decoder has not handed out yet.
pub uninterp spec fn vorbis_pending(s: VorbisStream) -> Seq<Seq<i16>>;

/// Whether a Vorbis decoder fails, rather than ends, once its pending packets
/// are handed out.
pub uninterp spec fn vorbis_pending_fails(s: VorbisStream) -> bool;

/// Whether simplemad sets up a decoder over `data`.
pub uninterp spec fn mp3_opens(data: Seq<u8>) -> bool;

/// The items simplemad's decoder yields over an MP3 stream, in order, until
/// the end of the input: a decoded frame (its mode and its samples, one
/// sequence per channel, in libmad's raw fixed-point form), or `None` for an
/// item that failed to decode.
pub uninterp spec fn mp3_items(data: Seq<u8>) -> Seq<Option<(ChannelMode, Seq<Seq<i32>>)>>;

/// The items an MP3 decoder has not handed out yet.
pub uninterp spec fn mp3_pending(s: Mp3Stream) -> Seq<Option<(ChannelMode, Seq<Seq<i32>>)>>;

/// The samples of each channel of a decoded frame, as sequences.
pub open spec fn channels_view(chans: Seq<Vec<i32>>) -> Seq<Seq<i32>> {
    chans.map_values(|v: Vec<i32>| v@)
}

/// Relies on `claxon::FlacReader::new` over an in-memory cursor, which reads
/// the stream header and the metadata blocks, and on `streaminfo`, whose
/// channel count claxon reads as a three-bit field plus one. Decoding is
/// integer arithmetic on the bytes alone, so the blocks still to come are
/// those of `flac_blocks`.
#[verifier::external_body]
fn flac_open(data: Vec<u8>) -> (r: Result<(FlacStream, u32), claxon::Error>)
    ensures
        r is Ok == flac_opens(data@),
        r matches Ok((s, n)) ==> data@.len() > 20 && n == flac_header_channels(data@),
        r matches Ok((s, n)) ==> flac_pending(s) == flac_blocks(data@) && flac_pending_fails(s)
            == flac_fails(data@),
{
    let reader = FlacReader::new(Cursor::new(data))?;
    let channels = reader.streaminfo().channels;
    Ok((FlacStream { reader }, channels))
}

/// Relies on `FlacReader::blocks` and `FrameReader::read_next_or_eof`: decodes
/// the next frame into `buffer`, which it resizes and overwrites, and hands
/// back the buffer, with the channels one after another, and the block's
/// duration; `None` at the end of the stream.
#[verifier::external_body]
fn flac_next_block(stream: &mut FlacStream, buffer: Vec<i32>) -> (r: Result<
    Option<(Vec<i32>, u32)>,
    claxon::Error,
>)
    ensures
        r matches Ok(Some((b, d))) ==> flac_pending(*old(stream)).len() > 0
            && flac_pending(*old(stream))[0] == (b@, d)
            && flac_pending(*final(stream)) == flac_pending(*old(stream)).drop_first()
            && flac_pending_fails(*final(stream)) == flac_pending_fails(*old(stream)),
        r matches Ok(None) ==> flac_pending(*old(stream)).len() == 0 && !flac_pending_fails(
            *old(stream),
        ),
        r is Err ==> flac_pending(*old(stream)).len() == 0 && flac_pending_fails(*old(stream)),
{
    match stream.reader.blocks().read_next_or_eof(buffer)? {
        Some(block) => {
            let duration = block.duration();
            Ok(Some((block.into_buffer(), duration)))
        },
        None => Ok(None),
    }
}

/// Relies on `lewton::inside_ogg::OggStreamReader::new` over an in-memory
/// cursor, which reads the three Vorbis headers; the identification header's
/// channel count, which lewton refuses when it is zero. The packets still to
/// come are those decoded from the bytes.
#[verifier::external_body]
fn vorbis_open(data: Vec<u8>) -> (r: Result<(VorbisStream, u8), VorbisError>)
    ensures
        r is Ok == vorbis_opens(data@),
        r matches Ok((_, n)) ==> n == vorbis_header_channels(data@) && n >= 1,
        r matches Ok((s, _)) ==> vorbis_pending(s) == vorbis_packets(data@) && vorbis_pending_fails(
            s,
        ) == vorbis_fails(data@),
{
    let reader = OggStreamReader::new(Cursor::new(data))?;
    let channels = reader.ident_hdr.audio_channels;
    Ok((VorbisStream { reader }, channels))
}

/// Relies on `OggStreamReader::read_dec_packet_itl`: the next audio packet as
/// interleaved 16-bit samples; `None` at the end of the stream.
#[verifier::external_body]
fn vorbis_next_packet(stream: &mut VorbisStream) -> (r: Result<Option<Vec<i16>>, VorbisError>)
    ensures
        r matches Ok(Some(p)) ==> vorbis_pending(*old(stream)).len() > 0
            && vorbis_pending(*old(stream))[0] == p@
            && vorbis_pending(*final(stream)) == vorbis_pending(*old(stream)).drop_first()
            && vorbis_pending_fails(*final(stream)) == vorbis_pending_fails(*old(stream)),
        r matches Ok(None) ==> vorbis_pending(*old(stream)).len() == 0 && !vorbis_pending_fails(
            *old(stream),
        ),
        r is Err ==> vorbis_pending(*old(stream)).len() == 0 && vorbis_pending_fails(*old(stream)),
{
    stream.reader.read_dec_packet_itl()
}

/// Relies on `simplemad::Decoder::decode` over an in-memory cursor, which
/// reads the first stretch of input. The items still to come are those
/// decoded from the bytes.
#[verifier::external_body]
fn mp3_open(data: Vec<u8>) -> (r: Result<Mp3Stream, SimplemadError>)
    ensures
        r is Ok == mp3_opens(data@),
        r matches Ok(s) ==> mp3_pending(s) == mp3_items(data@),
{
    Ok(Mp3Stream { decoder: Decoder::decode(Cursor::new(data))? })
}

/// Relies on `Iterator::next` of `simplemad::Decoder`: the next frame's
/// channel mode and its samples, one vector per channel, in libmad's raw
/// fixed-point form; an item that failed to decode; `None` at the end.
#[verifier::external_body]
fn mp3_next_frame(stream: &mut Mp3Stream) -> (r: Option<
    Result<(ChannelMode, Vec<Vec<i32>>), SimplemadError>,
>)
    ensures
        r is Some ==> mp3_pending(*old(stream)).len() > 0 && mp3_pending(*final(stream))
            == mp3_pending(*old(stream)).drop_first(),
        r matches Some(Ok((m, ch))) ==> mp3_pending(*old(stream))[0] == Some(
            (m, channels_view(ch@)),
        ),
        r matches Some(Err(_)) ==> mp3_pending(*old(stream))[0] is None,
        r is None ==> mp3_pending(*old(stream)).len() == 0,
{
    let frame = match stream.decoder.next()? {
        Ok(f) => f,
        Err(e) => return Some(Err(e)),
    };
    let mode = match frame.mode {
        MadMode::SingleChannel => ChannelMode::Single,
        MadMode::DualChannel => ChannelMode::Dual,
        MadMode::JointStereo => ChannelMode::Joint,
        MadMode::Stereo => ChannelMode::Stereo,
    };
    let samples = frame.samples.iter().map(|ch| ch.iter().map(|s| s.to_raw()).collect()).collect();
    Some(Ok((mode, samples)))
}

/// The number of channels an MP3 stream is taken to have, from the mode of its
/// first decoded frame: one for a single channel, two otherwise.
pub open spec fn mode_channel_count(mode: ChannelMode) -> nat {
    if mode == ChannelMode::Single {
        1
    } else {
        2
    }
}

/// Channel `c` of a decoded frame; nothing when the frame lacks it.
pub open spec fn frame_channel(chans: Seq<Seq<i32>>, c: nat) -> Seq<i32> {
    if c < chans.len() {
        chans[c as int]
    } else {
        Seq::empty()
    }
}

/// Channel `c` of every decoded frame, in order.
pub open spec fn mp3_parts(frames: Seq<(ChannelMode, Seq<Seq<i32>>)>, c: nat) -> Seq<Seq<i32>> {
    frames.map_values(|f: (ChannelMode, Seq<Seq<i32>>)| frame_channel(f.1, c))
}

/// The samples of each channel over a sequence of decoded MP3 frames: the
/// first frame's mode fixes the channel count, and channel `c` joins channel
/// `c` of every frame.
pub open spec fn mp3_channels(frames: Seq<(ChannelMode, Seq<Seq<i32>>)>) -> Seq<Seq<i32>> {
    let n = if frames.len() == 0 {
        0
    } else {
        mode_channel_count(frames[0].0)
    };
    Seq::new(n, |c: int| joined(mp3_parts(frames, c as nat)))
}

/// The channel count that a frame mode stands for.
pub fn mode_channels(mode: ChannelMode) -> (r: usize)
    ensures
        r == mode_channel_count(mode),
{
    match mode {
        ChannelMode::Single => 1,
        _ => 2,
    }
}

/// The checksum of 32-bit samples, given channel by channel.
pub open spec fn pcm32_checksum(fed: Seq<Seq<i32>>) -> Seq<u8> {
    channel_checksum(pcm32_streams(fed))
}

/// The checksum of 16-bit samples, given channel by channel.
pub open spec fn pcm16_checksum(fed: Seq<Seq<i16>>) -> Seq<u8> {
    channel_checksum(pcm16_streams(fed))
}

/// Run `c` of every block, in order.
pub open spec fn flac_runs(blocks: Seq<(Seq<i32>, u32)>, c: nat) -> Seq<Seq<i32>> {
    blocks.map_values(|b: (Seq<i32>, u32)| planar_run(b.0, b.1 as nat, c))
}

/// The samples of each of `n` channels over a sequence of planar blocks.
pub open spec fn flac_channels(blocks: Seq<(Seq<i32>, u32)>, n: nat) -> Seq<Seq<i32>> {
    Seq::new(n, |c: int| joined(flac_runs(blocks, c as nat)))
}

/// The checksum of the audio of a FLAC stream whose frames all decode.
pub open spec fn flac_checksum(data: Seq<u8>) -> Seq<u8> {
    pcm32_checksum(flac_channels(flac_blocks(data), flac_header_channels(data) as nat))
}

/// Checksum of a FLAC stream: the header gives the channel count; each decoded
/// block feeds run `c` of its buffer to channel `c`. The checksum comes out
/// exactly when the header is accepted and every frame decodes; any decoder
/// error ends the computation.
pub fn flac_hash(data: Vec<u8>) -> (r: Result<Checksum, CheckError>)
    ensures
        r is Ok == (flac_opens(data@) && !flac_fails(data@)),
        r matches Ok(c) ==> c@ == flac_checksum(data@),
        r matches Ok(c) ==> exists|fed: Seq<Seq<i32>>|
            fed.len() == flac_header_channels(data@) && 1 <= fed.len() <= 8 && c@
                == #[trigger] pcm32_checksum(fed),
        r is Err ==> r->Err_0 matches CheckError::CodecError(Filetype::FLAC, CodecCause::Flac(_)),
{
    let (mut stream, n) = match flac_open(data) {
        Ok(x) => x,
        Err(e) => return Err(CheckError::CodecError(Filetype::FLAC, CodecCause::Flac(e))),
    };
    proof {
        lemma_flac_header_channels_range(data@);
    }
    let ghost blocks = flac_blocks(data@);
    let mut bank = ChannelAccumulators::new(n as usize);
    let ghost mut k: int = 0;
    proof {
        assert forall|c: int| 0 <= c < n implies #[trigger] flac_runs(blocks.subrange(0, 0), c as nat)
            =~= Seq::<Seq<i32>>::empty() by {}
        assert(bank@ =~= pcm32_streams(flac_channels(blocks.subrange(0, 0), n as nat)));
    }
    let mut buffer: Vec<i32> = Vec::new();
    loop
        invariant
            1 <= n <= 8,
            n == flac_header_channels(data@),
            flac_opens(data@),
            blocks == flac_blocks(data@),
            0 <= k <= blocks.len(),
            flac_pending(stream) == blocks.subrange(k, blocks.len() as int),
            flac_pending_fails(stream) == flac_fails(data@),
            bank@ == pcm32_streams(flac_channels(blocks.subrange(0, k), n as nat)),
        decreases flac_pending(stream).len(),
    {
        match flac_next_block(&mut stream, buffer) {
            Ok(Some((b, d))) => {
                let ghost before = flac_channels(blocks.subrange(0, k), n as nat);
                bank.absorb_planar(b.as_slice(), d as usize);
                proof {
                    let prefix = blocks.subrange(0, k + 1);
                    assert(blocks[k] == (b@, d));
                    let after = flac_channels(prefix, n as nat);
                    assert forall|c: int| 0 <= c < n implies #[trigger] bank@[c] == pcm32_streams(after)[c] by {
                        let runs = flac_runs(prefix, c as nat);
                        assert(runs.drop_last() =~= flac_runs(blocks.subrange(0, k), c as nat));
                        assert(runs.last() == planar_run(b@, d as nat, c as nat));
                        lemma_le_bytes_i32_concat(before[c], planar_run(b@, d as nat, c as nat));
                    }
                    assert(bank@ =~= pcm32_streams(after));
                    assert(flac_pending(stream) =~= blocks.subrange(k + 1, blocks.len() as int));
                    k = k + 1;
                }
                buffer = b;
            },
            Ok(None) => {
                let c = bank.finish();
                proof {
                    assert(blocks.subrange(0, k) =~= blocks);
                    assert(c@ == flac_checksum(data@));
                }
                return Ok(c);
            },
            Err(e) => {
                return Err(CheckError::CodecError(Filetype::FLAC, CodecCause::Flac(e)));
            },
        }
    }
}

/// Channel `c` of every interleaved packet with `n` channels, in order.
pub open spec fn vorbis_parts(packets: Seq<Seq<i16>>, n: nat, c: nat) -> Seq<Seq<i16>> {
    packets.map_values(|p: Seq<i16>| strided(p, n, c))
}

/// The samples of each of `n` channels over a sequence of interleaved packets.
pub open spec fn vorbis_channels(packets: Seq<Seq<i16>>, n: nat) -> Seq<Seq<i16>> {
    Seq::new(n, |c: int| joined(vorbis_parts(packets, n, c as nat)))
}

/// The checksum of the audio of an Ogg Vorbis stream whose packets all decode.
pub open spec fn vorbis_checksum(data: Seq<u8>) -> Seq<u8> {
    pcm16_checksum(vorbis_channels(vorbis_packets(data), vorbis_header_channels(data) as nat))
}

/// Checksum of an Ogg Vorbis stream: the identification header gives the
/// channel count `n` (at least one); each decoded packet is interleaved, and
/// its samples at indices `c`, `c + n`, ... feed channel `c`. The checksum
/// comes out exactly when the headers are accepted and every packet decodes;
/// any decoder error ends the computation.
pub fn vorbis_hash(data: Vec<u8>) -> (r: Result<Checksum, CheckError>)
    ensures
        r is Ok == (vorbis_opens(data@) && !vorbis_fails(data@)),
        r is Ok ==> vorbis_header_channels(data@) >= 1,
        r matches Ok(c) ==> c@ == vorbis_checksum(data@),
        r is Err ==> r->Err_0 matches CheckError::CodecError(Filetype::Vorbis, CodecCause::Vorbis(_)),
{
    let (mut stream, n) = match vorbis_open(data) {
        Ok(x) => x,
        Err(e) => return Err(CheckError::CodecError(Filetype::Vorbis, CodecCause::Vorbis(e))),
    };
    let ghost all = vorbis_packets(data@);
    let mut bank = ChannelAccumulators::new(n as usize);
    let ghost mut k: int = 0;
    proof {
        assert forall|c: int| 0 <= c < n implies #[trigger] vorbis_parts(all.subrange(0, 0), n as nat, c as nat)
            =~= Seq::<Seq<i16>>::empty() by {}
        assert(bank@ =~= pcm16_streams(vorbis_channels(all.subrange(0, 0), n as nat)));
    }
    loop
        invariant
            1 <= n,
            n == vorbis_header_channels(data@),
            vorbis_opens(data@),
            all == vorbis_packets(data@),
            0 <= k <= all.len(),
            vorbis_pending(stream) == all.subrange(k, all.len() as int),
            vorbis_pending_fails(stream) == vorbis_fails(data@),
            bank@ == pcm16_streams(vorbis_channels(all.subrange(0, k), n as nat)),
        decreases vorbis_pending(stream).len(),
    {
        match vorbis_next_packet(&mut stream) {
            Ok(Some(p)) => {
                let ghost packets = all.subrange(0, k);
                let ghost before = vorbis_channels(packets, n as nat);
                bank.absorb_interleaved(p.as_slice());
                proof {
                    let next = all.subrange(0, k + 1);
                    assert(all[k] == p@);
                    assert(next =~= packets.push(p@));
                    let after = vorbis_channels(next, n as nat);
                    assert forall|c: int| 0 <= c < n implies #[trigger] bank@[c] == pcm16_streams(after)[c] by {
                        let parts = vorbis_parts(next, n as nat, c as nat);
                        assert(parts.drop_last() =~= vorbis_parts(packets, n as nat, c as nat));
                        lemma_le_bytes_i16_concat(before[c], strided(p@, n as nat, c as nat));
                    }
                    assert(bank@ =~= pcm16_streams(after));
                    assert(vorbis_pending(stream) =~= all.subrange(k + 1, all.len() as int));
                    k = k + 1;
                }
            },
            Ok(None) => {
                let c = bank.finish();
                proof {
                    assert(all.subrange(0, k) =~= all);
                    assert(c@ == vorbis_checksum(data@));
                }
                return Ok(c);
            },
            Err(e) => {
                return Err(CheckError::CodecError(Filetype::Vorbis, CodecCause::Vorbis(e)));
            },
        }
    }
}

/// The frames among a decoder's items that decoded, in order; failed items
/// are dropped.
pub open spec fn decoded_frames(items: Seq<Option<(ChannelMode, Seq<Seq<i32>>)>>) -> Seq<
    (ChannelMode, Seq<Seq<i32>>),
>
    decreases items.len(),
{
    if items.len() == 0 {
        Seq::empty()
    } else {
        match items.last() {
            Some(f) => decoded_frames(items.drop_last()).push(f),
            None => decoded_frames(items.drop_last()),
        }
    }
}

/// The checksum of the audio of an MP3 stream: that of its decoded frames.
pub open spec fn mp3_checksum(data: Seq<u8>) -> Seq<u8> {
    pcm32_checksum(mp3_channels(decoded_frames(mp3_items(data))))
}

/// An audio packet with no samples adds nothing to any channel.
pub proof fn lemma_empty_packet_adds_nothing(packets: Seq<Seq<i16>>, n: nat)
    requires
        n >= 1,
    ensures
        vorbis_channels(packets.push(Seq::empty()), n) == vorbis_channels(packets, n),
{
    let more = packets.push(Seq::<i16>::empty());
    assert forall|c: int| 0 <= c < n implies #[trigger] vorbis_channels(more, n)[c] == vorbis_channels(
        packets,
        n,
    )[c] by {
        let parts = vorbis_parts(more, n, c as nat);
        assert(parts.drop_last() =~= vorbis_parts(packets, n, c as nat));
        assert(strided(Seq::<i16>::empty(), n, c as nat) =~= Seq::<i16>::empty());
        assert(joined(parts) =~= joined(vorbis_parts(packets, n, c as nat)));
    }
    assert(vorbis_channels(more, n) =~= vorbis_channels(packets, n));
}

/// An item the MP3 decoder fails on, wherever it stands, leaves the decoded
/// frames, and so the checksum, as they are: such items are skipped, never
/// fatal.
pub proof fn lemma_failed_item_skipped(
    a: Seq<Option<(ChannelMode, Seq<Seq<i32>>)>>,
    b: Seq<Option<(ChannelMode, Seq<Seq<i32>>)>>,
)
    ensures
        decoded_frames(a.push(None) + b) == decoded_frames(a + b),
        pcm32_checksum(mp3_channels(decoded_frames(a.push(None) + b))) == pcm32_checksum(
            mp3_channels(decoded_frames(a + b)),
        ),
    decreases b.len(),
{
    if b.len() == 0 {
        assert(a.push(None) + b =~= a.push(None));
        assert(a + b =~= a);
        assert(a.push(None).drop_last() =~= a);
    } else {
        lemma_failed_item_skipped(a, b.drop_last());
        assert((a.push(None) + b).drop_last() =~= a.push(None) + b.drop_last());
        assert((a + b).drop_last() =~= a + b.drop_last());
        assert((a.push(None) + b).last() == b.last());
        assert((a + b).last() == b.last());
    }
}

/// Checksum of an MP3 stream. Items the decoder fails on are skipped, never
/// fatal: it takes trailing metadata for audio. The first frame that decodes
/// fixes the channel count by `mode_channels`; every decoded frame then feeds
/// its channel `c` to channel `c`. With no decodable frame the checksum is 64
/// zero bytes. The checksum comes out exactly when the decoder can be set up.
pub fn mp3_hash(data: Vec<u8>) -> (r: Result<Checksum, CheckError>)
    ensures
        r is Ok == mp3_opens(data@),
        r matches Ok(c) ==> c@ == mp3_checksum(data@),
        r matches Ok(c) ==> (decoded_frames(mp3_items(data@)).len() == 0 ==> c@ == Seq::new(
            CHECKSUM_LEN as nat,
            |i: int| 0u8,
        )),
        r is Err ==> r->Err_0 matches CheckError::CodecError(Filetype::MP3, CodecCause::Mp3(_)),
{
    let mut stream = match mp3_open(data) {
        Ok(d) => d,
        Err(e) => return Err(CheckError::CodecError(Filetype::MP3, CodecCause::Mp3(e))),
    };
    let ghost all = mp3_items(data@);
    let mut bank = ChannelAccumulators::new(0);
    let mut started = false;
    let ghost mut k: int = 0;
    proof {
        assert(all.subrange(0, 0) =~= Seq::<Option<(ChannelMode, Seq<Seq<i32>>)>>::empty());
        assert(bank@ =~= pcm32_streams(mp3_channels(decoded_frames(all.subrange(0, 0)))));
    }
    loop
        invariant
            mp3_opens(data@),
            all == mp3_items(data@),
            0 <= k <= all.len(),
            mp3_pending(stream) == all.subrange(k, all.len() as int),
            started == (decoded_frames(all.subrange(0, k)).len() > 0),
            bank@ == pcm32_streams(mp3_channels(decoded_frames(all.subrange(0, k)))),
        decreases mp3_pending(stream).len(),
    {
        let ghost frames = decoded_frames(all.subrange(0, k));
        let ghost prefix = all.subrange(0, k + 1);
        match mp3_next_frame(&mut stream) {
            Some(item) => {
                proof {
                    assert(prefix.drop_last() =~= all.subrange(0, k));
                    assert(mp3_pending(stream) =~= all.subrange(k + 1, all.len() as int));
                }
                match item {
                    Ok((mode, chans)) => {
                        let ghost chv = channels_view(chans@);
                        let ghost next = frames.push((mode, chv));
                        proof {
                            assert(prefix.last() == Some((mode, chv)));
                            assert(decoded_frames(prefix) == next);
                        }
                        if !started {
                            bank = ChannelAccumulators::new(mode_channels(mode));
                            started = true;
                        }
                        proof {
                            assert(next[0].0 == (if frames.len() == 0 { mode } else { frames[0].0 }));
                            assert forall|c: int| 0 <= c < bank@.len() implies #[trigger] bank@[c]
                                == le_bytes_i32(joined(mp3_parts(frames, c as nat))) by {
                                if frames.len() == 0 {
                                    assert(mp3_parts(frames, c as nat) =~= Seq::<Seq<i32>>::empty());
                                }
                            }
                        }
                        bank.absorb_channels(&chans);
                        proof {
                            let after = mp3_channels(next);
                            assert forall|c: int| 0 <= c < bank@.len() implies #[trigger] bank@[c]
                                == pcm32_streams(after)[c] by {
                                let prev = joined(mp3_parts(frames, c as nat));
                                let part = frame_channel(chv, c as nat);
                                assert(mp3_parts(next, c as nat).drop_last() =~= mp3_parts(frames, c as nat));
                                lemma_le_bytes_i32_concat(prev, part);
                                if c >= chv.len() {
                                    assert(prev + part =~= prev);
                                }
                            }
                            assert(bank@ =~= pcm32_streams(after));
                        }
                    },
                    Err(_) => {
                        proof {
                            assert(prefix.last() is None);
                            assert(decoded_frames(prefix) == frames);
                        }
                    },
                }
                proof {
                    k = k + 1;
                }
            },
            None => {
                let c = bank.finish();
                proof {
                    assert(all.subrange(0, k) =~= all);
                    assert(c@ == mp3_checksum(data@));
                    if frames.len() == 0 {
                        assert(c@ =~= Seq::new(CHECKSUM_LEN as nat, |i: int| 0u8));
                    }
                }
                return Ok(c);
            },
        }
    }
}

} // verus!
