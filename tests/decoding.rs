use blake2::{Blake2b, Digest};
use musync::{flac_hash, mp3_hash, vorbis_hash, CheckError, CodecCause, Filetype};

fn blake(bytes: &[u8]) -> [u8; 64] {
    let mut h = Blake2b::new();
    h.input(bytes);
    let out = h.result();
    let mut r = [0u8; 64];
    r.copy_from_slice(&out);
    r
}

fn le32(samples: &[i32]) -> Vec<u8> {
    samples.iter().flat_map(|s| s.to_le_bytes()).collect()
}

fn crc8(data: &[u8]) -> u8 {
    let mut crc = 0u8;
    for &b in data {
        crc ^= b;
        for _ in 0..8 {
            crc = if crc & 0x80 != 0 { (crc << 1) ^ 0x07 } else { crc << 1 };
        }
    }
    crc
}

fn crc16(data: &[u8]) -> u16 {
    let mut crc = 0u16;
    for &b in data {
        crc ^= (b as u16) << 8;
        for _ in 0..8 {
            crc = if crc & 0x8000 != 0 { (crc << 1) ^ 0x8005 } else { crc << 1 };
        }
    }
    crc
}

/// A FLAC stream of 16-bit samples at 44.1 kHz, one verbatim frame per entry
/// of `frames`; each frame holds one vector of samples per channel.
fn flac_stream(channels: u8, frames: &[Vec<Vec<i16>>]) -> Vec<u8> {
    let total: u64 = frames.iter().map(|f| f[0].len() as u64).sum();
    let mut out = b"fLaC".to_vec();
    out.extend_from_slice(&[0x80, 0, 0, 34]);
    out.extend_from_slice(&16u16.to_be_bytes());
    out.extend_from_slice(&16u16.to_be_bytes());
    out.extend_from_slice(&[0, 0, 0, 0, 0, 0]);
    let rate: u32 = 44100;
    out.push((rate >> 12) as u8);
    out.push((rate >> 4) as u8);
    out.push((((rate & 0xf) as u8) << 4) | ((channels - 1) << 1));
    out.push((15u8 << 4) | ((total >> 32) as u8 & 0xf));
    out.extend_from_slice(&(total as u32).to_be_bytes());
    out.extend_from_slice(&[0u8; 16]);
    for (number, frame) in frames.iter().enumerate() {
        let len = frame[0].len();
        let mut f = vec![0xff, 0xf8, 0x60, ((channels - 1) << 4) | (0b100 << 1), number as u8];
        f.push((len - 1) as u8);
        f.push(crc8(&f));
        for ch in frame {
            f.push(0x02);
            for s in ch {
                f.extend_from_slice(&s.to_be_bytes());
            }
        }
        let crc = crc16(&f);
        f.extend_from_slice(&crc.to_be_bytes());
        out.extend_from_slice(&f);
    }
    out
}

fn mono_fixture() -> Vec<u8> {
    flac_stream(1, &[vec![vec![1, -2, 300, -4000]], vec![vec![5, 6]]])
}

#[test]
fn flac_mono_checksum_is_recomputable() {
    let c = match flac_hash(mono_fixture()) {
        Ok(c) => c,
        Err(_) => panic!("the mono fixture must decode"),
    };
    assert_eq!(c.bytes(), blake(&le32(&[1, -2, 300, -4000, 5, 6])));
    assert_eq!(c.to_hex().len(), 128);
    let again = match flac_hash(mono_fixture()) {
        Ok(c) => c,
        Err(_) => panic!("the mono fixture must decode"),
    };
    assert!(c == again);
    assert_eq!(c.to_hex(), again.to_hex());
}

#[test]
fn flac_stereo_differs_from_mono() {
    let stereo = flac_stream(2, &[vec![vec![1, -2, 300, -4000], vec![7, 7, 7, 7]], vec![vec![5, 6], vec![0, 1]]]);
    let s = match flac_hash(stereo) {
        Ok(c) => c,
        Err(_) => panic!("the stereo fixture must decode"),
    };
    let left = blake(&le32(&[1, -2, 300, -4000, 5, 6]));
    let right = blake(&le32(&[7, 7, 7, 7, 0, 1]));
    let mut expected = [0u8; 64];
    for i in 0..64 {
        expected[i] = left[i] ^ right[i];
    }
    assert_eq!(s.bytes(), expected);
    let m = match flac_hash(mono_fixture()) {
        Ok(c) => c,
        Err(_) => panic!("the mono fixture must decode"),
    };
    assert!(s != m);
}

#[test]
fn flac_reblocking_keeps_checksum() {
    let one = flac_stream(1, &[vec![vec![1, 2, 3, 4, 5, 6]]]);
    let two = flac_stream(1, &[vec![vec![1, 2, 3]], vec![vec![4, 5, 6]]]);
    match (flac_hash(one), flac_hash(two)) {
        (Ok(a), Ok(b)) => assert!(a == b),
        _ => panic!("both fixtures must decode"),
    }
}

#[test]
fn flac_corrupt_frame_is_a_codec_error() {
    let mut data = mono_fixture();
    let n = data.len();
    data[n - 3] ^= 0x40;
    match flac_hash(data) {
        Err(CheckError::CodecError(Filetype::FLAC, CodecCause::Flac(_))) => {}
        _ => panic!("a frame with a bad CRC must be refused"),
    }
}

#[test]
fn flac_refuses_non_flac_bytes() {
    match flac_hash(b"not a flac stream at all".to_vec()) {
        Err(CheckError::CodecError(Filetype::FLAC, _)) => {}
        _ => panic!("plain bytes are no FLAC stream"),
    }
}

#[test]
fn vorbis_refuses_non_ogg_bytes() {
    match vorbis_hash(b"plain text, no ogg pages".to_vec()) {
        Err(CheckError::CodecError(Filetype::Vorbis, CodecCause::Vorbis(_))) => {}
        _ => panic!("plain bytes are no Vorbis stream"),
    }
}

#[test]
fn mp3_without_frames_is_zero() {
    match mp3_hash(vec![0u8; 4096]) {
        Ok(c) => assert_eq!(c.bytes(), [0u8; 64]),
        Err(_) => panic!("undecodable frames are skipped"),
    }
}

/// `frames` MPEG-1 Layer III frames, 128 kbit/s, 44.1 kHz, mono, with all
/// side information and main data zero: each decodes to silence.
fn silent_mp3(frames: usize) -> Vec<u8> {
    let mut out = Vec::new();
    for _ in 0..frames {
        let mut f = vec![0xff, 0xfb, 0x90, 0xc0];
        f.resize(417, 0);
        out.extend_from_slice(&f);
    }
    out
}

#[test]
fn mp3_metadata_is_skipped() {
    let audio = silent_mp3(12);
    let mut tagged = b"ID3\x03\x00\x00\x00\x00\x00\x16TIT2\x00\x00\x00\x0c\x00\x00\x00silence!!!!".to_vec();
    tagged.extend_from_slice(&audio);
    let plain = match mp3_hash(audio) {
        Ok(c) => c,
        Err(_) => panic!("the plain stream must decode"),
    };
    let with_tag = match mp3_hash(tagged) {
        Ok(c) => c,
        Err(_) => panic!("the tagged stream must decode"),
    };
    assert!(plain.bytes() != [0u8; 64]);
    assert!(plain == with_tag);
}

#[test]
fn test_flac_hash() {
    let mono = match flac_hash(mono_fixture()) {
        Ok(c) => c,
        Err(_) => panic!("the mono fixture must decode"),
    };
    assert_eq!(
        mono.to_hex(),
        "1b3ecb15e7cd50c894b58b1d55b4c15d629aa0475c9e1babde9189f3c36a149e\
         4f466591521af19328ddd3e1cef874ab0b023784eb32922c55b9f8189f8b8e5b"
    );
    let stereo = flac_stream(2, &[vec![vec![1, -2, 300, -4000], vec![7, 7, 7, 7]], vec![vec![5, 6], vec![0, 1]]]);
    let stereo = match flac_hash(stereo) {
        Ok(c) => c,
        Err(_) => panic!("the stereo fixture must decode"),
    };
    assert_eq!(
        stereo.to_hex(),
        "aec72bfda8be93159e61d3de0d9b712d5a50f4ac1b895ccdb8aed5ab7c270d63\
         427932872da89cd54ca81bc281937c85f9281316a4bb00331a87bd2cc1d88044"
    );
}

#[test]
fn test_magic() {
    let cookie = match musync::filetype::open_classifier() {
        Ok(c) => c,
        Err(_) => panic!("libmagic must open"),
    };
    musync::find_magic(&cookie).ok().unwrap();
    match musync::get_filetype(&mono_fixture(), "flac", &cookie) {
        Ok(t) => assert_eq!(t, Filetype::FLAC),
        Err(_) => panic!("the FLAC fixture must be recognized"),
    }
    match musync::get_filetype(&silent_mp3(4), "mp3", &cookie) {
        Ok(t) => assert_eq!(t, Filetype::MP3),
        Err(_) => panic!("the MP3 fixture must be recognized"),
    }
}

#[test]
fn flac_through_hash_audio() {
    match musync::hash_audio(mono_fixture(), "bin") {
        Ok(c) => assert_eq!(c.to_hex().len(), 128),
        Err(_) => panic!("the FLAC fixture must hash whatever its extension"),
    }
}

#[test]
fn test_mp3_hash() {
    let c = match mp3_hash(silent_mp3(8)) {
        Ok(c) => c,
        Err(_) => panic!("the MP3 fixture must decode"),
    };
    // libmad holds a frame back until the next header confirms it, so the last
    // of the eight frames never comes out.
    assert_eq!(c.bytes(), blake(&vec![0u8; 4 * 1152 * 7]));
}

#[test]
fn flac_three_channels_fold_three_digests() {
    let data = flac_stream(3, &[vec![vec![1, 2], vec![3, 4], vec![5, 6]], vec![vec![7], vec![8], vec![9]]]);
    let c = match flac_hash(data) {
        Ok(c) => c,
        Err(_) => panic!("the three-channel fixture must decode"),
    };
    let a = blake(&le32(&[1, 2, 7]));
    let b = blake(&le32(&[3, 4, 8]));
    let d = blake(&le32(&[5, 6, 9]));
    let mut expected = [0u8; 64];
    for i in 0..64 {
        expected[i] = a[i] ^ b[i] ^ d[i];
    }
    assert_eq!(c.bytes(), expected);
}
