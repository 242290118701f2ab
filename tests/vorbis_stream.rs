use blake2::{Blake2b, Digest};
use musync::{hash_audio, vorbis_hash, CheckError, CodecCause, Filetype};

fn blake(bytes: &[u8]) -> [u8; 64] {
    let mut h = Blake2b::new();
    h.input(bytes);
    let out = h.result();
    let mut r = [0u8; 64];
    r.copy_from_slice(&out);
    r
}

/// Writes values least significant bit first, as Vorbis packs them.
struct Bits {
    bytes: Vec<u8>,
    used: u32,
}

impl Bits {
    fn new() -> Bits {
        Bits { bytes: Vec::new(), used: 0 }
    }

    fn put(&mut self, value: u32, width: u32) {
        for i in 0..width {
            if self.used % 8 == 0 {
                self.bytes.push(0);
            }
            let bit = ((value >> i) & 1) as u8;
            let last = self.bytes.len() - 1;
            self.bytes[last] |= bit << (self.used % 8);
            self.used += 1;
        }
    }
}

fn ogg_crc(data: &[u8]) -> u32 {
    let mut crc = 0u32;
    for &b in data {
        crc ^= (b as u32) << 24;
        for _ in 0..8 {
            crc = if crc & 0x8000_0000 != 0 { (crc << 1) ^ 0x04c1_1db7 } else { crc << 1 };
        }
    }
    crc
}

fn page(flags: u8, granule: u64, seq: u32, packets: &[Vec<u8>]) -> Vec<u8> {
    let mut p = b"OggS".to_vec();
    p.push(0);
    p.push(flags);
    p.extend_from_slice(&granule.to_le_bytes());
    p.extend_from_slice(&7u32.to_le_bytes());
    p.extend_from_slice(&seq.to_le_bytes());
    p.extend_from_slice(&[0, 0, 0, 0]);
    let mut lacing = Vec::new();
    for pk in packets {
        let mut n = pk.len();
        while n >= 255 {
            lacing.push(255u8);
            n -= 255;
        }
        lacing.push(n as u8);
    }
    p.push(lacing.len() as u8);
    p.extend_from_slice(&lacing);
    for pk in packets {
        p.extend_from_slice(pk);
    }
    let crc = ogg_crc(&p);
    p[22..26].copy_from_slice(&crc.to_le_bytes());
    p
}

/// A Vorbis stream with `channels` channels of 256-sample short blocks whose
/// floors mark every channel unused, so each audio packet decodes to silence.
fn silent_vorbis(channels: u8, audio_packets: usize) -> Vec<u8> {
    let mut ident = b"\x01vorbis".to_vec();
    ident.extend_from_slice(&0u32.to_le_bytes());
    ident.push(channels);
    ident.extend_from_slice(&44100u32.to_le_bytes());
    ident.extend_from_slice(&[0u8; 12]);
    ident.push(0x88);
    ident.push(1);

    let mut comment = b"\x03vorbis".to_vec();
    comment.extend_from_slice(&0u32.to_le_bytes());
    comment.extend_from_slice(&0u32.to_le_bytes());
    comment.push(1);

    let mut b = Bits::new();
    for byte in b"\x05vorbis" {
        b.put(*byte as u32, 8);
    }
    b.put(0, 8); // one codebook
    b.put(0x564342, 24);
    b.put(1, 16); // dimensions
    b.put(2, 24); // entries
    b.put(0, 1); // not ordered
    b.put(0, 1); // not sparse
    b.put(0, 5); // length 1
    b.put(0, 5); // length 1
    b.put(0, 4); // no lookup
    b.put(0, 6); // one time-domain entry
    b.put(0, 16);
    b.put(0, 6); // one floor
    b.put(1, 16); // floor type 1
    b.put(0, 5); // no partitions
    b.put(0, 2); // multiplier 1
    b.put(8, 4); // range bits
    b.put(0, 6); // one residue
    b.put(0, 16); // residue type 0
    b.put(0, 24);
    b.put(0, 24);
    b.put(0, 24);
    b.put(0, 6); // one classification
    b.put(0, 8); // classbook
    b.put(0, 3);
    b.put(0, 1);
    b.put(0, 6); // one mapping
    b.put(0, 16);
    b.put(0, 1); // one submap
    b.put(0, 1); // no coupling
    b.put(0, 2);
    b.put(0, 8);
    b.put(0, 8); // floor 0
    b.put(0, 8); // residue 0
    b.put(0, 6); // one mode
    b.put(0, 1); // short blocks
    b.put(0, 16);
    b.put(0, 16);
    b.put(0, 8); // mapping 0
    b.put(1, 1); // framing
    let setup = b.bytes;

    let audio: Vec<Vec<u8>> = (0..audio_packets).map(|_| vec![0u8]).collect();
    let mut out = page(2, 0, 0, &[ident]);
    out.extend_from_slice(&page(0, 0, 1, &[comment, setup]));
    out.extend_from_slice(&page(4, 128 * audio_packets as u64, 2, &audio));
    out
}

#[test]
fn test_vorbis_hash() {
    let c = match vorbis_hash(silent_vorbis(1, 5)) {
        Ok(c) => c,
        Err(CheckError::CodecError(_, CodecCause::Vorbis(e))) => panic!("decode failed: {:?}", e),
        Err(_) => panic!("the Vorbis fixture must decode"),
    };
    let found = (0..=5 * 256).find(|n| c.bytes() == blake(&vec![0u8; 2 * n]));
    assert_eq!(found, Some(4 * 128));
}

#[test]
fn vorbis_stereo_silence_cancels() {
    match vorbis_hash(silent_vorbis(2, 5)) {
        Ok(c) => assert_eq!(c.bytes(), [0u8; 64]),
        Err(_) => panic!("the stereo fixture must decode"),
    }
}

#[test]
fn vorbis_decode_error_is_fatal() {
    let mut data = silent_vorbis(1, 5);
    let n = data.len();
    data.truncate(n - 2);
    match vorbis_hash(data) {
        Err(CheckError::CodecError(Filetype::Vorbis, CodecCause::Vorbis(_))) => {}
        _ => panic!("a damaged page must end the computation"),
    }
}

#[test]
fn vorbis_renamed_file_still_hashes() {
    let direct = match vorbis_hash(silent_vorbis(1, 5)) {
        Ok(c) => c,
        Err(_) => panic!("the Vorbis fixture must decode"),
    };
    match hash_audio(silent_vorbis(1, 5), "txt") {
        Ok(c) => assert!(c == direct),
        Err(_) => panic!("the content decides, not the extension"),
    }
}
