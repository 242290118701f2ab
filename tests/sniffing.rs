use musync::filetype::open_classifier;
use musync::{find_magic, get_filetype, hash_audio, CheckError, Filetype};

/// The first Ogg page of a mono 44.1 kHz Vorbis stream: the identification
/// header alone.
fn vorbis_first_page() -> Vec<u8> {
    let mut packet = b"\x01vorbis".to_vec();
    packet.extend_from_slice(&0u32.to_le_bytes());
    packet.push(1);
    packet.extend_from_slice(&44100u32.to_le_bytes());
    packet.extend_from_slice(&[0u8; 12]);
    packet.push(0xb8);
    packet.push(1);
    let mut page = b"OggS".to_vec();
    page.push(0);
    page.push(2);
    page.extend_from_slice(&[0u8; 8]);
    page.extend_from_slice(&1u32.to_le_bytes());
    page.extend_from_slice(&0u32.to_le_bytes());
    page.extend_from_slice(&0u32.to_le_bytes());
    page.push(1);
    page.push(packet.len() as u8);
    page.extend_from_slice(&packet);
    page
}

#[test]
fn vorbis_content_is_sniffed_whatever_the_extension() {
    let cookie = match open_classifier() {
        Ok(c) => c,
        Err(_) => panic!("libmagic must open"),
    };
    assert!(find_magic(&cookie).is_ok());
    match get_filetype(&vorbis_first_page(), "txt", &cookie) {
        Ok(t) => assert_eq!(t, Filetype::Vorbis),
        Err(_) => panic!("the Ogg Vorbis page must be recognized"),
    }
}

#[test]
fn plain_text_file_is_unsupported() {
    match hash_audio(b"Just some words in a text file.\nAnd a second line.\n".to_vec(), "txt") {
        Err(CheckError::UnsupportedFiletype(e)) => assert_eq!(e, "txt"),
        _ => panic!("plain text must be refused"),
    }
}
