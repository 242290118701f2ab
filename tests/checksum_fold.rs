use musync::Checksum;

fn digest(fill: u8) -> [u8; 64] {
    let mut d = [0u8; 64];
    for (i, b) in d.iter_mut().enumerate() {
        *b = fill.wrapping_add(i as u8);
    }
    d
}

#[test]
fn xor_of_no_digest_is_zero() {
    let c = Checksum::new_xor(&Vec::new());
    assert_eq!(c.bytes(), [0u8; 64]);
    assert!(c == Checksum::default());
}

#[test]
fn xor_of_one_digest_is_that_digest() {
    let d = digest(7);
    let c = Checksum::new_xor(&vec![d]);
    assert_eq!(c.bytes(), d);
}

#[test]
fn xor_of_equal_digests_cancels() {
    let d = digest(200);
    let c = Checksum::new_xor(&vec![d, d]);
    assert_eq!(c.bytes(), [0u8; 64]);
}

#[test]
fn xor_fold_exact_bytes() {
    let mut a = [0u8; 64];
    let mut b = [0u8; 64];
    a[0] = 0b1100;
    b[0] = 0b1010;
    a[63] = 0xff;
    b[63] = 0x0f;
    let c = Checksum::new_xor(&vec![a, b]);
    let bytes = c.bytes();
    assert_eq!(bytes[0], 0b0110);
    assert_eq!(bytes[63], 0xf0);
    assert_eq!(bytes[1], 0);
}

#[test]
fn xor_fold_ignores_order() {
    let (a, b, c) = (digest(1), digest(90), digest(33));
    let x = Checksum::new_xor(&vec![a, b, c]);
    let y = Checksum::new_xor(&vec![c, a, b]);
    let z = Checksum::new_xor(&vec![b, c, a]);
    assert!(x == y);
    assert!(y == z);
}

#[test]
fn hex_rendering() {
    let mut a = [0u8; 64];
    a[0] = 0x0a;
    a[1] = 0xff;
    a[63] = 0x10;
    let h = Checksum::new(a).to_hex();
    assert_eq!(h.len(), 128);
    assert!(h.starts_with("0aff0000"));
    assert!(h.ends_with("0010"));
    assert!(h.chars().all(|ch| ch.is_ascii_hexdigit() && !ch.is_ascii_uppercase()));
}

#[test]
fn equality_is_bytewise() {
    let mut a = [3u8; 64];
    let b = a;
    assert!(Checksum::new(a) == Checksum::new(b));
    a[40] = 4;
    assert!(Checksum::new(a) != Checksum::new(b));
}
