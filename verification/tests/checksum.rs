use spark::checksum::checksum;

/// The register is shifted bit by bit, highest bit first; the polynomial is
/// fed back where a set bit leaves at the top.
fn bitwise(bytes: &[u8]) -> u32 {
    let mut register: u32 = 0xffff_ffff;
    for byte in bytes {
        register ^= (*byte as u32) << 24;
        for _ in 0..8 {
            register = if register & 0x8000_0000 != 0 {
                (register << 1) ^ 0x04c1_1db7
            } else {
                register << 1
            };
        }
    }
    register ^ 0xffff_ffff
}

#[test]
fn checksum_of_the_check_string() {
    assert_eq!(checksum(b"123456789"), 0xfc89_1918);
}

#[test]
fn checksum_of_nothing_is_zero() {
    assert_eq!(checksum(&[]), 0);
}

#[test]
fn checksum_is_the_bitwise_one() {
    let mut bytes = Vec::new();
    let mut seed: u32 = 12345;
    for len in 0..200 {
        assert_eq!(checksum(&bytes), bitwise(&bytes), "length {}", len);
        seed = seed.wrapping_mul(1_103_515_245).wrapping_add(12345);
        bytes.push((seed >> 16) as u8);
    }
    assert_eq!(checksum(&[0]), bitwise(&[0]));
    assert_eq!(checksum(&[0xff; 32]), bitwise(&[0xff; 32]));
}

#[test]
fn checksum_is_the_one_of_the_crc_crate() {
    let crc = crc::Crc::<u32>::new(&crc::CRC_32_BZIP2);
    assert_eq!(checksum(b"handshake"), crc.checksum(b"handshake"));
    let mut digest = crc.digest();
    digest.update(b"hand");
    digest.update(b"shake");
    assert_eq!(checksum(b"handshake"), digest.finalize());
}

#[test]
fn checksum_changes_with_any_one_byte() {
    let body = [0u8, 0, 0xc8, 0xf0, 0x9e, 0x2c, 0x28, 0x8c];
    let sum = checksum(&body);
    for at in 0..body.len() {
        for byte in 0..=255u8 {
            if byte != body[at] {
                let mut changed = body;
                changed[at] = byte;
                assert_ne!(checksum(&changed), sum);
            }
        }
    }
}
