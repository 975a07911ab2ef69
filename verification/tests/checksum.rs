use domo::crc::checksum;

/// The checksum computed bit by bit, as its definition reads.
fn bitwise(bytes: &[u8]) -> u8 {
    let mut register = 0u8;
    for byte in bytes {
        register ^= byte;
        for _ in 0..8 {
            register = if register & 0x80 != 0 { (register << 1) ^ 0x07 } else { register << 1 };
        }
    }
    register
}

#[test]
fn checksum_of_the_standard_check_string() {
    assert_eq!(checksum(b"123456789"), 0xf4);
}

#[test]
fn checksum_of_nothing_is_zero() {
    assert_eq!(checksum(&[]), 0);
}

#[test]
fn checksum_of_every_single_byte_is_the_bitwise_one() {
    for byte in 0..=255u8 {
        assert_eq!(checksum(&[byte]), bitwise(&[byte]));
    }
    assert_eq!(checksum(&[0x01]), 0x07);
    assert_eq!(checksum(&[0x02]), 0x0e);
    assert_eq!(checksum(&[0x03]), 0x09);
}

#[test]
fn checksum_of_frames_is_the_bitwise_one() {
    let frames: [&[u8]; 4] =
        [&[0x12, 0x70, 0x17], &[0xc5, 0xff, 0xff, 0x48, 0x41], &[0x85, 0x34, 0x12], &[0x20]];
    for frame in frames {
        assert_eq!(checksum(frame), bitwise(frame));
    }
    assert_eq!(checksum(&[0x12, 0x70, 0x17]), 0xb3);
}

#[test]
fn checksum_is_the_same_on_every_call() {
    let bytes = [0x45, 0xff, 0xff, 0x48, 0x41];
    assert_eq!(checksum(&bytes), checksum(&bytes));
    assert_eq!(checksum(&bytes), 0xec);
}

#[test]
fn checksum_changes_with_every_single_bit() {
    let bytes = [0x12u8, 0x70, 0x17, 0x00, 0xff];
    let sum = checksum(&bytes);
    for position in 0..bytes.len() {
        for bit in 0..8 {
            let mut flipped = bytes;
            flipped[position] ^= 1 << bit;
            assert_ne!(checksum(&flipped), sum);
        }
    }
}
