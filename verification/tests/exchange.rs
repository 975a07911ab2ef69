use domo::frame::{decode_frame, TransportError, CMD_COLOR, CMD_TEMP_AVG, CMD_TEMP_RAW};
use domo::peripheral::{BusAction, BusReply, Peripheral, PROBE, START_MARKER};

/// Feeds the bytes as replies to reads and returns the last action.
fn feed_bytes(peripheral: &mut Peripheral, bytes: &[u8]) -> BusAction {
    let mut action = BusAction::Done;
    for (index, byte) in bytes.iter().enumerate() {
        action = peripheral.advance(BusReply::Byte(*byte));
        if index + 1 < bytes.len() {
            assert_eq!(action, BusAction::Read);
        }
    }
    action
}

#[test]
fn read_asks_for_command_marker_data_and_checksum() {
    let mut peripheral = Peripheral::new();
    assert!(peripheral.is_idle());
    assert_eq!(peripheral.read_number(CMD_TEMP_AVG, 2), BusAction::Write(0x12));
    assert!(!peripheral.is_idle());
    assert_eq!(peripheral.advance(BusReply::Written), BusAction::Read);
    assert_eq!(peripheral.advance(BusReply::Byte(0x70)), BusAction::Read);
    assert_eq!(peripheral.advance(BusReply::Byte(0x17)), BusAction::Read);
    assert_eq!(peripheral.advance(BusReply::Byte(0xb3)), BusAction::Value(6000));
    assert!(peripheral.is_idle());
}

#[test]
fn read_of_four_bytes_takes_five_after_the_command() {
    let mut peripheral = Peripheral::new();
    assert_eq!(peripheral.read_number(CMD_TEMP_RAW, 4), BusAction::Write(0x53));
    assert_eq!(peripheral.advance(BusReply::Written), BusAction::Read);
    assert_eq!(
        feed_bytes(&mut peripheral, &[0x01, 0x02, 0x03, 0x04, 0xbf]),
        BusAction::Value(0x04030201)
    );
    assert!(peripheral.is_idle());
}

#[test]
fn read_of_the_color_word_takes_its_first_byte_as_data() {
    let mut peripheral = Peripheral::new();
    assert_eq!(peripheral.read_number(CMD_COLOR, 4), BusAction::Write(0x45));
    assert_eq!(peripheral.advance(BusReply::Written), BusAction::Read);
    assert_eq!(
        feed_bytes(&mut peripheral, &[0xff, 0xff, 0x48, 0x41, 0xec]),
        BusAction::Value(0x4148ffff)
    );
    assert!(peripheral.is_idle());
}

#[test]
fn read_number_rejects_every_flipped_bit() {
    let answer = [0x70u8, 0x17, 0xb3];
    for position in 0..answer.len() {
        for bit in 0..8 {
            let mut flipped = answer;
            flipped[position] ^= 1 << bit;
            let mut peripheral = Peripheral::new();
            peripheral.read_number(CMD_TEMP_AVG, 2);
            peripheral.advance(BusReply::Written);
            match feed_bytes(&mut peripheral, &flipped) {
                BusAction::Failed(TransportError::Checksum { received, data, .. }) => {
                    assert_eq!(received, flipped[2]);
                    assert_eq!(data, vec![flipped[0], flipped[1]]);
                }
                other => panic!("unexpected {:?}", other),
            }
        }
    }
}

#[test]
fn read_number_rejects_a_corrupt_checksum() {
    for received in 0..=255u8 {
        let mut peripheral = Peripheral::new();
        peripheral.read_number(CMD_TEMP_AVG, 2);
        peripheral.advance(BusReply::Written);
        let action = feed_bytes(&mut peripheral, &[0x70, 0x17, received]);
        if received == 0xb3 {
            assert_eq!(action, BusAction::Value(6000));
        } else {
            assert_eq!(
                action,
                BusAction::Failed(TransportError::Checksum {
                    received,
                    computed: 0xb3,
                    data: vec![0x70, 0x17],
                })
            );
        }
        assert!(peripheral.is_idle());
    }
}

#[test]
fn bus_failure_ends_the_exchange() {
    let mut peripheral = Peripheral::new();
    peripheral.read_number(CMD_TEMP_AVG, 2);
    assert_eq!(peripheral.advance(BusReply::Failed), BusAction::Failed(TransportError::Bus));
    assert!(peripheral.is_idle());
    peripheral.write_number(CMD_COLOR, 2, 1);
    peripheral.advance(BusReply::Written);
    assert_eq!(peripheral.advance(BusReply::Failed), BusAction::Failed(TransportError::Bus));
    peripheral.resync();
    peripheral.advance(BusReply::Written);
    assert_eq!(peripheral.advance(BusReply::Failed), BusAction::Failed(TransportError::Bus));
    assert!(peripheral.is_idle());
}

#[test]
fn reply_of_the_wrong_kind_ends_the_exchange() {
    let mut peripheral = Peripheral::new();
    peripheral.read_number(CMD_TEMP_AVG, 2);
    assert_eq!(peripheral.advance(BusReply::Byte(0xff)), BusAction::Failed(TransportError::Bus));
    assert!(peripheral.is_idle());
    assert_eq!(peripheral.advance(BusReply::Written), BusAction::Failed(TransportError::Bus));
    peripheral.write_number(CMD_COLOR, 2, 1);
    assert_eq!(peripheral.advance(BusReply::Byte(0x00)), BusAction::Failed(TransportError::Bus));
}

#[test]
fn write_sends_the_frame_byte_by_byte_and_reads_nothing() {
    let mut peripheral = Peripheral::new();
    assert_eq!(peripheral.write_number(CMD_COLOR, 4, 0x4148ffff), BusAction::Write(0xc5));
    for byte in [0xff, 0xff, 0x48, 0x41, 0x7b] {
        assert_eq!(peripheral.advance(BusReply::Written), BusAction::Write(byte));
    }
    assert_eq!(peripheral.advance(BusReply::Written), BusAction::Done);
    assert!(peripheral.is_idle());
}

#[test]
fn write_of_two_bytes_sends_four() {
    let mut peripheral = Peripheral::new();
    assert_eq!(peripheral.write_number(CMD_COLOR, 2, 0x1234), BusAction::Write(0x85));
    for byte in [0x34, 0x12, 0x18] {
        assert_eq!(peripheral.advance(BusReply::Written), BusAction::Write(byte));
    }
    assert_eq!(peripheral.advance(BusReply::Written), BusAction::Done);
}

#[test]
fn resync_accepts_the_signature() {
    let mut peripheral = Peripheral::new();
    assert_eq!(PROBE, 0x20);
    assert_eq!(START_MARKER, 0xff);
    assert_eq!(peripheral.resync(), BusAction::Write(0x20));
    assert_eq!(peripheral.advance(BusReply::Written), BusAction::Transfer(0x20));
    assert_eq!(peripheral.advance(BusReply::Byte(0xff)), BusAction::Read);
    assert_eq!(peripheral.advance(BusReply::Byte(0xcd)), BusAction::Read);
    assert_eq!(peripheral.advance(BusReply::Byte(0xab)), BusAction::Read);
    assert_eq!(peripheral.advance(BusReply::Byte(0x1f)), BusAction::Done);
    assert!(peripheral.is_idle());
}

#[test]
fn resync_rejects_a_wrong_signature() {
    let mut peripheral = Peripheral::new();
    peripheral.resync();
    peripheral.advance(BusReply::Written);
    assert_eq!(
        feed_bytes(&mut peripheral, &[0xff, 0xcd, 0xab, 0x20]),
        BusAction::Failed(TransportError::Resync { signature: vec![0xcd, 0xab, 0x20] })
    );
    assert!(peripheral.is_idle());
}

#[test]
fn resync_probes_until_the_start_marker() {
    let mut peripheral = Peripheral::new();
    peripheral.resync();
    assert_eq!(peripheral.advance(BusReply::Written), BusAction::Transfer(0x20));
    for noise in [0x00, 0xcd, 0x1f, 0xfe, 0x70] {
        assert_eq!(peripheral.advance(BusReply::Byte(noise)), BusAction::Transfer(0x20));
    }
    assert_eq!(feed_bytes(&mut peripheral, &[0xff, 0xcd, 0xab, 0x1f]), BusAction::Done);
}

#[test]
fn starting_an_exchange_drops_the_one_under_way() {
    let mut peripheral = Peripheral::new();
    peripheral.write_number(CMD_COLOR, 4, 7);
    peripheral.advance(BusReply::Written);
    assert_eq!(peripheral.read_number(CMD_TEMP_AVG, 2), BusAction::Write(0x12));
    assert_eq!(peripheral.advance(BusReply::Written), BusAction::Read);
    assert_eq!(feed_bytes(&mut peripheral, &[0x70, 0x17, 0xb3]), BusAction::Value(6000));
}

#[test]
fn signature_is_the_answer_to_the_probe() {
    assert_eq!(decode_frame(PROBE, &[0xcd, 0xab, 0x1f]), Ok(0xabcd));
}
