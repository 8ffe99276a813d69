use vlcsync::communication::messages::{MessageBlock, MessageBlockError, RawBlock, TimedCommandKind};

#[test]
fn timed_command_round_trip() {
    for kind in [TimedCommandKind::Ping, TimedCommandKind::Jump, TimedCommandKind::Pause, TimedCommandKind::Play] {
        let msg = MessageBlock::TimedCommand { kind, nanoseconds: 0x0102_0304_0506_0708 };
        let raw = msg.into_raw();
        assert_eq!(raw.data[0], 0);
        assert_eq!(raw.data[1], kind.to_kind_byte());
        assert_eq!(&raw.data[2..10], &[8, 7, 6, 5, 4, 3, 2, 1]);
        assert!(raw.data[10..].iter().all(|b| *b == 0));
        assert_eq!(raw.parse(), Ok(msg));
    }
}

#[test]
fn kind_bytes() {
    assert_eq!(TimedCommandKind::from_kind_byte(2), Some(TimedCommandKind::Pause));
    assert_eq!(TimedCommandKind::from_kind_byte(4), None);
    assert_eq!(TimedCommandKind::Play.to_kind_byte(), 3);
}

#[test]
fn track_change_blocks_parse() {
    let mut data = [0u8; 32];
    data[0] = 1;
    data[1..5].copy_from_slice(&300u32.to_le_bytes());
    for i in 0..13 {
        let unit = 0x41u16 + i as u16 + 0x100;
        data[6 + 2 * i..8 + 2 * i].copy_from_slice(&unit.to_le_bytes());
    }
    let mut expected = [0u16; 13];
    for i in 0..13 {
        expected[i] = 0x141 + i as u16;
    }
    assert_eq!(
        RawBlock::from_data(data).parse(),
        Ok(MessageBlock::TrackChangeHeader { path_length: 300, payload: expected })
    );
    data[0] = 2;
    data[1..5].copy_from_slice(&7u32.to_le_bytes());
    assert_eq!(
        RawBlock::from_data(data).parse(),
        Ok(MessageBlock::TrackChangePacket { packet_idx: 7, payload: expected })
    );
    // Track change blocks have no encoding yet and are sent as zeros.
    let zero = MessageBlock::TrackChangePacket { packet_idx: 7, payload: expected }.into_raw();
    assert_eq!(zero.data, [0u8; 32]);
}

#[test]
fn invalid_blocks() {
    let mut data = [0u8; 32];
    data[1] = 9;
    assert_eq!(
        RawBlock::from_data(data).parse(),
        Err(MessageBlockError::InvalidTimedCommandKind(9))
    );
    data[0] = 3;
    assert_eq!(RawBlock::from_data(data).parse(), Err(MessageBlockError::InvalidMessageKind(3)));
}
