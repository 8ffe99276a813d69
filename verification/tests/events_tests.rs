use std::time::{SystemTime, UNIX_EPOCH};
use vlcsync::events::{BlockParser, RawBlock, RemoteEvent, RemoteEventKind};
use vlcsync::players::events::TimePing;

#[test]
fn test_ping_parsing() {
    let mut parser = BlockParser::new();
    let ping_time = 1000 * 1000 * 60 * 132;
    let now_duration = SystemTime::now()
        .duration_since(UNIX_EPOCH)
        .unwrap()
        .as_micros();

    let ping = RemoteEvent::Ping {
        payload: TimePing::from_micros(ping_time),
        timestamp: now_duration as u64,
    };
    let mut ping_raw = ping.as_blocks();
    assert_eq!(1, ping_raw.len());
    assert_eq!(Some(RemoteEventKind::Ping), ping_raw[0].kind());
    assert_eq!(ping_time, ping_raw[0].count_u64());

    let parsed = parser.parse_next(ping_raw.pop().unwrap()).unwrap().unwrap();
    assert_eq!(ping, parsed);
}

#[test]
fn test_mediaopen_parsing() {
    let msg = "file:///home/test/some/long/path_to_a_file_to_play.mkv";
    let expected_bytes = msg.as_bytes().len();
    let expected_packets = 1 + expected_bytes / RawBlock::PAYLOAD_SIZE;

    let event = RemoteEvent::MediaOpen(msg.to_owned());
    let packets = event.as_blocks();
    assert_eq!(expected_packets, packets.len());

    let mut parser = BlockParser::new();
    let parsed = packets
        .into_iter()
        .filter_map(|block| parser.parse_next(block).unwrap())
        .next()
        .unwrap();
    assert_eq!(event, parsed);
}

#[test]
fn latin1_alphanumerics() {
    let listed: Vec<u32> = (0x80u32..0x100)
        .filter(|v| {
            [0xaa, 0xb2, 0xb3, 0xb5, 0xb9, 0xba].contains(v)
                || (0xbc..=0xbe).contains(v)
                || ((0xc0..=0xff).contains(v) && *v != 0xd7 && *v != 0xf7)
        })
        .collect();
    let std_set: Vec<u32> = (0x80u32..0x100).filter(|v| char::from_u32(*v).unwrap().is_alphanumeric()).collect();
    assert_eq!(listed, std_set);
}
