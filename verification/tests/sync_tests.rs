use vlcsync::messages::{Message, TimeDelta, TimeStamp, UserId};
use vlcsync::protocols::sync::{PlayerPosition, PlayerState, SyncMessage};
use vlcsync::utils::AbsSub;

#[test]
fn test_sync_message() {
    let mut msg = SyncMessage::zero();

    let rand_id_bytes: [u8; 16] = rand::random();
    let rand_id = UserId::from_bytes(&rand_id_bytes);
    msg.set_source_id(rand_id);

    let rand_created = TimeStamp::now();
    msg.set_created(rand_created);

    assert_eq!(msg.source_id(), rand_id);
    assert_eq!(msg.created(), rand_created);
}

#[test]
fn test_player_pos() {
    let pa = PlayerPosition::from_millis(200);
    let pb = PlayerPosition::from_millis(250);
    let diff_a = pa.abs_sub(pb);
    let diff_b = pb.abs_sub(pa);
    let diff_c = TimeDelta::from_millis(50);
    assert_eq!(diff_a, diff_b);
    assert_eq!(diff_a, diff_c);
}

#[test]
fn default_message_is_zero_frame() {
    let z = SyncMessage::zero();
    assert_eq!(z, SyncMessage::default());
    let raw = z.into_raw();
    for (i, b) in raw.iter().enumerate() {
        assert_eq!(*b, if i == 24 { 1 } else { 0 });
    }
    assert_eq!(z.state(), PlayerState::Paused);
    assert!(!z.jumped());
    assert!(!z.changed_state());
    assert_eq!(z.position().as_millis(), 0);
    assert_eq!(z.created().as_millis(), 0);
    assert_eq!(Message::parse_block(raw), Ok(Message::Sync(z)));
}
