use vlcsync::cmdui::{check_friend_code, choose_player, CmdUi, FriendCodeInputError, PlayerChoice};
use vlcsync::messages::TimeStamp;
use vlcsync::net::{NetAddr, NetAddrV4, NetAddrV6};
use vlcsync::players::debug::{parse_debug_commands, DebugCommand, DebugPlayerKind, DebugPlayerList};
use vlcsync::players::vlchttp::{parse_json_state, HttpConfig, LengthEstimator, VlcHttpList};
use vlcsync::players::vlcrc::{extrapolate_position, needs_seek, parse_status, parse_time, seek_seconds};
use vlcsync::protocols::sync::{PlayerPosition, PlayerState};
use vlcsync::strings::{parse_decimal, trim};
use vlcsync::traits::sync::{broadcast_delay_millis, PUSH_FREQUENCY_MILLIS};

#[test]
fn trimming_and_numbers() {
    assert_eq!(trim("  12 \n"), "12");
    assert_eq!(trim("\u{2003}x\t"), "x");
    assert_eq!(trim("   "), "");
    assert_eq!(parse_decimal("42"), Some(42));
    assert_eq!(parse_decimal("+7"), Some(7));
    assert_eq!(parse_decimal("+"), None);
    assert_eq!(parse_decimal(""), None);
    assert_eq!(parse_decimal("-1"), None);
    assert_eq!(parse_decimal("1a"), None);
    assert_eq!(parse_decimal("18446744073709551615"), Some(u64::MAX));
    assert_eq!(parse_decimal("18446744073709551616"), None);
    for s in ["0", "+19", "0007", "x", "99999999999999999999", " 1"] {
        assert_eq!(parse_decimal(s), s.parse::<u64>().ok());
    }
}

#[test]
fn rc_answers() {
    assert_eq!(parse_status("( state playing )"), Some(PlayerState::Playing));
    assert_eq!(parse_status("( state paused )"), Some(PlayerState::Paused));
    assert_eq!(parse_status("( state stopped )"), Some(PlayerState::Paused));
    assert_eq!(parse_status("nothing"), None);
    assert_eq!(parse_time(" 12\r\n"), Some(PlayerPosition::from_millis(12_000)));
    assert_eq!(parse_time("  "), Some(PlayerPosition::from_millis(0)));
    assert_eq!(parse_time("abc"), None);
    assert_eq!(parse_time("18446744073709551615"), None);
    assert_eq!(seek_seconds(PlayerPosition::from_millis(12_500)), 12);
    assert_eq!(seek_seconds(PlayerPosition::from_millis(12_501)), 13);
    assert!(!needs_seek(10, 11));
    assert!(needs_seek(10, 12));
    assert!(needs_seek(12, 10));
    let p = PlayerPosition::from_millis(5_000);
    assert_eq!(extrapolate_position(p, p, true, 1_300, 1_000), (PlayerPosition::from_millis(5_300), false));
    assert_eq!(extrapolate_position(p, p, false, 1_300, 1_000), (p, true));
    assert_eq!(
        extrapolate_position(p, PlayerPosition::from_millis(4_000), true, 1_300, 1_000),
        (p, true)
    );
}

#[test]
fn http_config() {
    let c = HttpConfig::default();
    assert_eq!(c.bind_addr, NetAddr::V4(NetAddrV4 { ip: u32::from_be_bytes([127, 0, 0, 1]), port: 9090 }));
    assert_eq!(c.password, "vlcsynchttppass");
    assert_eq!(c.authorization_header(), "Basic OnZsY3N5bmNodHRwcGFzcw==");
    let other = HttpConfig { bind_addr: c.bind_addr, password: "é".to_string() };
    assert_eq!(other.authorization_header(), "Basic OsOp");
    assert_eq!(c.status_url(), "http://localhost:9090/requests/status.json");
    let remote = HttpConfig {
        bind_addr: NetAddr::V4(NetAddrV4 { ip: u32::from_be_bytes([192, 168, 1, 5]), port: 8080 }),
        password: String::new(),
    };
    assert_eq!(remote.status_url(), "http://192.168.1.5:8080/requests/status.json");
    let v6_loop = HttpConfig {
        bind_addr: NetAddr::V6(NetAddrV6 { ip: 1, port: 9091, flowinfo: 0, scope_id: 0 }),
        password: String::new(),
    };
    assert_eq!(v6_loop.status_url(), "http://localhost:9091/requests/status.json");
    let v6_remote = HttpConfig {
        bind_addr: NetAddr::V6(NetAddrV6 { ip: 0x2001_0db8_0000_0000_0000_0000_0000_0001, port: 80, flowinfo: 0, scope_id: 0 }),
        password: String::new(),
    };
    assert_eq!(v6_remote.status_url(), "http://[2001:db8::1]:80/requests/status.json");
    let mut list = VlcHttpList::new();
    assert!(list.should_offer_subprocess());
    assert!(list.existing_configs().is_empty());
}

#[test]
fn length_estimator() {
    let mut e = LengthEstimator::new();
    assert_eq!(e.min_length_millis(), 0);
    assert_eq!(e.max_length_millis(), 1000);
    e.push_bounds(120, 200, 900);
    assert_eq!(e, LengthEstimator { reported_length: 120, min_error: 200, max_error: 900 });
    assert_eq!(e.min_length_millis(), 120_200);
    assert_eq!(e.max_length_millis(), 120_900);
    e.push_bounds(120, 100, 950);
    assert_eq!(e, LengthEstimator { reported_length: 120, min_error: 200, max_error: 900 });
    e.push_bounds(121, 10, 2000);
    assert_eq!(e, LengthEstimator { reported_length: 121, min_error: 10, max_error: 1000 });
    e.reset();
    assert_eq!(e, LengthEstimator { reported_length: 121, min_error: 0, max_error: 1000 });
    assert_eq!(LengthEstimator::default(), LengthEstimator::new());
}

#[test]
fn debug_list_and_cmdui() {
    let mut list = DebugPlayerList::new();
    assert_eq!(list.available(), vec!["Standard Output", "Log File", "Socket based"]);
    let ui = CmdUi::new();
    assert!(!ui.writes_to_stderr(1));
    assert!(ui.writes_to_stderr(2));
    assert!(ui.writes_to_stderr(5));
    assert_eq!(check_friend_code(" abcDEF123 "), Ok(()));
    assert_eq!(check_friend_code("abc"), Err(FriendCodeInputError::WrongLength(3)));
    assert_eq!(check_friend_code("abcd-f123"), Err(FriendCodeInputError::InvalidChar('-')));
    // Nine bytes of letters, two of them two bytes long.
    assert_eq!(check_friend_code("ééééa"), Ok(()));
    assert_eq!(check_friend_code("ééééab"), Err(FriendCodeInputError::WrongLength(10)));
}

#[test]
fn broadcast_delay() {
    assert_eq!(broadcast_delay_millis(TimeStamp::from_millis(1_000)), 2 * PUSH_FREQUENCY_MILLIS);
    assert_eq!(broadcast_delay_millis(TimeStamp::from_millis(1_030)), 170);
    assert_eq!(broadcast_delay_millis(TimeStamp::from_millis(1_099)), 101);
    let now = TimeStamp::now();
    assert!(now.as_millis() > 1_500_000_000_000);
    assert_eq!(TimeStamp::from_clock_millis((1u128 << 64) + 5), TimeStamp::from_millis(5));
}

#[test]
fn http_json_states() {
    assert_eq!(parse_json_state("playing"), Some(PlayerState::Playing));
    assert_eq!(parse_json_state("paused"), Some(PlayerState::Paused));
    assert_eq!(parse_json_state("stopped"), Some(PlayerState::Paused));
    assert_eq!(parse_json_state("Playing"), None);
    assert_eq!(parse_json_state(""), None);
}

#[test]
fn debug_list_opens_by_name() {
    let mut list = DebugPlayerList::new();
    assert_eq!(list.list_name(), "Debug");
    assert_eq!(list.open("Standard Output"), Ok(DebugPlayerKind::StandardOutput));
    assert_eq!(list.open("Log File"), Ok(DebugPlayerKind::LogFile));
    assert_eq!(list.open("Socket based"), Ok(DebugPlayerKind::Socket));
    assert_eq!(list.open("socket based"), Err("Invalid debug player name : socket based".to_string()));
}

#[test]
fn debug_commands() {
    assert_eq!(
        parse_debug_commands("p\nP\r\n  j 1.5 \nj\no file:///a b\nx\n\n"),
        vec![
            DebugCommand::Pause,
            DebugCommand::Play,
            DebugCommand::Jump("1.5".to_string()),
            DebugCommand::Malformed("j".to_string()),
            DebugCommand::MediaOpen("file:///a b".to_string()),
        ]
    );
    assert_eq!(parse_debug_commands(""), vec![]);
    assert_eq!(parse_debug_commands("\n\n"), vec![]);
    assert_eq!(parse_debug_commands("pause"), vec![DebugCommand::Pause]);
    assert_eq!(parse_debug_commands("Play\r"), vec![DebugCommand::Play]);
    assert_eq!(parse_debug_commands("o"), vec![DebugCommand::Malformed("o".to_string())]);
    assert_eq!(parse_debug_commands("j  2"), vec![DebugCommand::Jump(" 2".to_string())]);
}

#[test]
fn player_choices() {
    assert_eq!(choose_player(" 1\n", 3), PlayerChoice::Chosen(1));
    assert_eq!(choose_player("0", 1), PlayerChoice::Chosen(0));
    assert_eq!(choose_player("+2", 3), PlayerChoice::Chosen(2));
    assert_eq!(choose_player("3", 3), PlayerChoice::Missing);
    assert_eq!(choose_player("0", 0), PlayerChoice::Missing);
    assert_eq!(choose_player("one", 3), PlayerChoice::Invalid);
    assert_eq!(choose_player("", 3), PlayerChoice::Invalid);
    assert_eq!(choose_player("-1", 3), PlayerChoice::Invalid);
    assert_eq!(choose_player("99999999999999999999", 3), PlayerChoice::Invalid);
}

#[test]
fn trim_agrees_on_every_char() {
    for v in 0u32..=0x10ffff {
        if let Some(c) = char::from_u32(v) {
            let s = format!("{}x{}", c, c);
            assert_eq!(trim(&s), s.trim());
        }
    }
}
