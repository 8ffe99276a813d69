use vlcsync::players::netflix_chrome::{
    combine_tab_results, netflix_watch_tabs, position_query, read_chrome_line, seek_command, state_command,
    state_from_paused, state_query, ChromeLogLine, NetflixPlayerList,
};
use vlcsync::protocols::sync::{PlayerPosition, PlayerState};
use vlcsync::traits::sync::PlayerError;

fn err(m: &str) -> PlayerError {
    PlayerError { message: m.to_string() }
}

#[test]
fn tab_results_combine() {
    let none: Vec<Result<PlayerPosition, PlayerError>> = vec![];
    assert_eq!(combine_tab_results(none), Err(err("No windows open?")));
    let one = PlayerPosition::from_millis(5);
    let two = PlayerPosition::from_millis(7);
    assert_eq!(combine_tab_results(vec![Ok(one)]), Ok(one));
    assert_eq!(combine_tab_results(vec![Err(err("a")), Ok(one), Err(err("b"))]), Ok(one));
    assert_eq!(combine_tab_results::<PlayerPosition>(vec![Err(err("a")), Err(err("b"))]), Err(err("a")));
    assert_eq!(
        combine_tab_results(vec![Ok(one), Err(err("b")), Ok(two)]),
        Err(err("Have too many Netflix tabs open! Can't match them."))
    );
    assert_eq!(
        combine_tab_results(vec![Err(err("a")), Ok(PlayerState::Playing), Ok(PlayerState::Paused)]),
        Err(err("Have too many Netflix tabs open! Can't match them."))
    );
}

#[test]
fn page_scripts() {
    assert_eq!(seek_command(0), "mediasync.seek(0)");
    assert_eq!(seek_command(123456), "mediasync.seek(123456)");
    assert_eq!(state_command(PlayerState::Playing), "mediasync.play()");
    assert_eq!(state_command(PlayerState::Paused), "mediasync.pause()");
    assert_eq!(position_query(), "mediasync.get_pos()");
    assert_eq!(state_query(), "mediasync.get_state()");
    assert_eq!(state_from_paused(true), PlayerState::Paused);
    assert_eq!(state_from_paused(false), PlayerState::Playing);
    assert_eq!(NetflixPlayerList::new().player_name(), "Netflix (Chrome)");
}

#[test]
fn watch_tabs() {
    let urls = vec![
        "https://www.netflix.com/browse".to_string(),
        "https://www.netflix.com/watch/80100172".to_string(),
        "about:blank".to_string(),
        "https://netflix.com/watch/1".to_string(),
    ];
    assert_eq!(netflix_watch_tabs(&urls), vec![1, 3]);
    assert_eq!(netflix_watch_tabs(&vec![]), Vec::<usize>::new());
}

#[test]
fn chrome_log_lines() {
    assert_eq!(
        read_chrome_line("DevTools listening on ws://127.0.0.1:9222/devtools/browser/abc"),
        ChromeLogLine::Listening("ws://127.0.0.1:9222/devtools/browser/abc".to_string())
    );
    assert_eq!(
        read_chrome_line("[0101/ERROR:socket.cc(1)] bind() failed: Address already in use"),
        ChromeLogLine::Other
    );
    assert_eq!(read_chrome_line("ERROR: could not bind to port"), ChromeLogLine::PortInUse);
    assert_eq!(read_chrome_line("ERROR listening on x but bind failed"), ChromeLogLine::PortInUse);
    assert_eq!(read_chrome_line("listening on listening on y"), ChromeLogLine::Listening("listening on y".to_string()));
    assert_eq!(read_chrome_line("listening on "), ChromeLogLine::Listening(String::new()));
    assert_eq!(read_chrome_line("nothing here"), ChromeLogLine::Other);
    assert_eq!(read_chrome_line(""), ChromeLogLine::Other);
}
