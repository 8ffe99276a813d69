//! Netflix played in a Chrome browser: the decisions about the browser's tabs, the
//! commands sent to the page, and what Chrome's log says of its debugging address.
use vstd::prelude::*;
use vstd::string::StringExecFns;
use crate::net::decimal;
use crate::protocols::sync::PlayerState;
use crate::strings::{find_str, occurs_at, occurs_in, push_digits};
use crate::traits::sync::PlayerError;

verus! {

/// The list that offers the Netflix player.
pub struct NetflixPlayerList {}

impl NetflixPlayerList {
    pub fn new() -> (r: Self) {
        NetflixPlayerList {  }
    }

    /// The name under which the Netflix player is offered.
    pub fn player_name(&self) -> (r: &'static str)
        ensures
            r@ == "Netflix (Chrome)"@,
    {
        "Netflix (Chrome)"
    }
}

/// How many of the results are answers.
pub open spec fn answer_count<T>(results: Seq<Result<T, PlayerError>>) -> nat
    decreases results.len(),
{
    if results.len() == 0 {
        0
    } else {
        answer_count(results.drop_last()) + if results.last() is Ok {
            1nat
        } else {
            0nat
        }
    }
}

/// The first answer among the results.
pub open spec fn first_answer<T>(results: Seq<Result<T, PlayerError>>) -> Option<T>
    decreases results.len(),
{
    if results.len() == 0 {
        None
    } else {
        match first_answer(results.drop_last()) {
            Some(v) => Some(v),
            None => match results.last() {
                Ok(v) => Some(v),
                Err(_) => None,
            },
        }
    }
}

/// What a query of every tab gives, from the tabs' results in the order they came: with
/// no tab, the error `No windows open?`; with exactly one answer, that answer; with none,
/// the first tab's error; with two or more, the error that too many tabs are open.
pub open spec fn tab_answer_says<T>(results: Seq<Result<T, PlayerError>>, r: Result<T, PlayerError>) -> bool {
    if results.len() == 0 {
        r is Err && r->Err_0.message@ == "No windows open?"@
    } else if answer_count(results) == 0 {
        r == results[0]
    } else if answer_count(results) == 1 {
        r == Ok::<T, PlayerError>(first_answer(results)->0)
    } else {
        r is Err && r->Err_0.message@ == "Have too many Netflix tabs open! Can't match them."@
    }
}

proof fn lemma_answers_step<T>(s: Seq<Result<T, PlayerError>>, i: int)
    requires
        0 <= i < s.len(),
    ensures
        answer_count(s.take(i + 1)) == answer_count(s.take(i)) + if s[i] is Ok {
            1nat
        } else {
            0nat
        },
        first_answer(s.take(i + 1)) == match first_answer(s.take(i)) {
            Some(v) => Some(v),
            None => match s[i] {
                Ok(v) => Some(v),
                Err(_) => None,
            },
        },
{
    assert(s.take(i + 1).drop_last() =~= s.take(i));
}

proof fn lemma_no_answer<T>(s: Seq<Result<T, PlayerError>>)
    ensures
        answer_count(s) == 0 <==> first_answer(s) is None,
    decreases s.len(),
{
    if s.len() > 0 {
        lemma_no_answer(s.drop_last());
    }
}

proof fn lemma_answers_grow<T>(s: Seq<Result<T, PlayerError>>, i: int, j: int)
    requires
        0 <= i <= j <= s.len(),
    ensures
        answer_count(s.take(i)) <= answer_count(s.take(j)),
    decreases j - i,
{
    if i < j {
        lemma_answers_grow(s, i, j - 1);
        lemma_answers_step(s, j - 1);
    }
}

/// Combines the results of asking each tab, in the order the tabs answered.
pub fn combine_tab_results<T: Copy>(results: Vec<Result<T, PlayerError>>) -> (r: Result<T, PlayerError>)
    ensures
        tab_answer_says(results@, r),
{
    let ghost all = results@;
    let n = results.len();
    if n == 0 {
        return Err(PlayerError { message: "No windows open?".to_owned() });
    }
    let mut rest = results;
    let mut current = rest.remove(0);
    let ghost first = current;
    proof {
        lemma_answers_step(all, 0);
        assert(all.take(0) =~= Seq::<Result<T, PlayerError>>::empty());
        lemma_no_answer(all.take(1));
    }
    let mut i: usize = 1;
    let mut too_many = false;
    while i < n && !too_many
        invariant
            1 <= i <= n,
            n == all.len(),
            rest@ == all.drop_first(),
            first == all[0],
            too_many ==> answer_count(all) >= 2,
            !too_many ==> answer_count(all.take(i as int)) <= 1,
            !too_many ==> (answer_count(all.take(i as int)) == 0 ==> current == first && first is Err),
            !too_many ==> (answer_count(all.take(i as int)) == 1 ==> current == Ok::<T, PlayerError>(
                first_answer(all.take(i as int))->0,
            )),
        decreases n - i,
    {
        proof {
            lemma_answers_step(all, i as int);
            lemma_no_answer(all.take(i as int));
        }
        assert(rest@[i - 1] == all[i as int]);
        match &rest[i - 1] {
            Ok(v) => {
                if current.is_err() {
                    current = Ok(*v);
                } else {
                    proof {
                        assert(answer_count(all.take(i + 1)) == 2);
                        lemma_answers_grow(all, (i + 1) as int, n as int);
                        assert(all.take(n as int) =~= all);
                    }
                    too_many = true;
                }
            },
            Err(_) => {},
        }
        i = i + 1;
    }
    if too_many {
        return Err(PlayerError { message: "Have too many Netflix tabs open! Can't match them.".to_owned() });
    }
    assert(all.take(n as int) =~= all);
    current
}

/// The state a page's `paused` flag stands for.
pub open spec fn state_of_paused(paused: bool) -> PlayerState {
    if paused {
        PlayerState::Paused
    } else {
        PlayerState::Playing
    }
}

/// The state a page reports, from its `paused` flag.
pub fn state_from_paused(paused: bool) -> (r: PlayerState)
    ensures
        r == state_of_paused(paused),
{
    if paused {
        PlayerState::Paused
    } else {
        PlayerState::Playing
    }
}

/// The indices of the addresses that are Netflix pages playing something, in order.
pub open spec fn watch_indices(urls: Seq<Seq<char>>) -> Seq<usize>
    decreases urls.len(),
{
    if urls.len() == 0 {
        Seq::empty()
    } else {
        watch_indices(urls.drop_last()) + if occurs_in(urls.last(), "netflix.com/watch"@) {
            seq![(urls.len() - 1) as usize]
        } else {
            Seq::empty()
        }
    }
}

/// The tabs, by their addresses, that show a Netflix video; commands go to the first of
/// them, and more than one is an error.
pub fn netflix_watch_tabs(urls: &Vec<String>) -> (r: Vec<usize>)
    ensures
        r@ == watch_indices(urls@.map_values(|u: String| u@)),
{
    let ghost all = urls@.map_values(|u: String| u@);
    let n = urls.len();
    let mut out: Vec<usize> = Vec::new();
    let mut i: usize = 0;
    assert(all.take(0) =~= Seq::<Seq<char>>::empty());
    while i < n
        invariant
            i <= n,
            n == urls@.len(),
            all == urls@.map_values(|u: String| u@),
            out@ == watch_indices(all.take(i as int)),
        decreases n - i,
    {
        assert(all.take(i + 1).drop_last() =~= all.take(i as int));
        let found = find_str(urls[i].as_str(), "netflix.com/watch");
        proof {
            match found {
                Some(k) => {
                    assert(occurs_at(all[i as int], "netflix.com/watch"@, k as int));
                },
                None => {},
            }
        }
        if found.is_some() {
            out.push(i);
        }
        i = i + 1;
    }
    assert(all.take(n as int) =~= all);
    out
}

/// The script that seeks the page's video to `millis` milliseconds.
pub open spec fn seek_script(millis: u64) -> Seq<char> {
    "mediasync.seek("@ + decimal(millis as nat) + ")"@
}

/// The script that seeks the page's video.
pub fn seek_command(millis: u64) -> (r: String)
    ensures
        r@ == seek_script(millis),
{
    let mut r = "mediasync.seek(".to_owned();
    push_digits(&mut r, millis, 10);
    r.append(")");
    r
}

/// The script that puts the page's video in a state.
pub open spec fn state_script(state: PlayerState) -> Seq<char> {
    match state {
        PlayerState::Playing => "mediasync.play()"@,
        PlayerState::Paused => "mediasync.pause()"@,
    }
}

/// The script that puts the page's video in a state.
pub fn state_command(state: PlayerState) -> (r: &'static str)
    ensures
        r@ == state_script(state),
{
    match state {
        PlayerState::Playing => "mediasync.play()",
        PlayerState::Paused => "mediasync.pause()",
    }
}

/// The script that reads the page's video position, in milliseconds.
pub fn position_query() -> (r: &'static str)
    ensures
        r@ == "mediasync.get_pos()"@,
{
    "mediasync.get_pos()"
}

/// The script that reads whether the page's video is paused.
pub fn state_query() -> (r: &'static str)
    ensures
        r@ == "mediasync.get_state()"@,
{
    "mediasync.get_state()"
}

/// What a line of Chrome's log says of its debugging address.
#[derive(Clone, Eq, PartialEq, Debug)]
pub enum ChromeLogLine {
    /// An error about binding: the debugging port is taken.
    PortInUse,
    /// The debugging address, which follows `listening on `.
    Listening(String),
    /// Nothing about it.
    Other,
}

/// A log line with its address as characters.
pub enum ChromeLogLineView {
    PortInUse,
    Listening(Seq<char>),
    Other,
}

impl View for ChromeLogLine {
    type V = ChromeLogLineView;

    open spec fn view(&self) -> ChromeLogLineView {
        match self {
            ChromeLogLine::PortInUse => ChromeLogLineView::PortInUse,
            ChromeLogLine::Listening(s) => ChromeLogLineView::Listening(s@),
            ChromeLogLine::Other => ChromeLogLineView::Other,
        }
    }
}

/// What a line of Chrome's log says: a line that starts with `ERROR` and mentions
/// `bind` reports the port taken; otherwise the text after the first `listening on ` is
/// the debugging address.
pub open spec fn chrome_line_says(line: Seq<char>) -> ChromeLogLineView {
    if line.len() >= 5 && line.take(5) == "ERROR"@ && occurs_in(line, "bind"@) {
        ChromeLogLineView::PortInUse
    } else if occurs_in(line, "listening on "@) {
        let i = choose|i: int| occurs_at(line, "listening on "@, i) && forall|j: int| 0 <= j < i ==> !#[trigger] occurs_at(line, "listening on "@, j);
        ChromeLogLineView::Listening(line.skip(i + 13))
    } else {
        ChromeLogLineView::Other
    }
}

/// Reads a line of Chrome's log for its debugging address.
pub fn read_chrome_line(line: &str) -> (r: ChromeLogLine)
    ensures
        r@ == chrome_line_says(line@),
{
    proof {
        reveal_strlit("ERROR");
        reveal_strlit("listening on ");
    }
    let starts_with_error = match find_str(line, "ERROR") {
        Some(k) => k == 0,
        None => false,
    };
    let mentions_bind = find_str(line, "bind").is_some();
    if starts_with_error && mentions_bind {
        assert(line@.take(5) =~= line@.subrange(0, 5));
        return ChromeLogLine::PortInUse;
    }
    proof {
        if line@.len() >= 5 && line@.take(5) == "ERROR"@ {
            assert(occurs_at(line@, "ERROR"@, 0));
        }
    }
    match find_str(line, "listening on ") {
        Some(k) => {
            let n = line.unicode_len();
            let rest = line.substring_char(k + 13, n);
            proof {
                let i = choose|i: int| occurs_at(line@, "listening on "@, i) && forall|j: int| 0 <= j < i ==> !#[trigger] occurs_at(line@, "listening on "@, j);
                if i < k {
                    assert(!occurs_at(line@, "listening on "@, i));
                } else if k < i {
                    assert(!occurs_at(line@, "listening on "@, k as int));
                }
                assert(rest@ =~= line@.skip(k + 13));
            }
            ChromeLogLine::Listening(rest.to_owned())
        },
        None => ChromeLogLine::Other,
    }
}

} // verus!
