//! Decisions of the command-line interface: where a log line goes, whether a friend
//! code typed on the command line has the right shape, and which player a typed line
//! chooses.
use vstd::prelude::*;
use vstd::string::{StrSliceExecFns, StringSliceAdditionalSpecFns};
use vstd::utf8::encode_utf8;
use crate::events::{char_is_alphanumeric, is_alphanumeric};
use crate::strings::{parse_decimal, parse_u64, trim, trimmed};

verus! {

/// The logger of the command-line interface.
pub struct CmdUi {}

/// The number of the `Warn` level, as the `log` crate numbers levels.
pub const WARN_LEVEL: usize = 2;

impl CmdUi {
    pub fn new() -> (r: Self) {
        CmdUi {  }
    }

    /// Whether a record of the given level goes to standard error (rather than standard
    /// output): those of level `Warn` and below in urgency, numbered 2 and up.
    pub fn writes_to_stderr(&self, level: usize) -> (r: bool)
        ensures
            r == (level >= WARN_LEVEL),
    {
        level >= WARN_LEVEL
    }
}

/// Why a friend code typed on the command line was refused.
#[derive(Copy, Clone, Eq, PartialEq, Structural, Debug)]
pub enum FriendCodeInputError {
    /// The code, white space trimmed, is not 9 bytes long; its length in bytes.
    WrongLength(usize),
    /// The code holds a character that is neither a letter nor a digit.
    InvalidChar(char),
}

/// The first character of `s` that is not alphanumeric, if any.
pub open spec fn first_not_alphanumeric(s: Seq<char>) -> Option<char>
    decreases s.len(),
{
    if s.len() == 0 {
        None
    } else if !is_alphanumeric(s[0]) {
        Some(s[0])
    } else {
        first_not_alphanumeric(s.drop_first())
    }
}

/// The verdict on a typed friend code: white space trimmed, it must be 9 bytes long and
/// hold only letters and digits.
pub open spec fn friend_code_input_verdict(code: Seq<char>) -> Result<(), FriendCodeInputError> {
    let t = trimmed(code);
    let len = encode_utf8(t).len();
    if len != 9 {
        Err(FriendCodeInputError::WrongLength(len as usize))
    } else {
        match first_not_alphanumeric(t) {
            Some(c) => Err(FriendCodeInputError::InvalidChar(c)),
            None => Ok(()),
        }
    }
}

/// Checks the shape of a friend code typed on the command line.
pub fn check_friend_code(code: &str) -> (r: Result<(), FriendCodeInputError>)
    ensures
        r == friend_code_input_verdict(code@),
{
    let t = trim(code);
    let len = t.as_bytes().len();
    if len != 9 {
        return Err(FriendCodeInputError::WrongLength(len));
    }
    let n = t.unicode_len();
    let mut i: usize = 0;
    assert(t@.subrange(0, n as int) =~= t@);
    while i < n
        invariant
            i <= n,
            n == t@.len(),
            t@ == trimmed(code@),
            encode_utf8(t@).len() == 9,
            first_not_alphanumeric(t@) == first_not_alphanumeric(t@.subrange(i as int, n as int)),
        decreases n - i,
    {
        let c = t.get_char(i);
        assert(t@.subrange(i as int, n as int)[0] == c);
        if !char_is_alphanumeric(c) {
            return Err(FriendCodeInputError::InvalidChar(c));
        }
        assert(t@.subrange(i as int, n as int).drop_first() =~= t@.subrange(i + 1, n as int));
        i = i + 1;
    }
    assert(t@.subrange(n as int, n as int) =~= Seq::<char>::empty());
    Ok(())
}

/// What a line typed to choose a player selects.
#[derive(Copy, Clone, Eq, PartialEq, Structural, Debug)]
pub enum PlayerChoice {
    /// The player at this index of the list.
    Chosen(usize),
    /// A number, but no index of the list.
    Missing,
    /// No number at all.
    Invalid,
}

/// The choice a typed line makes among `count` players: the line, white space trimmed,
/// read as a decimal number.
pub open spec fn player_choice(input: Seq<char>, count: usize) -> PlayerChoice {
    match parse_u64(trimmed(input)) {
        Some(i) => if i < count {
            PlayerChoice::Chosen(i as usize)
        } else {
            PlayerChoice::Missing
        },
        None => PlayerChoice::Invalid,
    }
}

/// Reads the choice of a player among `count` from a typed line.
pub fn choose_player(input: &str, count: usize) -> (r: PlayerChoice)
    ensures
        r == player_choice(input@, count),
{
    match parse_decimal(trim(input)) {
        Some(i) => if i < count as u64 {
            PlayerChoice::Chosen(i as usize)
        } else {
            PlayerChoice::Missing
        },
        None => PlayerChoice::Invalid,
    }
}

} // verus!
