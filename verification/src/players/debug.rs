//! Players that only report what they are told, for debugging, and the commands the
//! socket-based one reads from its connections.
use vstd::prelude::*;
use crate::strings::{push_char, trim, trimmed};

verus! {

/// The list of debugging players.
pub struct DebugPlayerList {}

/// The names of the debugging players, in the order they are offered.
pub open spec fn debug_player_names() -> Seq<Seq<char>> {
    seq!["Standard Output"@, "Log File"@, "Socket based"@]
}

/// The debugging players a name opens.
#[derive(Copy, Clone, Eq, PartialEq, Structural, Debug)]
pub enum DebugPlayerKind {
    /// Writes the events it is sent to standard output.
    StandardOutput,
    /// Appends the events it is sent to a log file.
    LogFile,
    /// Takes commands from, and reports events to, connections on a TCP port.
    Socket,
}

/// The player that a name opens, if it names one.
pub open spec fn debug_kind_named(name: Seq<char>) -> Option<DebugPlayerKind> {
    if name == "Standard Output"@ {
        Some(DebugPlayerKind::StandardOutput)
    } else if name == "Log File"@ {
        Some(DebugPlayerKind::LogFile)
    } else if name == "Socket based"@ {
        Some(DebugPlayerKind::Socket)
    } else {
        None
    }
}

impl DebugPlayerList {
    pub fn new() -> (r: Self) {
        DebugPlayerList {  }
    }

    /// The name under which the list is shown.
    pub fn list_name(&self) -> (r: &'static str)
        ensures
            r@ == "Debug"@,
    {
        "Debug"
    }

    /// The names of the players this list can open.
    pub fn available(&mut self) -> (r: Vec<String>)
        ensures
            r@.map_values(|s: String| s@) == debug_player_names(),
    {
        let mut names: Vec<String> = Vec::new();
        names.push("Standard Output".to_owned());
        names.push("Log File".to_owned());
        names.push("Socket based".to_owned());
        assert(names@.map_values(|s: String| s@) =~= debug_player_names());
        names
    }

    /// Which player `name` opens; a name that is none of them is an error that says so.
    pub fn open(&mut self, name: &str) -> (r: Result<DebugPlayerKind, String>)
        ensures
            match debug_kind_named(name@) {
                Some(k) => r == Ok::<DebugPlayerKind, String>(k),
                None => r is Err && r->Err_0@ == "Invalid debug player name : "@ + name@,
            },
    {
        let given = name.to_owned();
        if given == "Standard Output".to_owned() {
            Ok(DebugPlayerKind::StandardOutput)
        } else if given == "Log File".to_owned() {
            Ok(DebugPlayerKind::LogFile)
        } else if given == "Socket based".to_owned() {
            Ok(DebugPlayerKind::Socket)
        } else {
            let mut message = "Invalid debug player name : ".to_owned();
            message.append(name);
            Err(message)
        }
    }
}

/// A command read by the socket-based debugging player, one per line of text.
#[derive(Clone, Eq, PartialEq, Debug)]
pub enum DebugCommand {
    /// A line starting with `p`.
    Pause,
    /// A line starting with `P`.
    Play,
    /// A line starting with `j`: the text after its first space, a number of seconds.
    Jump(String),
    /// A line starting with `o`: the text after its first space, the media to open.
    MediaOpen(String),
    /// A line starting with `j` or `o` with no space, which is an error; the line.
    Malformed(String),
}

/// A debug command with its texts as character sequences.
pub enum DebugCommandView {
    Pause,
    Play,
    Jump(Seq<char>),
    MediaOpen(Seq<char>),
    Malformed(Seq<char>),
}

impl View for DebugCommand {
    type V = DebugCommandView;

    open spec fn view(&self) -> DebugCommandView {
        match self {
            DebugCommand::Pause => DebugCommandView::Pause,
            DebugCommand::Play => DebugCommandView::Play,
            DebugCommand::Jump(s) => DebugCommandView::Jump(s@),
            DebugCommand::MediaOpen(s) => DebugCommandView::MediaOpen(s@),
            DebugCommand::Malformed(s) => DebugCommandView::Malformed(s@),
        }
    }
}

/// The pieces of `s` between its `'\n'` characters; there is always at least one.
pub open spec fn newline_pieces(s: Seq<char>) -> Seq<Seq<char>>
    decreases s.len(),
{
    if s.len() == 0 {
        seq![Seq::empty()]
    } else {
        let p = newline_pieces(s.drop_last());
        if s.last() == '\n' {
            p.push(Seq::empty())
        } else {
            p.update(p.len() - 1, p.last().push(s.last()))
        }
    }
}

/// The index of the first space in `s`, or its length if there is none.
pub open spec fn first_space(s: Seq<char>) -> nat
    decreases s.len(),
{
    if s.len() == 0 {
        0
    } else if s[0] == ' ' {
        0
    } else {
        1 + first_space(s.drop_first())
    }
}

/// The text after the first space of `s`, if it has one.
pub open spec fn after_first_space(s: Seq<char>) -> Option<Seq<char>> {
    if first_space(s) < s.len() {
        Some(s.skip((first_space(s) + 1) as int))
    } else {
        None
    }
}

/// The command a line gives, once trimmed of white space, if any: by its first
/// character, `p`, `P`, `j` or `o`.
pub open spec fn line_command(line: Seq<char>) -> Option<DebugCommandView> {
    let t = trimmed(line);
    if t.len() == 0 {
        None
    } else if t[0] == 'p' {
        Some(DebugCommandView::Pause)
    } else if t[0] == 'P' {
        Some(DebugCommandView::Play)
    } else if t[0] == 'j' || t[0] == 'o' {
        Some(
            match after_first_space(t) {
                Some(rest) => if t[0] == 'j' {
                    DebugCommandView::Jump(rest)
                } else {
                    DebugCommandView::MediaOpen(rest)
                },
                None => DebugCommandView::Malformed(t),
            },
        )
    } else {
        None
    }
}

/// The commands of the given lines, in order.
pub open spec fn lines_commands(lines: Seq<Seq<char>>) -> Seq<DebugCommandView>
    decreases lines.len(),
{
    if lines.len() == 0 {
        Seq::empty()
    } else {
        lines_commands(lines.drop_last()) + match line_command(lines.last()) {
            Some(c) => seq![c],
            None => Seq::empty(),
        }
    }
}

/// The lines of a message: the pieces between its newlines, without the empty piece
/// after a final newline.
pub open spec fn message_lines(s: Seq<char>) -> Seq<Seq<char>> {
    let p = newline_pieces(s);
    if p.last().len() == 0 {
        p.drop_last()
    } else {
        p
    }
}

proof fn lemma_pieces_nonempty(s: Seq<char>)
    ensures
        newline_pieces(s).len() >= 1,
    decreases s.len(),
{
    if s.len() > 0 {
        lemma_pieces_nonempty(s.drop_last());
    }
}

/// The index of the first space, and the text after it, of a line.
fn split_first_space(t: &str) -> (r: Option<String>)
    ensures
        match after_first_space(t@) {
            Some(rest) => r is Some && r->0@ == rest,
            None => r is None,
        },
{
    let n = t.unicode_len();
    let mut k: usize = 0;
    assert(t@.skip(0) =~= t@);
    while k < n && t.get_char(k) != ' '
        invariant
            k <= n,
            n == t@.len(),
            first_space(t@) == k + first_space(t@.skip(k as int)),
        decreases n - k,
    {
        assert(t@.skip(k as int).drop_first() =~= t@.skip(k + 1));
        k = k + 1;
    }
    if k < n {
        assert(first_space(t@) == k);
        let rest = t.substring_char(k + 1, n);
        assert(rest@ =~= t@.skip(k + 1));
        Some(rest.to_owned())
    } else {
        assert(t@.skip(k as int) =~= Seq::<char>::empty());
        None
    }
}

/// The command one line gives.
fn command_of_line(line: &str) -> (r: Option<DebugCommand>)
    ensures
        match line_command(line@) {
            Some(c) => r is Some && r->0@ == c,
            None => r is None,
        },
{
    let t = trim(line);
    if t.unicode_len() == 0 {
        return None;
    }
    let first = t.get_char(0);
    if first == 'p' {
        Some(DebugCommand::Pause)
    } else if first == 'P' {
        Some(DebugCommand::Play)
    } else if first == 'j' || first == 'o' {
        match split_first_space(t) {
            Some(rest) => if first == 'j' {
                Some(DebugCommand::Jump(rest))
            } else {
                Some(DebugCommand::MediaOpen(rest))
            },
            None => Some(DebugCommand::Malformed(t.to_owned())),
        }
    } else {
        None
    }
}

/// The commands in a message read from a connection, one per line, in order: a line is
/// trimmed of white space and read by its first character; other lines are skipped.
pub fn parse_debug_commands(message: &str) -> (r: Vec<DebugCommand>)
    ensures
        r@.map_values(|c: DebugCommand| c@) == lines_commands(message_lines(message@)),
{
    let n = message.unicode_len();
    let mut out: Vec<DebugCommand> = Vec::new();
    let mut cur = String::new();
    let mut i: usize = 0;
    assert(message@.take(0) =~= Seq::<char>::empty());
    while i < n
        invariant
            i <= n,
            n == message@.len(),
            newline_pieces(message@.take(i as int)).len() >= 1,
            cur@ == newline_pieces(message@.take(i as int)).last(),
            out@.map_values(|c: DebugCommand| c@) == lines_commands(
                newline_pieces(message@.take(i as int)).drop_last(),
            ),
        decreases n - i,
    {
        let c = message.get_char(i);
        let ghost before = newline_pieces(message@.take(i as int));
        assert(message@.take(i + 1).drop_last() =~= message@.take(i as int));
        if c == '\n' {
            let ghost line = cur@;
            match command_of_line(cur.as_str()) {
                Some(cmd) => out.push(cmd),
                None => {},
            }
            cur = String::new();
            proof {
                let after = newline_pieces(message@.take(i + 1));
                assert(after == before.push(Seq::<char>::empty()));
                assert(after.drop_last() =~= before);
                assert(before.drop_last().push(line) =~= before);
                assert(lines_commands(before) == lines_commands(before.drop_last()) + match line_command(line) {
                    Some(x) => seq![x],
                    None => Seq::<DebugCommandView>::empty(),
                });
                assert(out@.map_values(|c: DebugCommand| c@) =~= lines_commands(after.drop_last()));
            }
        } else {
            push_char(&mut cur, c);
            proof {
                let after = newline_pieces(message@.take(i + 1));
                assert(after.drop_last() =~= before.drop_last());
            }
        }
        i = i + 1;
    }
    assert(message@.take(n as int) =~= message@);
    if cur.as_str().unicode_len() > 0 {
        let ghost line = cur@;
        match command_of_line(cur.as_str()) {
            Some(cmd) => out.push(cmd),
            None => {},
        }
        proof {
            let p = newline_pieces(message@);
            assert(p.drop_last().push(line) =~= p);
            assert(out@.map_values(|c: DebugCommand| c@) =~= lines_commands(p));
        }
    }
    out
}

} // verus!
