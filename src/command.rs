//! The command interpreter: one line of operator input to one command.
use vstd::prelude::*;
use vstd::string::*;
use crate::error::ConsoleError;
use crate::room::{RoomReference, parse_room_reference, reference_text, sigil_matches, lacks_sigil};

verus! {

/// Characters that separate tokens.
pub open spec fn is_blank(c: char) -> bool {
    c == ' ' || c == '\t' || c == '\n' || c == '\r' || c == '\x0C'
}

/// Reading the first `n` characters of `s`: the tokens that ended, and the
/// token under way.
pub open spec fn scan(s: Seq<char>, n: nat) -> (Seq<Seq<char>>, Seq<char>)
    decreases n,
{
    if n == 0 || n > s.len() {
        (Seq::empty(), Seq::empty())
    } else {
        let (done, cur) = scan(s, (n - 1) as nat);
        if is_blank(s[n - 1]) {
            if cur.len() > 0 { (done.push(cur), Seq::empty()) } else { (done, Seq::empty()) }
        } else {
            (done, cur.push(s[n - 1]))
        }
    }
}

/// The maximal runs of non-blank characters of `s`, in order.
pub open spec fn tokens(s: Seq<char>) -> Seq<Seq<char>> {
    let (done, cur) = scan(s, s.len());
    if cur.len() > 0 { done.push(cur) } else { done }
}

/// Splits a line into its whitespace-separated tokens.
pub fn split_tokens(line: &str) -> (r: Vec<String>)
    ensures
        r@.map_values(|t: String| t@) == tokens(line@),
{
    let n = line.unicode_len();
    let mut toks: Vec<String> = Vec::new();
    let mut start: usize = 0;
    let mut i: usize = 0;
    while i < n
        invariant
            n == line@.len(),
            start <= i <= n,
            toks@.map_values(|t: String| t@) == scan(line@, i as nat).0,
            scan(line@, i as nat).1 == line@.subrange(start as int, i as int),
        decreases n - i,
    {
        let c = line.get_char(i);
        if c == ' ' || c == '\t' || c == '\n' || c == '\r' || c == '\x0C' {
            if start < i {
                let t = String::from_str(line.substring_char(start, i));
                let ghost before = toks@;
                toks.push(t);
                assert(toks@.map_values(|t: String| t@) =~= before.map_values(|t: String| t@).push(t@));
            }
            start = i + 1;
        }
        assert(line@.subrange(start as int, i + 1) =~= if start == i + 1 {
            Seq::<char>::empty()
        } else {
            line@.subrange(start as int, i as int).push(c)
        });
        i += 1;
    }
    if start < n {
        let t = String::from_str(line.substring_char(start, n));
        let ghost before = toks@;
        toks.push(t);
        assert(toks@.map_values(|t: String| t@) =~= before.map_values(|t: String| t@).push(t@));
    }
    toks
}

/// Which sequence of events a dump shows.
#[derive(Debug, Clone, Copy, PartialEq, Eq, Structural)]
pub enum EventMode {
    /// The room's current state, one event per (type, state key).
    State,
    /// The room's whole timeline.
    Timeline,
}

/// A command as typed, before its room reference is read.
#[derive(Debug)]
pub enum Command {
    Rooms,
    Events { mode: EventMode, room: String, filter: Option<String> },
    Size,
    Help,
    Exit,
}

pub open spec fn verb_rooms() -> Seq<char> { seq!['r', 'o', 'o', 'm', 's'] }
pub open spec fn verb_pdus() -> Seq<char> { seq!['p', 'd', 'u', 's'] }
pub open spec fn verb_all() -> Seq<char> { seq!['a', 'l', 'l'] }
pub open spec fn verb_size() -> Seq<char> { seq!['s', 'i', 'z', 'e'] }
pub open spec fn verb_help() -> Seq<char> { seq!['h', 'e', 'l', 'p'] }
pub open spec fn verb_exit() -> Seq<char> { seq!['e', 'x', 'i', 't'] }
pub open spec fn verb_e() -> Seq<char> { seq!['e'] }

/// The verb that selects each event mode.
pub open spec fn mode_verb(m: EventMode) -> Seq<char> {
    match m {
        EventMode::State => verb_pdus(),
        EventMode::Timeline => verb_all(),
    }
}

/// The optional filter argument, as the tokens carry it.
pub open spec fn filter_matches(toks: Seq<Seq<char>>, filter: Option<String>) -> bool {
    match filter {
        None => toks.len() == 2,
        Some(f) => toks.len() == 3 && f@ == toks[2],
    }
}

/// `c` is the command that the tokens `toks` spell.
pub open spec fn spells(toks: Seq<Seq<char>>, c: Command) -> bool {
    match c {
        Command::Rooms => toks == seq![verb_rooms()],
        Command::Events { mode, room, filter } =>
            toks.len() >= 2 && toks[0] == mode_verb(mode) && room@ == toks[1] && filter_matches(toks, filter),
        Command::Size => toks == seq![verb_size()],
        Command::Help => toks.len() == 0 || toks == seq![verb_help()],
        Command::Exit => toks == seq![verb_exit()] || toks == seq![verb_e()],
    }
}

/// The verb and arity table: the token sequences that form a command.
pub open spec fn recognized(toks: Seq<Seq<char>>) -> bool {
    ||| toks.len() == 0
    ||| (toks.len() == 1 && (toks[0] == verb_rooms() || toks[0] == verb_size() || toks[0] == verb_help()
        || toks[0] == verb_exit() || toks[0] == verb_e()))
    ||| ((toks.len() == 2 || toks.len() == 3) && (toks[0] == verb_pdus() || toks[0] == verb_all()))
}

fn is_word(t: &String, w: &str) -> (r: bool)
    ensures
        r == (t@ == w@),
{
    let ws = String::from_str(w);
    t.eq(&ws)
}

/// Reads one line of operator input as a command. A blank line asks for help;
/// a verb outside the table, or with the wrong number of arguments, is a
/// command error.
pub fn parse_command(line: &str) -> (r: Result<Command, ConsoleError>)
    ensures
        match r {
            Ok(c) => spells(tokens(line@), c),
            Err(e) => e == ConsoleError::Command && !recognized(tokens(line@)),
        },
        recognized(tokens(line@)) <==> r is Ok,
{
    proof {
        reveal_strlit("rooms");
        reveal_strlit("pdus");
        reveal_strlit("all");
        reveal_strlit("size");
        reveal_strlit("help");
        reveal_strlit("exit");
        reveal_strlit("e");
    }
    assert("rooms"@ =~= verb_rooms());
    assert("pdus"@ =~= verb_pdus());
    assert("all"@ =~= verb_all());
    assert("size"@ =~= verb_size());
    assert("help"@ =~= verb_help());
    assert("exit"@ =~= verb_exit());
    assert("e"@ =~= verb_e());
    let mut toks = split_tokens(line);
    let ghost ts = tokens(line@);
    assert(forall|i: int| 0 <= i < toks@.len() ==> toks@[i]@ == ts[i]) by {
        assert(forall|i: int| 0 <= i < toks@.len() ==> toks@.map_values(|t: String| t@)[i] == toks@[i]@);
    }
    let n = toks.len();
    if n == 0 {
        return Ok(Command::Help);
    }
    if n == 1 {
        if is_word(&toks[0], "rooms") {
            assert(ts =~= seq![verb_rooms()]);
            return Ok(Command::Rooms);
        } else if is_word(&toks[0], "size") {
            assert(ts =~= seq![verb_size()]);
            return Ok(Command::Size);
        } else if is_word(&toks[0], "help") {
            assert(ts =~= seq![verb_help()]);
            return Ok(Command::Help);
        } else if is_word(&toks[0], "exit") {
            assert(ts =~= seq![verb_exit()]);
            return Ok(Command::Exit);
        } else if is_word(&toks[0], "e") {
            assert(ts =~= seq![verb_e()]);
            return Ok(Command::Exit);
        }
        return Err(ConsoleError::Command);
    }
    if n > 3 {
        return Err(ConsoleError::Command);
    }
    let mode = if is_word(&toks[0], "pdus") {
        EventMode::State
    } else if is_word(&toks[0], "all") {
        EventMode::Timeline
    } else {
        return Err(ConsoleError::Command);
    };
    let filter = if n == 3 {
        toks.pop()
    } else {
        None
    };
    let room = toks.remove(1);
    Ok(Command::Events { mode, room, filter })
}

/// A command ready to be carried out: its room reference has been read.
#[derive(Debug)]
pub enum Request {
    ListRooms,
    Events { mode: EventMode, room: RoomReference, filter: Option<String> },
    Size,
    Help,
    Exit,
}

/// The request that a parsed command becomes once its reference reads as `room`.
pub open spec fn request_for(c: Command, r: Request) -> bool {
    match (c, r) {
        (Command::Rooms, Request::ListRooms) => true,
        (Command::Size, Request::Size) => true,
        (Command::Help, Request::Help) => true,
        (Command::Exit, Request::Exit) => true,
        (Command::Events { mode, room, filter }, Request::Events { mode: m, room: x, filter: f }) =>
            m == mode && f == filter && reference_text(x) == room@ && sigil_matches(x),
        _ => false,
    }
}

/// `c` names a room by a text that is no room reference.
pub open spec fn unreadable_room(c: Command) -> bool {
    match c {
        Command::Events { room, .. } => lacks_sigil(room@),
        _ => false,
    }
}

/// One step of the session: what to do for one line of input. Every error ends
/// the session; `Exit` ends it cleanly.
pub fn interpret(line: &str) -> (r: Result<Request, ConsoleError>)
    ensures
        !recognized(tokens(line@)) ==> r == Err::<Request, ConsoleError>(ConsoleError::Command),
        r matches Ok(q) ==> exists|c: Command| spells(tokens(line@), c) && request_for(c, q),
        r matches Err(e) ==> e == ConsoleError::Command || (e == ConsoleError::Parse
            && exists|c: Command| spells(tokens(line@), c) && c is Events),
        forall|c: Command| spells(tokens(line@), c) && !(c is Events) ==> r is Ok,
        forall|c: Command| #[trigger] spells(tokens(line@), c) && unreadable_room(c)
            ==> r == Err::<Request, ConsoleError>(ConsoleError::Parse),
{
    let c = match parse_command(line) {
        Ok(c) => c,
        Err(e) => return Err(e),
    };
    let ghost gc = c;
    proof { lemma_spelling_unique(tokens(line@), c); }
    let q = match c {
        Command::Rooms => Request::ListRooms,
        Command::Size => Request::Size,
        Command::Help => Request::Help,
        Command::Exit => Request::Exit,
        Command::Events { mode, room, filter } => {
            match parse_room_reference(room.as_str()) {
                Ok(x) => Request::Events { mode, room: x, filter },
                Err(e) => return Err(e),
            }
        },
    };
    assert(spells(tokens(line@), gc) && request_for(gc, q));
    Ok(q)
}

/// Two commands that the same tokens spell agree.
pub open spec fn same_command(c: Command, d: Command) -> bool {
    match (c, d) {
        (Command::Rooms, Command::Rooms) => true,
        (Command::Size, Command::Size) => true,
        (Command::Help, Command::Help) => true,
        (Command::Exit, Command::Exit) => true,
        (Command::Events { mode, room, .. }, Command::Events { mode: m, room: x, .. }) =>
            m == mode && x@ == room@,
        _ => false,
    }
}

proof fn lemma_verbs_distinct()
    ensures
        verb_rooms() != verb_size(), verb_rooms() != verb_help(), verb_rooms() != verb_exit(),
        verb_rooms() != verb_e(), verb_rooms() != verb_pdus(), verb_rooms() != verb_all(),
        verb_size() != verb_help(), verb_size() != verb_exit(), verb_size() != verb_e(),
        verb_size() != verb_pdus(), verb_size() != verb_all(),
        verb_help() != verb_exit(), verb_help() != verb_e(), verb_help() != verb_pdus(),
        verb_help() != verb_all(),
        verb_exit() != verb_e(), verb_exit() != verb_pdus(), verb_exit() != verb_all(),
        verb_e() != verb_pdus(), verb_e() != verb_all(),
        verb_pdus() != verb_all(),
{
    assert(verb_rooms()[0] == 'r' && verb_size()[0] == 's' && verb_help()[0] == 'h');
    assert(verb_exit()[0] == 'e' && verb_e()[0] == 'e' && verb_pdus()[0] == 'p' && verb_all()[0] == 'a');
    assert(verb_size()[1] == 'i' && verb_exit()[1] == 'x');
    assert(verb_exit().len() == 4 && verb_e().len() == 1);
}

/// A token sequence spells at most one command.
proof fn lemma_spelling_unique(toks: Seq<Seq<char>>, c: Command)
    requires
        spells(toks, c),
    ensures
        forall|d: Command| #[trigger] spells(toks, d) ==> same_command(c, d),
{
    lemma_verbs_distinct();
    assert forall|d: Command| #[trigger] spells(toks, d) implies same_command(c, d) by {
        if toks.len() == 1 {
            assert(toks[0] == seq![toks[0]][0]);
        }
    }
}

} // verus!
