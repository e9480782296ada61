use vstd::prelude::*;

use crate::address::{address_of_text, Address};
use crate::format::{
    decimal, joined, lemma_split_on_append_plain, lemma_split_on_push_sep, push_char, push_decimal, push_str, split_on,
    AnsiFormat, Group, Groupable,
};
use crate::keys::{
    char_is_alphanumeric, char_is_whitespace, evdev_keycode_to_name, is_alphanumeric, is_whitespace, key_code,
    key_name, name_to_evdev_keycode,
};

verus! {

/// Why a keyboard shortcut text was refused.
#[derive(Debug)]
pub enum ShortcutFormattingError<'a> {
    /// A key name holds a character that is neither alphanumeric nor `_`.
    InvalidCharacter(char),
    /// No key has this name.
    InvalidKey(&'a str),
}

/// What a shortcut text's problem is, as text.
pub enum ShortcutProblem {
    InvalidCharacter(char),
    InvalidKey(Seq<char>),
}

impl<'a> ShortcutFormattingError<'a> {
    /// The problem this error reports.
    pub open spec fn problem(&self) -> ShortcutProblem {
        match self {
            ShortcutFormattingError::InvalidCharacter(c) => ShortcutProblem::InvalidCharacter(*c),
            ShortcutFormattingError::InvalidKey(k) => ShortcutProblem::InvalidKey(k@),
        }
    }
}

/// A text without its leading white space.
pub open spec fn trim_start(s: Seq<char>) -> Seq<char>
    decreases s.len(),
{
    if s.len() > 0 && char_is_whitespace(s[0]) {
        trim_start(s.skip(1))
    } else {
        s
    }
}

/// A text without its trailing white space.
pub open spec fn trim_end(s: Seq<char>) -> Seq<char>
    decreases s.len(),
{
    if s.len() > 0 && char_is_whitespace(s.last()) {
        trim_end(s.drop_last())
    } else {
        s
    }
}

/// A text without its leading and trailing white space (`str::trim`).
pub open spec fn trim(s: Seq<char>) -> Seq<char> {
    trim_end(trim_start(s))
}

/// Whether a character may not stand in a key name.
pub open spec fn invalid_name_char(c: char) -> bool {
    !char_is_alphanumeric(c) && c != '_'
}

/// The first character at or after `i` that may not stand in a key name.
pub open spec fn first_invalid_from(s: Seq<char>, i: int) -> Option<char>
    decreases s.len() - i,
{
    if i < 0 || i >= s.len() {
        None
    } else if invalid_name_char(s[i]) {
        Some(s[i])
    } else {
        first_invalid_from(s, i + 1)
    }
}

/// The key code one `+`-separated piece of a shortcut names, once trimmed.
pub open spec fn piece_key(piece: Seq<char>) -> Result<u16, ShortcutProblem> {
    let name = trim(piece);
    match first_invalid_from(name, 0) {
        Some(c) => Err(ShortcutProblem::InvalidCharacter(c)),
        None => match key_code(name) {
            Some(k) => Ok(k),
            None => Err(ShortcutProblem::InvalidKey(name)),
        },
    }
}

/// The key codes of the pieces, in order, or the problem of the first bad piece.
pub open spec fn pieces_keys(pieces: Seq<Seq<char>>) -> Result<Seq<u16>, ShortcutProblem>
    decreases pieces.len(),
{
    if pieces.len() == 0 {
        Ok(Seq::empty())
    } else {
        match pieces_keys(pieces.drop_last()) {
            Err(e) => Err(e),
            Ok(keys) => match piece_key(pieces.last()) {
                Err(e) => Err(e),
                Ok(k) => Ok(keys.push(k)),
            },
        }
    }
}

/// The keys a shortcut text names: key names separated by `+`, each trimmed of
/// white space (e.g. `LEFTMETA + ESC`).
pub open spec fn shortcut_keys(text: Seq<char>) -> Result<Seq<u16>, ShortcutProblem> {
    pieces_keys(split_on(text, '+'))
}

/// The text of a key in a shortcut: its key name, or `<keycode: N>` for a code with none.
pub open spec fn key_text(code: u16) -> Seq<char> {
    match key_name(code) {
        Some(n) => n,
        None => "<keycode: "@ + decimal(code as nat) + ">"@,
    }
}

/// The text of a shortcut's first `n` keys, joined by `+`.
pub open spec fn shortcut_text_upto(keys: Seq<u16>, n: nat) -> Seq<char>
    decreases n,
{
    if n == 0 {
        Seq::empty()
    } else if n == 1 {
        key_text(keys[0])
    } else {
        shortcut_text_upto(keys, (n - 1) as nat) + seq!['+'] + key_text(keys[n - 1])
    }
}

/// A keyboard shortcut: the evdev codes of its keys.
pub struct Shortcut {
    keys: Vec<u16>,
}

impl Shortcut {
    /// The key codes, in order.
    pub closed spec fn key_codes(&self) -> Seq<u16> {
        self.keys@
    }

    /// A shortcut made of these keys.
    pub fn new(keys: Vec<u16>) -> (res: Shortcut)
        ensures
            res.key_codes() == keys@,
    {
        Shortcut { keys }
    }

    /// The key codes, in order.
    pub fn keys(&self) -> (res: &Vec<u16>)
        ensures
            res@ == self.key_codes(),
    {
        &self.keys
    }

    /// Reads a shortcut from key names separated by `+` (e.g. `LEFTMETA+ESC`). Each
    /// name is trimmed of white space and may hold only alphanumeric characters and `_`.
    pub fn parse<'a>(text: &'a str) -> (res: Result<Shortcut, ShortcutFormattingError<'a>>)
        ensures
            match shortcut_keys(text@) {
                Ok(keys) => res matches Ok(s) && s.key_codes() == keys,
                Err(p) => res matches Err(e) && e.problem() == p,
            },
    {
        let n = text.unicode_len();
        let mut keys: Vec<u16> = Vec::new();
        let mut error: Option<ShortcutFormattingError<'a>> = None;
        let mut start: usize = 0;
        let mut i: usize = 0;
        let ghost mut done: Seq<Seq<char>> = Seq::empty();
        assert(text@.take(0) =~= Seq::<char>::empty());
        assert(text@.subrange(0, 0) =~= Seq::<char>::empty());
        while i < n
            invariant
                n == text@.len(),
                start <= i <= n,
                split_on(text@.take(i as int), '+') == done.push(text@.subrange(start as int, i as int)),
                match pieces_keys(done) {
                    Ok(ks) => error is None && keys@ == ks,
                    Err(p) => error matches Some(e) && e.problem() == p,
                },
            decreases n - i,
        {
            let c = text.get_char(i);
            proof {
                assert(text@.take(i + 1).drop_last() =~= text@.take(i as int));
                assert(text@.take(i + 1).last() == c);
            }
            if c == '+' {
                let ghost piece = text@.subrange(start as int, i as int);
                if error.is_none() {
                    match parse_piece(text, start, i) {
                        Ok(k) => keys.push(k),
                        Err(e) => error = Some(e),
                    }
                }
                proof {
                    let next = done.push(piece);
                    assert(next.drop_last() =~= done);
                    done = next;
                    assert(text@.subrange((i + 1) as int, (i + 1) as int) =~= Seq::<char>::empty());
                }
                start = i + 1;
            } else {
                proof {
                    assert(text@.subrange(start as int, i + 1) =~= text@.subrange(start as int, i as int).push(c));
                    let prev = done.push(text@.subrange(start as int, i as int));
                    assert(prev.update(prev.len() - 1, prev.last().push(c)) =~= done.push(
                        text@.subrange(start as int, i + 1),
                    ));
                }
            }
            i = i + 1;
        }
        let ghost last = text@.subrange(start as int, n as int);
        if error.is_none() {
            match parse_piece(text, start, n) {
                Ok(k) => keys.push(k),
                Err(e) => error = Some(e),
            }
        }
        proof {
            assert(text@.take(n as int) =~= text@);
            let all = done.push(last);
            assert(all.drop_last() =~= done);
        }
        match error {
            Some(e) => Err(e),
            None => Ok(Shortcut::new(keys)),
        }
    }

    /// The shortcut as text: key names joined by `+`; a code with no key name is
    /// written `<keycode: N>`.
    pub fn to_text(&self) -> (res: String)
        ensures
            res@ == shortcut_text_upto(self.key_codes(), self.key_codes().len()),
    {
        let mut out = String::new();
        let mut i: usize = 0;
        while i < self.keys.len()
            invariant
                i <= self.keys@.len(),
                out@ == shortcut_text_upto(self.keys@, i as nat),
            decreases self.keys@.len() - i,
        {
            if i > 0 {
                push_char(&mut out, '+');
            }
            push_key_text(&mut out, self.keys[i]);
            i = i + 1;
        }
        out
    }
}

/// Whether a key's text in a shortcut reads back as the key: the key has a name, the
/// name holds only characters a key name may hold, no `+` and no white space, and the
/// name is the key's.
pub open spec fn name_reads_back(code: u16) -> bool {
    match key_name(code) {
        Some(n) => {
            &&& !n.contains('+')
            &&& forall|i: int| 0 <= i < n.len() ==> !invalid_name_char(#[trigger] n[i]) && !char_is_whitespace(n[i])
            &&& key_code(n) == Some(code)
        },
        None => false,
    }
}

/// A shown shortcut reads back as itself: the text `to_text` gives for a shortcut of
/// one or more keys whose names read back is parsed by `parse` into the same keys.
pub proof fn lemma_shortcut_text_reads_back(keys: Seq<u16>)
    requires
        keys.len() >= 1,
        forall|i: int| 0 <= i < keys.len() ==> name_reads_back(#[trigger] keys[i]),
    ensures
        shortcut_keys(shortcut_text_upto(keys, keys.len())) == Ok::<Seq<u16>, ShortcutProblem>(keys),
{
    let n = keys.len();
    lemma_shortcut_text_pieces(keys, n);
    lemma_pieces_read_back(keys, n);
    assert(keys.take(n as int) =~= keys);
}

/// The pieces of the text of a shortcut's first `n` keys are the keys' names.
proof fn lemma_shortcut_text_pieces(keys: Seq<u16>, n: nat)
    requires
        1 <= n <= keys.len(),
        forall|i: int| 0 <= i < keys.len() ==> name_reads_back(#[trigger] keys[i]),
    ensures
        split_on(shortcut_text_upto(keys, n), '+') =~= Seq::new(n, |i: int| key_text(keys[i])),
    decreases n,
{
    let e = Seq::<char>::empty();
    let last = key_text(keys[n - 1]);
    assert(name_reads_back(keys[n - 1]));
    assert(!last.contains('+'));
    if n == 1 {
        assert(split_on(e, '+') == seq![e]);
        lemma_split_on_append_plain(e, last, '+');
        assert(e + last =~= last);
        assert(seq![e].update(0, e + last) =~= seq![last]);
    } else {
        lemma_shortcut_text_pieces(keys, (n - 1) as nat);
        let prev = shortcut_text_upto(keys, (n - 1) as nat);
        lemma_split_on_push_sep(prev, '+');
        let with_sep = prev + seq!['+'];
        lemma_split_on_append_plain(with_sep, last, '+');
        assert(e + last =~= last);
    }
}

/// The pieces made of the names of a shortcut's first `n` keys read as those keys.
proof fn lemma_pieces_read_back(keys: Seq<u16>, n: nat)
    requires
        n <= keys.len(),
        forall|i: int| 0 <= i < keys.len() ==> name_reads_back(#[trigger] keys[i]),
    ensures
        pieces_keys(Seq::new(n, |i: int| key_text(keys[i]))) == Ok::<Seq<u16>, ShortcutProblem>(keys.take(n as int)),
    decreases n,
{
    let pieces = Seq::new(n, |i: int| key_text(keys[i]));
    if n == 0 {
        assert(keys.take(0) =~= Seq::<u16>::empty());
    } else {
        lemma_pieces_read_back(keys, (n - 1) as nat);
        assert(pieces.drop_last() =~= Seq::new((n - 1) as nat, |i: int| key_text(keys[i])));
        let k = keys[n - 1];
        assert(name_reads_back(k));
        let name = key_name(k).unwrap();
        assert(pieces.last() == name);
        lemma_no_white_space_trims(name);
        lemma_first_invalid_none(name, 0);
        assert(piece_key(name) == Ok::<u16, ShortcutProblem>(k));
        assert(keys.take(n - 1).push(k) =~= keys.take(n as int));
    }
}

/// A text with no white space is its own trimmed text.
proof fn lemma_no_white_space_trims(s: Seq<char>)
    requires
        forall|i: int| 0 <= i < s.len() ==> !char_is_whitespace(#[trigger] s[i]),
    ensures
        trim(s) == s,
{
    if s.len() > 0 {
        assert(!char_is_whitespace(s[0]));
        assert(!char_is_whitespace(s[s.len() - 1]));
    }
}

/// A text made of characters a key name may hold has no invalid character.
proof fn lemma_first_invalid_none(s: Seq<char>, i: int)
    requires
        0 <= i <= s.len(),
        forall|j: int| 0 <= j < s.len() ==> !invalid_name_char(#[trigger] s[j]),
    ensures
        first_invalid_from(s, i) is None,
    decreases s.len() - i,
{
    if i < s.len() {
        assert(!invalid_name_char(s[i]));
        lemma_first_invalid_none(s, i + 1);
    }
}

/// Appends the text of one key of a shortcut.
fn push_key_text(out: &mut String, code: u16)
    ensures
        final(out)@ == old(out)@ + key_text(code),
{
    match evdev_keycode_to_name(code) {
        Some(name) => push_str(out, name.as_str()),
        None => {
            push_str(out, "<keycode: ");
            push_decimal(out, code as u64);
            push_str(out, ">");
        },
    }
}

/// Reads the key one piece of a shortcut text names (the text between `start` and `end`).
fn parse_piece<'a>(text: &'a str, start: usize, end: usize) -> (res: Result<u16, ShortcutFormattingError<'a>>)
    requires
        start <= end <= text@.len(),
    ensures
        match piece_key(text@.subrange(start as int, end as int)) {
            Ok(k) => res == Ok::<u16, ShortcutFormattingError<'a>>(k),
            Err(p) => res matches Err(e) && e.problem() == p,
        },
{
    let ghost piece = text@.subrange(start as int, end as int);
    let mut a = start;
    while a < end && is_whitespace(text.get_char(a))
        invariant
            start <= a <= end,
            end <= text@.len(),
            piece == text@.subrange(start as int, end as int),
            trim_start(piece) == trim_start(text@.subrange(a as int, end as int)),
        decreases end - a,
    {
        assert(text@.subrange(a as int, end as int).skip(1) =~= text@.subrange(a + 1, end as int));
        a = a + 1;
    }
    assert(trim_start(piece) == text@.subrange(a as int, end as int));
    let mut b = end;
    while b > a && is_whitespace(text.get_char(b - 1))
        invariant
            start <= a <= b <= end,
            end <= text@.len(),
            trim(piece) == trim_end(text@.subrange(a as int, b as int)),
        decreases b - a,
    {
        assert(text@.subrange(a as int, b as int).drop_last() =~= text@.subrange(a as int, b - 1));
        b = b - 1;
    }
    let name = text.substring_char(a, b);
    assert(trim(piece) == name@);
    let mut k = a;
    while k < b
        invariant
            a <= k <= b,
            b <= text@.len(),
            name@ == text@.subrange(a as int, b as int),
            start <= end <= text@.len(),
            trim(text@.subrange(start as int, end as int)) == name@,
            first_invalid_from(name@, 0) == first_invalid_from(name@, k - a),
        decreases b - k,
    {
        let c = text.get_char(k);
        assert(name@[k - a] == c);
        if !is_alphanumeric(c) && c != '_' {
            return Err(ShortcutFormattingError::InvalidCharacter(c));
        }
        k = k + 1;
    }
    match name_to_evdev_keycode(name) {
        Some(code) => Ok(code),
        None => Err(ShortcutFormattingError::InvalidKey(name)),
    }
}

impl<'a> ShortcutFormattingError<'a> {
    /// The error as it is shown to the user.
    pub fn message(&self) -> (res: String)
        ensures
            res@ == match self.problem() {
                ShortcutProblem::InvalidCharacter(c) => "Invalid character \""@ + seq![c] + "\" in shortcut."@,
                ShortcutProblem::InvalidKey(k) => "Unknown key \""@ + k + "\" in shortcut."@,
            },
    {
        let mut out = String::new();
        match self {
            ShortcutFormattingError::InvalidCharacter(c) => {
                push_str(&mut out, "Invalid character \"");
                push_char(&mut out, *c);
                push_str(&mut out, "\" in shortcut.");
            },
            ShortcutFormattingError::InvalidKey(k) => {
                push_str(&mut out, "Unknown key \"");
                push_str(&mut out, k);
                push_str(&mut out, "\" in shortcut.");
            },
        }
        out
    }
}

/// Type of message bus chosen by the user.
#[derive(Debug, Clone, Copy, PartialEq, Eq, Structural)]
pub enum ConnectionBus {
    Session,
    System,
    Unspecified,
}

/// The `--system` / `--user` choice of the command line (at most one is given).
pub struct ConnectionBusArgument {
    pub system: bool,
    pub user: bool,
}

/// A bus the command line can connect to.
#[derive(Debug, Clone, Copy, PartialEq, Eq, Structural)]
pub enum Bus {
    Session,
    System,
}

/// What trying a bus gave: the daemon is there, the bus has no daemon, or the bus
/// could not be reached.
#[derive(Debug, Clone, Copy, PartialEq, Eq, Structural)]
pub enum BusProbe {
    Available,
    Unavailable,
    Failed,
}

/// The next step of connecting to the daemon.
#[derive(Debug, Clone, Copy, PartialEq, Eq, Structural)]
pub enum ConnectStep {
    /// Try this bus next.
    Probe(Bus),
    /// Use the connection to this bus.
    Use(Bus),
    /// The system bus was asked for and has no reachable daemon.
    FailSystem,
    /// The session bus was asked for and has no reachable daemon.
    FailSession,
    /// Neither bus has a reachable daemon.
    FailBoth,
}

/// The next step of connecting given the user's choice and what the buses tried so
/// far gave: a chosen bus is tried alone; with no choice the session bus is tried
/// first, then the system bus.
pub open spec fn connect_step(choice: ConnectionBus, session: Option<BusProbe>, system: Option<BusProbe>) -> ConnectStep {
    match choice {
        ConnectionBus::System => match system {
            None => ConnectStep::Probe(Bus::System),
            Some(BusProbe::Available) => ConnectStep::Use(Bus::System),
            Some(_) => ConnectStep::FailSystem,
        },
        ConnectionBus::Session => match session {
            None => ConnectStep::Probe(Bus::Session),
            Some(BusProbe::Available) => ConnectStep::Use(Bus::Session),
            Some(_) => ConnectStep::FailSession,
        },
        ConnectionBus::Unspecified => match session {
            None => ConnectStep::Probe(Bus::Session),
            Some(BusProbe::Available) => ConnectStep::Use(Bus::Session),
            Some(_) => match system {
                None => ConnectStep::Probe(Bus::System),
                Some(BusProbe::Available) => ConnectStep::Use(Bus::System),
                Some(_) => ConnectStep::FailBoth,
            },
        },
    }
}

impl ConnectionBusArgument {
    /// The bus the user chose: `--user` wins over `--system`; neither leaves it open.
    pub fn choice(&self) -> (res: ConnectionBus)
        ensures
            res == if self.user {
                ConnectionBus::Session
            } else if self.system {
                ConnectionBus::System
            } else {
                ConnectionBus::Unspecified
            },
    {
        if self.user {
            ConnectionBus::Session
        } else if self.system {
            ConnectionBus::System
        } else {
            ConnectionBus::Unspecified
        }
    }

    /// The next step of connecting, given what trying the session and system buses
    /// gave so far (`None` for a bus not tried yet).
    pub fn connect_step(&self, session: Option<BusProbe>, system: Option<BusProbe>) -> (res: ConnectStep)
        ensures
            !self.user && !self.system && session is Some && session != Some(BusProbe::Available) && system == Some(
                BusProbe::Available,
            ) ==> res == ConnectStep::Use(Bus::System),
            res == ConnectStep::FailBoth ==> session is Some && session != Some(BusProbe::Available) && system is Some
                && system != Some(BusProbe::Available),
            res == connect_step(
                if self.user {
                    ConnectionBus::Session
                } else if self.system {
                    ConnectionBus::System
                } else {
                    ConnectionBus::Unspecified
                },
                session,
                system,
            ),
    {
        match self.choice() {
            ConnectionBus::System => match system {
                None => ConnectStep::Probe(Bus::System),
                Some(BusProbe::Available) => ConnectStep::Use(Bus::System),
                Some(_) => ConnectStep::FailSystem,
            },
            ConnectionBus::Session => match session {
                None => ConnectStep::Probe(Bus::Session),
                Some(BusProbe::Available) => ConnectStep::Use(Bus::Session),
                Some(_) => ConnectStep::FailSession,
            },
            ConnectionBus::Unspecified => match session {
                None => ConnectStep::Probe(Bus::Session),
                Some(BusProbe::Available) => ConnectStep::Use(Bus::Session),
                Some(_) => match system {
                    None => ConnectStep::Probe(Bus::System),
                    Some(BusProbe::Available) => ConnectStep::Use(Bus::System),
                    Some(_) => ConnectStep::FailBoth,
                },
            },
        }
    }
}

/// Why connecting to the daemon failed, per bus: `None` where the bus was reached but
/// has no daemon, the text of the bus's error where it could not be reached.
#[derive(Debug, Clone)]
pub enum BusConnectionError {
    System(Option<String>),
    Session(Option<String>),
    /// Neither bus. The first outcome is shown under the system bus's name and the
    /// second under the session bus's; `ConnectStep::failure` puts the session bus's
    /// outcome first, so the message names each bus's outcome after the other bus.
    Both(Option<String>, Option<String>),
}

/// The line about the system bus when both failed.
pub open spec fn system_failure_text(error: Option<String>) -> Seq<char> {
    match error {
        None => "\"us.colbystuff.Bluekey\" is not available on the system bus.\n"@,
        Some(e) => "Error connecting to system bus: "@ + e@ + "."@,
    }
}

/// The line about the session bus when both failed.
pub open spec fn session_failure_text(error: Option<String>) -> Seq<char> {
    match error {
        None => "\"us.colbystuff.Bluekey\" is not available on session bus."@,
        Some(e) => "Error connecting to session bus: "@ + e@ + "."@,
    }
}

/// The message shown for a failed connection.
pub open spec fn bus_failure_text(error: BusConnectionError) -> Seq<char> {
    match error {
        BusConnectionError::System(None) => "\"us.colbystuff.Bluekey\" is not available on the system bus."@,
        BusConnectionError::Session(None) => "\"us.colbystuff.Bluekey\" is not available on session bus."@,
        BusConnectionError::System(Some(e)) => "Error connecting to system bus: "@ + e@ + "."@,
        BusConnectionError::Session(Some(e)) => "Error connecting to sessioin bus: "@ + e@,
        BusConnectionError::Both(system, session) => "Error connecting to DBus interace:\n"@ + system_failure_text(
            system,
        ) + session_failure_text(session),
    }
}

impl BusConnectionError {
    /// The error as it is shown to the user.
    pub fn message(&self) -> (res: String)
        ensures
            res@ == bus_failure_text(*self),
    {
        let mut out = String::new();
        match self {
            BusConnectionError::System(None) => {
                push_str(&mut out, "\"us.colbystuff.Bluekey\" is not available on the system bus.");
            },
            BusConnectionError::Session(None) => {
                push_str(&mut out, "\"us.colbystuff.Bluekey\" is not available on session bus.");
            },
            BusConnectionError::System(Some(e)) => {
                push_str(&mut out, "Error connecting to system bus: ");
                push_str(&mut out, e.as_str());
                push_str(&mut out, ".");
            },
            BusConnectionError::Session(Some(e)) => {
                push_str(&mut out, "Error connecting to sessioin bus: ");
                push_str(&mut out, e.as_str());
            },
            BusConnectionError::Both(system, session) => {
                push_str(&mut out, "Error connecting to DBus interace:\n");
                match system {
                    None => push_str(&mut out, "\"us.colbystuff.Bluekey\" is not available on the system bus.\n"),
                    Some(e) => {
                        push_str(&mut out, "Error connecting to system bus: ");
                        push_str(&mut out, e.as_str());
                        push_str(&mut out, ".");
                    },
                }
                match session {
                    None => push_str(&mut out, "\"us.colbystuff.Bluekey\" is not available on session bus."),
                    Some(e) => {
                        push_str(&mut out, "Error connecting to session bus: ");
                        push_str(&mut out, e.as_str());
                        push_str(&mut out, ".");
                    },
                }
            },
        }
        out
    }
}

impl ConnectStep {
    /// The error a failing step reports, given the text of each bus's error (`None` where
    /// the bus was reached but has no daemon); `None` for a step that does not fail.
    /// When both buses fail, the session bus's outcome comes first.
    pub fn failure(&self, session_error: Option<String>, system_error: Option<String>) -> (res: Option<
        BusConnectionError,
    >)
        ensures
            res == match *self {
                ConnectStep::FailSystem => Some(BusConnectionError::System(system_error)),
                ConnectStep::FailSession => Some(BusConnectionError::Session(session_error)),
                ConnectStep::FailBoth => Some(BusConnectionError::Both(session_error, system_error)),
                _ => None::<BusConnectionError>,
            },
    {
        match self {
            ConnectStep::FailSystem => Some(BusConnectionError::System(system_error)),
            ConnectStep::FailSession => Some(BusConnectionError::Session(session_error)),
            ConnectStep::FailBoth => Some(BusConnectionError::Both(session_error, system_error)),
            _ => None,
        }
    }
}

/// With no bus chosen, the session bus is tried first and the system bus next: once the
/// session bus is known to be unusable (unreachable, or no daemon on it), a system bus
/// with the daemon is used; both buses are reported failed only when neither has the
/// daemon; and a session bus with the daemon is used whatever the system bus is. A
/// chosen bus is the only one probed and used.
pub proof fn lemma_connect_falls_back_to_system(session: BusProbe, system: BusProbe)
    ensures
        session != BusProbe::Available ==> connect_step(ConnectionBus::Unspecified, Some(session), None) == ConnectStep::Probe(
            Bus::System,
        ),
        session != BusProbe::Available && system == BusProbe::Available ==> connect_step(
            ConnectionBus::Unspecified,
            Some(session),
            Some(system),
        ) == ConnectStep::Use(Bus::System),
        connect_step(ConnectionBus::Unspecified, Some(session), Some(system)) == ConnectStep::FailBoth <==> (session
            != BusProbe::Available && system != BusProbe::Available),
        session == BusProbe::Available ==> connect_step(ConnectionBus::Unspecified, Some(session), Some(system))
            == ConnectStep::Use(Bus::Session),
        connect_step(ConnectionBus::System, Some(session), Some(system)) == if system == BusProbe::Available {
            ConnectStep::Use(Bus::System)
        } else {
            ConnectStep::FailSystem
        },
        connect_step(ConnectionBus::Session, Some(session), Some(system)) == if session == BusProbe::Available {
            ConnectStep::Use(Bus::Session)
        } else {
            ConnectStep::FailSession
        },
{
}

/// Connecting asks for each bus at most once and always ends: once the probes the
/// steps ask for are answered, the next step uses a bus or fails.
pub proof fn lemma_connect_terminates(choice: ConnectionBus, session: BusProbe, system: BusProbe)
    ensures
        ({
            let first = connect_step(choice, None, None);
            let s1 = if first == ConnectStep::Probe(Bus::Session) { Some(session) } else { None };
            let y1 = if first == ConnectStep::Probe(Bus::System) { Some(system) } else { None };
            let second = connect_step(choice, s1, y1);
            let y2 = if second == ConnectStep::Probe(Bus::System) { Some(system) } else { y1 };
            let third = connect_step(choice, s1, y2);
            &&& first is Probe
            &&& !(third is Probe)
            &&& (third == ConnectStep::Use(Bus::Session) ==> session == BusProbe::Available)
            &&& (third == ConnectStep::Use(Bus::System) ==> system == BusProbe::Available)
        }),
{
}

/// How the user named the Bluetooth host to bridge to (exactly one is given).
pub struct RemoteDeviceArgs {
    pub mac: Option<String>,
    pub alias: Option<String>,
}

/// The Bluetooth host to bridge to.
#[derive(Clone, Copy)]
pub enum RemoteDevice<'a> {
    Mac(&'a str),
    Alias(&'a str),
}

impl RemoteDeviceArgs {
    /// The host the user named: by MAC address if given, else by alias.
    pub fn resolve<'a>(&'a self) -> (res: RemoteDevice<'a>)
        requires
            self.mac is Some || self.alias is Some,
        ensures
            match self.mac {
                Some(m) => res matches RemoteDevice::Mac(t) && t@ == m@,
                None => res matches RemoteDevice::Alias(t) && t@ == self.alias.unwrap()@,
            },
    {
        match &self.mac {
            Some(mac) => RemoteDevice::Mac(mac.as_str()),
            None => match &self.alias {
                Some(alias) => RemoteDevice::Alias(alias.as_str()),
                None => RemoteDevice::Alias(""),
            },
        }
    }
}

/// Why a host named by the user could not be found.
#[derive(Debug)]
pub enum AddressError<'a> {
    AddressFormatting(&'a str),
    NoSuchAlias(&'a str),
    MultipleAliases(&'a str),
}

impl<'a> AddressError<'a> {
    /// The error as it is shown to the user.
    pub fn message(&self) -> (res: String)
        ensures
            res@ == match self {
                AddressError::AddressFormatting(t) => "Invalid MAC address formatting for \""@ + t@ + "\""@,
                AddressError::NoSuchAlias(t) => "No dvices with alias \""@ + t@ + "\""@,
                AddressError::MultipleAliases(t) => "Multiple devices with alias \""@ + t@ + "\""@,
            },
    {
        let mut out = String::new();
        match self {
            AddressError::AddressFormatting(t) => {
                push_str(&mut out, "Invalid MAC address formatting for \"");
                push_str(&mut out, t);
            },
            AddressError::NoSuchAlias(t) => {
                push_str(&mut out, "No dvices with alias \"");
                push_str(&mut out, t);
            },
            AddressError::MultipleAliases(t) => {
                push_str(&mut out, "Multiple devices with alias \"");
                push_str(&mut out, t);
            },
        }
        push_str(&mut out, "\"");
        out
    }
}

/// Reads the MAC address the user gave; text that is not an address is refused.
pub fn parse_mac<'a>(text: &'a str) -> (res: Result<Address, AddressError<'a>>)
    ensures
        match address_of_text(text@) {
            Some(bytes) => res matches Ok(a) && a.0@ == bytes,
            None => res matches Err(AddressError::AddressFormatting(t)) && t@ == text@,
        },
{
    match Address::parse(text) {
        Some(a) => Ok(a),
        None => Err(AddressError::AddressFormatting(text)),
    }
}

/// The number of hosts, among the first `n`, whose alias is `alias`.
pub open spec fn alias_count(hosts: Seq<(Address, Seq<char>)>, alias: Seq<char>, n: nat) -> nat
    decreases n,
{
    if n == 0 {
        0
    } else {
        alias_count(hosts, alias, (n - 1) as nat) + if hosts[n - 1].1 == alias {
            1nat
        } else {
            0nat
        }
    }
}

/// Searching the adapter's hosts for the one with an alias: the first match is kept,
/// a second one is an error.
pub struct AliasSearch {
    pub found: Option<Address>,
}

impl AliasSearch {
    /// Nothing found yet.
    pub fn new() -> (res: AliasSearch)
        ensures
            res.found is None,
    {
        AliasSearch { found: None }
    }

    /// Looks at one host with alias `alias`: the first host whose alias is the target
    /// is kept; a second one makes the alias ambiguous.
    pub fn observe<'a>(&mut self, address: Address, alias: &String, target: &'a str) -> (res: Result<(), AddressError<'a>>)
        ensures
            alias@ != target@ ==> res is Ok && final(self).found == old(self).found,
            alias@ == target@ && old(self).found is None ==> res is Ok && final(self).found == Some(address),
            alias@ == target@ && old(self).found is Some ==> (res matches Err(AddressError::MultipleAliases(t)) && t@ == target@),
    {
        let wanted = String::from_str(target);
        if *alias == wanted {
            match self.found {
                None => {
                    self.found = Some(address);
                    Ok(())
                },
                Some(_) => Err(AddressError::MultipleAliases(target)),
            }
        } else {
            Ok(())
        }
    }

    /// The host found, or the error for an alias no host has.
    pub fn finish<'a>(&self, target: &'a str) -> (res: Result<Address, AddressError<'a>>)
        ensures
            match self.found {
                Some(a) => res matches Ok(b) && b == a,
                None => res matches Err(AddressError::NoSuchAlias(t)) && t@ == target@,
            },
    {
        match self.found {
            Some(a) => Ok(a),
            None => Err(AddressError::NoSuchAlias(target)),
        }
    }
}

/// Finds the one host whose alias is `target` among the adapter's hosts (address and alias).
pub fn find_device<'a>(hosts: &Vec<(Address, String)>, target: &'a str) -> (res: Result<Address, AddressError<'a>>)
    ensures
        ({
            let view = hosts@.map_values(|h: (Address, String)| (h.0, h.1@));
            let count = alias_count(view, target@, hosts@.len() as nat);
            &&& count == 0 ==> (res matches Err(AddressError::NoSuchAlias(t)) && t@ == target@)
            &&& count >= 2 ==> (res matches Err(AddressError::MultipleAliases(t)) && t@ == target@)
            &&& count == 1 ==> (res matches Ok(a) && exists|i: int|
                0 <= i < hosts@.len() && hosts@[i].0 == a && hosts@[i].1@ == target@)
        }),
{
    let ghost view = hosts@.map_values(|h: (Address, String)| (h.0, h.1@));
    let mut search = AliasSearch::new();
    let mut i: usize = 0;
    while i < hosts.len()
        invariant
            i <= hosts@.len(),
            view == hosts@.map_values(|h: (Address, String)| (h.0, h.1@)),
            alias_count(view, target@, i as nat) <= 1,
            search.found is None <==> alias_count(view, target@, i as nat) == 0,
            search.found matches Some(a) ==> exists|j: int|
                0 <= j < i && hosts@[j].0 == a && hosts@[j].1@ == target@,
        decreases hosts@.len() - i,
    {
        let (address, alias) = (&hosts[i].0, &hosts[i].1);
        match search.observe(*address, alias, target) {
            Ok(()) => {},
            Err(e) => {
                proof {
                    lemma_alias_count_monotone(view, target@, (i + 1) as nat, hosts@.len() as nat);
                }
                return Err(e);
            },
        }
        i = i + 1;
    }
    search.finish(target)
}

/// Counting matching aliases over more hosts never gives fewer.
proof fn lemma_alias_count_monotone(hosts: Seq<(Address, Seq<char>)>, alias: Seq<char>, m: nat, n: nat)
    requires
        m <= n,
    ensures
        alias_count(hosts, alias, m) <= alias_count(hosts, alias, n),
    decreases n - m,
{
    if m < n {
        lemma_alias_count_monotone(hosts, alias, m, (n - 1) as nat);
    }
}

/// The `escape-shortcut` command: shows the keyboard escape shortcut, or sets it.
pub struct EscapeShortcut {
    pub bus: ConnectionBusArgument,
    pub shortcut: Option<String>,
}

impl EscapeShortcut {
    /// The shortcut to set, read from the command line, if one was given.
    pub fn requested_shortcut<'a>(&'a self) -> (res: Result<Option<Shortcut>, ShortcutFormattingError<'a>>)
        ensures
            match self.shortcut {
                None => res matches Ok(None),
                Some(text) => match shortcut_keys(text@) {
                    Ok(keys) => res matches Ok(Some(s)) && s.key_codes() == keys,
                    Err(p) => res matches Err(e) && e.problem() == p,
                },
            },
    {
        match &self.shortcut {
            None => Ok(None),
            Some(text) => match Shortcut::parse(text.as_str()) {
                Ok(s) => Ok(Some(s)),
                Err(e) => Err(e),
            },
        }
    }
}

/// The bridges the `bridge` command created, to destroy when it ends.
pub struct Bridges {
    pub keyboard: Option<u64>,
    pub mouse: Option<u64>,
}

impl Bridges {
    /// No bridge created yet.
    pub fn new() -> (res: Bridges)
        ensures
            res.keyboard is None && res.mouse is None,
    {
        Bridges { keyboard: None, mouse: None }
    }

    /// Whether a broken bridge reported by the daemon is one of ours.
    pub fn is_ours(&self, id: u64) -> (res: bool)
        ensures
            res == (self.keyboard == Some(id) || self.mouse == Some(id)),
    {
        match (self.keyboard, self.mouse) {
            (Some(k), _) if k == id => true,
            (_, Some(m)) if m == id => true,
            _ => false,
        }
    }
}

/// The `list` command: lists the devices known to the daemon (`long` adds names and inputs).
pub struct List {
    pub bus: ConnectionBusArgument,
    pub long: bool,
}

/// One device the daemon lists: its address, which of its inputs are bridged, its
/// power value (1 = suspended), and its name as the Bluetooth adapter knows it.
pub struct DeviceEntry {
    pub address: String,
    pub keyboard: bool,
    pub mouse: bool,
    pub power: u8,
    pub name: String,
}

/// The escape sequences that dim text, and that end dimming.
pub open spec fn dim_enter() -> Seq<char> {
    "\x1B[2m"@
}

pub open spec fn dim_exit() -> Seq<char> {
    "\x1B[22m"@
}

/// The address of a device as listed: dimmed when the device is suspended.
pub open spec fn listed_address(e: DeviceEntry) -> Seq<char> {
    if e.power == 1 {
        dim_enter() + e.address@ + dim_exit()
    } else {
        ""@ + e.address@ + ""@
    }
}

/// The bridged inputs of a device as listed: `Keyboard` and `Mouse`, comma separated.
pub open spec fn listed_inputs(keyboard: bool, mouse: bool) -> Seq<char> {
    if keyboard && mouse {
        "Keyboard"@ + ", "@ + "Mouse"@
    } else if keyboard {
        "Keyboard"@
    } else if mouse {
        "Mouse"@
    } else {
        Seq::empty()
    }
}

/// One device as listed: its address alone, or (long listing) its address, name and inputs.
pub open spec fn listed_entry(e: DeviceEntry, long: bool) -> Seq<char> {
    if long {
        "Address: "@ + listed_address(e) + ", Name: "@ + e.name@ + "; "@ + listed_inputs(e.keyboard, e.mouse)
    } else {
        listed_address(e)
    }
}

/// The output of the `list` command: the devices one per line (long listing) or comma
/// separated, then a line end; or a notice when there is none.
pub open spec fn device_list_text(entries: Seq<DeviceEntry>, long: bool) -> Seq<char> {
    let sep = if long {
        "\n"@
    } else {
        ", "@
    };
    if entries.len() == 0 {
        "No devices connected.\n"@
    } else {
        joined(entries.map_values(|e: DeviceEntry| listed_entry(e, long)), sep) + "\n"@
    }
}

/// A long listing names a device's bridged inputs: its line is the address, the name,
/// then the inputs, which begin with `Keyboard` whenever the keyboard is bridged and end
/// with `Mouse` whenever the mouse is, whatever the other flag; with both, `, ` stands
/// between them, and with neither the inputs are empty. A listing of one device is that
/// line followed by a line end.
pub proof fn lemma_long_listing_names_inputs(e: DeviceEntry)
    ensures
        listed_entry(e, true) == "Address: "@ + listed_address(e) + ", Name: "@ + e.name@ + "; "@ + listed_inputs(
            e.keyboard,
            e.mouse,
        ),
        listed_inputs(e.keyboard, e.mouse).len() == (if e.keyboard {
            8int
        } else {
            0int
        }) + (if e.mouse {
            5int
        } else {
            0int
        }) + (if e.keyboard && e.mouse {
            2int
        } else {
            0int
        }),
        e.keyboard ==> listed_inputs(e.keyboard, e.mouse).subrange(0, 8) == "Keyboard"@,
        e.mouse ==> listed_inputs(e.keyboard, e.mouse).subrange(
            listed_inputs(e.keyboard, e.mouse).len() - 5,
            listed_inputs(e.keyboard, e.mouse).len() as int,
        ) == "Mouse"@,
        e.keyboard && e.mouse ==> listed_inputs(e.keyboard, e.mouse).subrange(8, 10) == ", "@,
        device_list_text(seq![e], true) == listed_entry(e, true) + "\n"@,
{
    reveal_strlit("Keyboard");
    reveal_strlit("Mouse");
    reveal_strlit(", ");
    let inputs = listed_inputs(e.keyboard, e.mouse);
    if e.keyboard && e.mouse {
        assert(inputs.subrange(0, 8) =~= "Keyboard"@);
        assert(inputs.subrange(8, 10) =~= ", "@);
        assert(inputs.subrange(10, 15) =~= "Mouse"@);
    } else if e.keyboard {
        assert(inputs.subrange(0, 8) =~= "Keyboard"@);
    } else if e.mouse {
        assert(inputs.subrange(0, 5) =~= "Mouse"@);
    }
    let parts = seq![e].map_values(|d: DeviceEntry| listed_entry(d, true));
    assert(parts.len() == 1);
    assert(parts[0] == listed_entry(e, true));
}

/// Writes one device as listed.
fn render_entry(e: &DeviceEntry, long: bool) -> (res: String)
    ensures
        res@ == listed_entry(*e, long),
{
    let format = if e.power == 1 {
        AnsiFormat::new("\x1B[2m", "\x1B[22m")
    } else {
        AnsiFormat::new("", "")
    };
    let address = format.wrap(e.address.as_str()).render();
    if !long {
        return address;
    }
    let mut part = String::new();
    push_str(&mut part, "Address: ");
    push_str(&mut part, address.as_str());
    push_str(&mut part, ", Name: ");
    push_str(&mut part, e.name.as_str());
    push_str(&mut part, "; ");
    let mut devices = part.into_group(String::from_str(", "));
    if e.keyboard {
        let out = devices.next();
        out.append("Keyboard");
    }
    if e.mouse {
        let out = devices.next();
        out.append("Mouse");
    }
    devices.into_text()
}

/// The output of the `list` command for these devices.
pub fn render_device_list(entries: &Vec<DeviceEntry>, long: bool) -> (res: String)
    ensures
        res@ == device_list_text(entries@, long),
{
    let sep = if long {
        String::from_str("\n")
    } else {
        String::from_str(", ")
    };
    let ghost sep_view = sep@;
    let mut group = String::new().into_group(sep);
    let mut had_any = false;
    let mut i: usize = 0;
    while i < entries.len()
        invariant
            i <= entries@.len(),
            group.separator() == sep_view,
            sep_view == if long {
                "\n"@
            } else {
                ", "@
            },
            had_any == (i > 0),
            group.started() == (i > 0),
            group.text() == joined(entries@.take(i as int).map_values(|e: DeviceEntry| listed_entry(e, long)), sep_view),
        decreases entries@.len() - i,
    {
        let part = render_entry(&entries[i], long);
        let out = group.next();
        out.append(part.as_str());
        had_any = true;
        proof {
            let prev = entries@.take(i as int).map_values(|e: DeviceEntry| listed_entry(e, long));
            let cur = entries@.take(i + 1).map_values(|e: DeviceEntry| listed_entry(e, long));
            assert(cur.drop_last() =~= prev);
            assert(cur.last() == listed_entry(entries@[i as int], long));
            if i == 0 {
                assert(cur.len() == 1);
            }
        }
        i = i + 1;
    }
    assert(entries@.take(i as int) =~= entries@);
    let mut out = group.into_text();
    if !had_any {
        push_str(&mut out, "No devices connected.\n");
    } else {
        push_str(&mut out, "\n");
    }
    out
}

/// Whether a chunk read from the terminal ends the wait for Enter: an empty read (end
/// of input) or a chunk holding a line feed.
pub fn enter_pressed(length: usize, buffer: &[u8]) -> (res: bool)
    requires
        length <= buffer@.len(),
    ensures
        res == (length == 0 || buffer@.take(length as int).contains(10u8)),
{
    if length == 0 {
        return true;
    }
    let mut i: usize = 0;
    while i < length
        invariant
            i <= length <= buffer@.len(),
            forall|j: int| 0 <= j < i ==> buffer@[j] != 10u8,
        decreases length - i,
    {
        if buffer[i] == 10u8 {
            assert(buffer@.take(length as int)[i as int] == 10u8);
            return true;
        }
        i = i + 1;
    }
    assert forall|j: int| 0 <= j < length implies buffer@.take(length as int)[j] != 10u8 by {
        assert(buffer@.take(length as int)[j] == buffer@[j]);
    }
    false
}

/// Whether a device's inputs are suspended by its host, as the daemon publishes it.
#[derive(Debug, Clone, Copy, PartialEq, Eq, Structural)]
pub enum PowerStatus {
    Suspended,
    Active,
}

/// The power status published for a device.
pub fn power_status(suspended: bool) -> (res: PowerStatus)
    ensures
        res == if suspended {
            PowerStatus::Suspended
        } else {
            PowerStatus::Active
        },
{
    if suspended {
        PowerStatus::Suspended
    } else {
        PowerStatus::Active
    }
}

/// A bridge the standalone client created through the daemon, to destroy on exit.
pub struct BridgeHandle {
    pub handle: Option<u64>,
}

/// Records the handle of a bridge once the daemon created it.
pub struct Handler<'a> {
    pub handler: &'a mut BridgeHandle,
}

impl BridgeHandle {
    /// No bridge yet.
    pub fn new() -> (res: BridgeHandle)
        ensures
            res.handle is None,
    {
        BridgeHandle { handle: None }
    }

    /// A recorder for the handle of the bridge about to be created.
    pub fn wrap<'a>(&'a mut self) -> (res: Handler<'a>)
        ensures
            *res.handler == *old(self),
            *final(self) == *final(res.handler),
    {
        Handler { handler: self }
    }
}

impl<'a> Handler<'a> {
    /// Records the handle of the created bridge.
    pub fn wrap(self, id: u64)
        ensures
            final(self.handler).handle == Some(id),
    {
        self.handler.handle = Some(id);
    }
}

} // verus!
