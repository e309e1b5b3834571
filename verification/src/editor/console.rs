//! Developer console: the message log, the command history and the
//! commands.
//!
//! A command line is trimmed, lower-cased and split at white space; its
//! first word selects the command.  The window that shows the console is
//! drawn elsewhere.

use vstd::prelude::*;
use vstd::string::{StrSliceExecFns, StringExecFns};
use std::collections::VecDeque;
use crate::utils::bounded::{
    keep_last, lemma_keep_last_map, lemma_keep_last_push, push_back_bounded, push_front_bounded,
    push_front_kept,
};

verus! {

/// Log level for console messages.
#[derive(Debug, Clone, Copy, PartialEq, Eq, Structural)]
pub enum LogLevel {
    Info,
    Warning,
    Error,
    Success,
}

/// A console command.
#[derive(Debug, Clone, PartialEq, Eq)]
pub enum ConsoleCommand {
    /// `help`: list the commands.
    Help,
    /// `list_entities`: count the entities.
    ListEntities,
    /// `toggle_gravity`: switch physics gravity on or off.
    ToggleGravity,
    /// `clear`: clear the console messages.
    Clear,
    /// Any other word.
    Unknown(String),
}

/// The characters with the Unicode `White_Space` property, which is what
/// `char::is_whitespace` and `str::trim` go by.
pub open spec fn is_white_space(c: char) -> bool {
    ||| ('\u{9}' <= c && c <= '\u{d}')
    ||| c == ' '
    ||| c == '\u{85}'
    ||| c == '\u{a0}'
    ||| c == '\u{1680}'
    ||| ('\u{2000}' <= c && c <= '\u{200a}')
    ||| c == '\u{2028}'
    ||| c == '\u{2029}'
    ||| c == '\u{202f}'
    ||| c == '\u{205f}'
    ||| c == '\u{3000}'
}

/// `s` without its leading white space.
pub open spec fn trim_start_spec(s: Seq<char>) -> Seq<char>
    decreases s.len(),
{
    if s.len() > 0 && is_white_space(s[0]) {
        trim_start_spec(s.drop_first())
    } else {
        s
    }
}

/// `s` without its trailing white space.
pub open spec fn trim_end_spec(s: Seq<char>) -> Seq<char>
    decreases s.len(),
{
    if s.len() > 0 && is_white_space(s.last()) {
        trim_end_spec(s.drop_last())
    } else {
        s
    }
}

/// `s` without leading and trailing white space, as `str::trim` gives it.
pub open spec fn trim_spec(s: Seq<char>) -> Seq<char> {
    trim_end_spec(trim_start_spec(s))
}

/// What `str::to_lowercase` returns for the given characters.
pub uninterp spec fn lowercase_of(s: Seq<char>) -> Seq<char>;

/// Calls `char::is_whitespace`, which tests for the Unicode `White_Space` property.
#[verifier::external_body]
fn char_is_whitespace(c: char) -> (r: bool)
    ensures
        r == is_white_space(c),
{
    c.is_whitespace()
}

/// Calls `str::trim`, which removes leading and trailing `White_Space` characters.
#[verifier::external_body]
fn trim(s: &str) -> (r: &str)
    ensures
        r@ == trim_spec(s@),
{
    s.trim()
}

/// The lower case of an ASCII character: `A`..`Z` become `a`..`z`, the
/// others stay.
pub open spec fn ascii_lower(c: char) -> char {
    if 'A' <= c && c <= 'Z' {
        ((c as u32) + 32) as char
    } else {
        c
    }
}

/// Every character of `s` is ASCII.
pub open spec fn all_ascii(s: Seq<char>) -> bool {
    forall|j: int| 0 <= j < s.len() ==> (#[trigger] s[j] as u32) < 128
}

/// Calls `str::to_lowercase`: the Unicode lower-case mapping of each
/// character; the result is a function of the characters alone.  Unicode
/// maps the ASCII capitals to the small letters and leaves the other ASCII
/// characters as they are, so an ASCII text lower-cases character by
/// character (the empty text to the empty text).
#[verifier::external_body]
fn to_lowercase(s: &str) -> (r: String)
    ensures
        r@ == lowercase_of(s@),
        all_ascii(s@) ==> r@ == s@.map_values(|c: char| ascii_lower(c)),
{
    s.to_lowercase()
}

/// `s[a..e]` is the first white-space separated word of `s`: all characters
/// before `a` are white space, and `s[a..e]` is a maximal run of other characters.
pub open spec fn first_word_bounds(s: Seq<char>, a: int, e: int) -> bool {
    &&& 0 <= a < e <= s.len()
    &&& forall|j: int| 0 <= j < a ==> is_white_space(#[trigger] s[j])
    &&& forall|j: int| a <= j < e ==> !is_white_space(#[trigger] s[j])
    &&& (e == s.len() || is_white_space(s[e]))
}

/// Every character of `s` is white space.
pub open spec fn all_white_space(s: Seq<char>) -> bool {
    forall|j: int| 0 <= j < s.len() ==> is_white_space(#[trigger] s[j])
}

/// Whether `command` is what the word `word` selects.
pub open spec fn selects(word: Seq<char>, command: ConsoleCommand) -> bool {
    if word == "help"@ {
        command == ConsoleCommand::Help
    } else if word == "list_entities"@ {
        command == ConsoleCommand::ListEntities
    } else if word == "toggle_gravity"@ {
        command == ConsoleCommand::ToggleGravity
    } else if word == "clear"@ {
        command == ConsoleCommand::Clear
    } else {
        command matches ConsoleCommand::Unknown(w) && w@ == word
    }
}

/// The first white-space separated word of `s`, if it has one.
pub fn first_word(s: &str) -> (r: Option<String>)
    ensures
        r is None <==> all_white_space(s@),
        r matches Some(w) ==> exists|a: int, e: int|
            first_word_bounds(s@, a, e) && w@ == s@.subrange(a, e),
{
    let n = s.unicode_len();
    let mut a: usize = 0;
    while a < n
        invariant
            n == s@.len(),
            a <= n,
            forall|j: int| 0 <= j < a ==> is_white_space(#[trigger] s@[j]),
        ensures
            a <= n,
            forall|j: int| 0 <= j < a ==> is_white_space(#[trigger] s@[j]),
            a < n ==> !is_white_space(s@[a as int]),
        decreases n - a,
    {
        if !char_is_whitespace(s.get_char(a)) {
            break;
        }
        a += 1;
    }
    if a == n {
        return None;
    }
    let mut e: usize = a + 1;
    while e < n
        invariant
            n == s@.len(),
            a < e <= n,
            forall|j: int| a <= j < e ==> !is_white_space(#[trigger] s@[j]),
        ensures
            a < e <= n,
            forall|j: int| a <= j < e ==> !is_white_space(#[trigger] s@[j]),
            e < n ==> is_white_space(s@[e as int]),
        decreases n - e,
    {
        if char_is_whitespace(s.get_char(e)) {
            break;
        }
        e += 1;
    }
    let word = s.substring_char(a, e).to_owned();
    assert(first_word_bounds(s@, a as int, e as int));
    Some(word)
}

impl ConsoleCommand {
    /// The command that `word` selects.
    pub fn from_word(word: String) -> (r: ConsoleCommand)
        ensures
            selects(word@, r),
    {
        if word == "help".to_owned() {
            ConsoleCommand::Help
        } else if word == "list_entities".to_owned() {
            ConsoleCommand::ListEntities
        } else if word == "toggle_gravity".to_owned() {
            ConsoleCommand::ToggleGravity
        } else if word == "clear".to_owned() {
            ConsoleCommand::Clear
        } else {
            ConsoleCommand::Unknown(word)
        }
    }

    /// Parses a command line: trims it, lower-cases it and takes its first
    /// word.  `None` when the line has no word.
    pub fn parse(input: &str) -> (r: Option<ConsoleCommand>)
        ensures
            ({
                let line = lowercase_of(trim_spec(input@));
                &&& r is None <==> all_white_space(line)
                &&& r matches Some(c) ==> exists|a: int, e: int|
                    first_word_bounds(line, a, e) && selects(line.subrange(a, e), c)
            }),
            all_ascii(trim_spec(input@)) ==> lowercase_of(trim_spec(input@))
                == trim_spec(input@).map_values(|c: char| ascii_lower(c)),
    {
        let line = to_lowercase(trim(input));
        match first_word(line.as_str()) {
            Some(word) => Some(ConsoleCommand::from_word(word)),
            None => None,
        }
    }
}

/// Whether a command line is blank (only white space), as `str::trim` decides it.
pub fn is_blank(input: &str) -> (r: bool)
    ensures
        r == (trim_spec(input@).len() == 0),
{
    trim(input).unicode_len() == 0
}

/// The replies the console logs for a command, given whether there is a
/// physics world and whether its gravity is on (`Some(true)`).
pub open spec fn command_replies(c: ConsoleCommand, gravity_enabled: Option<bool>) -> Seq<(Seq<char>, LogLevel)> {
    match c {
        ConsoleCommand::Help => seq![
            ("Available commands:"@, LogLevel::Info),
            ("  help - Show this help message"@, LogLevel::Info),
            ("  list_entities - Count total entities"@, LogLevel::Info),
            ("  toggle_gravity - Toggle physics gravity"@, LogLevel::Info),
            ("  clear - Clear console messages"@, LogLevel::Info),
        ],
        ConsoleCommand::ListEntities => seq![("Total entities: 0"@, LogLevel::Info)],
        ConsoleCommand::ToggleGravity => match gravity_enabled {
            Some(true) => seq![("Gravity disabled"@, LogLevel::Success)],
            Some(false) => seq![("Gravity enabled"@, LogLevel::Success)],
            None => seq![("Physics world not found"@, LogLevel::Error)],
        },
        ConsoleCommand::Clear => seq![("Console cleared"@, LogLevel::Success)],
        ConsoleCommand::Unknown(word) => seq![("Unknown command: "@ + word@, LogLevel::Warning)],
    }
}

/// The gravity a command switches to: `toggle_gravity` turns an existing
/// physics world's gravity off when it is on, and on when it is off.
pub open spec fn gravity_switch(c: ConsoleCommand, gravity_enabled: Option<bool>) -> Option<bool> {
    match (c, gravity_enabled) {
        (ConsoleCommand::ToggleGravity, Some(on)) => Some(!on),
        _ => None,
    }
}

/// The texts and levels of a list of replies.
pub open spec fn reply_views(r: Seq<(String, LogLevel)>) -> Seq<(Seq<char>, LogLevel)> {
    r.map_values(|p: (String, LogLevel)| (p.0@, p.1))
}

/// The reply to an unknown command word.
fn unknown_command_message(word: &str) -> (r: String)
    ensures
        r@ == "Unknown command: "@ + word@,
{
    "Unknown command: ".to_owned().concat(word)
}

impl ConsoleCommand {
    /// The replies to log for this command.  The entity count is not
    /// gathered: `list_entities` reports 0.
    pub fn replies(&self, gravity_enabled: Option<bool>) -> (r: Vec<(String, LogLevel)>)
        ensures
            reply_views(r@) == command_replies(*self, gravity_enabled),
    {
        let mut r: Vec<(String, LogLevel)> = Vec::new();
        match self {
            ConsoleCommand::Help => {
                r.push(("Available commands:".to_owned(), LogLevel::Info));
                r.push(("  help - Show this help message".to_owned(), LogLevel::Info));
                r.push(("  list_entities - Count total entities".to_owned(), LogLevel::Info));
                r.push(("  toggle_gravity - Toggle physics gravity".to_owned(), LogLevel::Info));
                r.push(("  clear - Clear console messages".to_owned(), LogLevel::Info));
            },
            ConsoleCommand::ListEntities => {
                r.push(("Total entities: 0".to_owned(), LogLevel::Info));
            },
            ConsoleCommand::ToggleGravity => {
                match gravity_enabled {
                    Some(true) => r.push(("Gravity disabled".to_owned(), LogLevel::Success)),
                    Some(false) => r.push(("Gravity enabled".to_owned(), LogLevel::Success)),
                    None => r.push(("Physics world not found".to_owned(), LogLevel::Error)),
                }
            },
            ConsoleCommand::Clear => {
                r.push(("Console cleared".to_owned(), LogLevel::Success));
            },
            ConsoleCommand::Unknown(word) => {
                r.push((unknown_command_message(word.as_str()), LogLevel::Warning));
            },
        }
        assert(reply_views(r@) =~= command_replies(*self, gravity_enabled));
        r
    }
}

/// Whether `input` is a command line whose command is `c`.
pub open spec fn parsed_as(input: Seq<char>, c: ConsoleCommand) -> bool {
    let line = lowercase_of(trim_spec(input));
    exists|a: int, e: int| first_word_bounds(line, a, e) && selects(line.subrange(a, e), c)
}

/// A single console message.
#[derive(Debug, Clone)]
pub struct ConsoleMessage {
    pub text: String,
    pub level: LogLevel,
}

/// The texts and levels of a list of messages.
pub open spec fn message_views(q: Seq<ConsoleMessage>) -> Seq<(Seq<char>, LogLevel)> {
    q.map_values(|m: ConsoleMessage| (m.text@, m.level))
}

/// In-game developer console.
pub struct Console {
    pub messages: VecDeque<ConsoleMessage>,
    pub input_buffer: String,
    pub history: VecDeque<String>,
    pub visible: bool,
    pub max_messages: usize,
    pub max_history: usize,
}

impl Default for Console {
    /// An empty, hidden console keeping 100 messages and 50 history lines.
    fn default() -> (r: Self)
        ensures
            r.messages@ == Seq::<ConsoleMessage>::empty(),
            r.input_buffer@ == Seq::<char>::empty(),
            r.history@ == Seq::<String>::empty(),
            !r.visible,
            r.max_messages == 100,
            r.max_history == 50,
    {
        Console {
            messages: VecDeque::with_capacity(100),
            input_buffer: String::new(),
            history: VecDeque::with_capacity(50),
            visible: false,
            max_messages: 100,
            max_history: 50,
        }
    }
}

impl Console {
    /// Logs a message; the oldest messages beyond `max_messages` are dropped.
    pub fn log(&mut self, text: String, level: LogLevel)
        ensures
            message_views(final(self).messages@) == keep_last(
                message_views(old(self).messages@).push((text@, level)),
                old(self).max_messages as nat,
            ),
            final(self).input_buffer == old(self).input_buffer,
            final(self).history == old(self).history,
            final(self).visible == old(self).visible,
            final(self).max_messages == old(self).max_messages,
            final(self).max_history == old(self).max_history,
    {
        let ghost before = self.messages@;
        let ghost text_view = text@;
        let message = ConsoleMessage { text, level };
        let max = self.max_messages;
        push_back_bounded(&mut self.messages, message, max);
        proof {
            let f = |m: ConsoleMessage| (m.text@, m.level);
            lemma_keep_last_map(before.push(message), f, max as nat);
            assert(before.push(message).map_values(f) =~= message_views(before).push((text_view, level)));
        }
    }

    /// Runs the command in the input buffer.  A line without a word changes
    /// nothing.  Otherwise `clear` empties the log, the command's replies
    /// are logged, a non-blank line goes to the front of the history (the
    /// oldest line is dropped beyond `max_history`), and the input buffer is
    /// emptied.  `gravity_enabled` tells whether there is a physics world and
    /// whether its gravity is on; the result is the gravity to switch to.
    pub fn process_command(&mut self, gravity_enabled: Option<bool>) -> (r: Option<bool>)
        ensures
            all_ascii(trim_spec(old(self).input_buffer@)) ==> lowercase_of(trim_spec(old(self).input_buffer@))
                == trim_spec(old(self).input_buffer@).map_values(|c: char| ascii_lower(c)),
            all_white_space(lowercase_of(trim_spec(old(self).input_buffer@)))
                ==> r is None && *final(self) == *old(self),
            !all_white_space(lowercase_of(trim_spec(old(self).input_buffer@)))
                ==> exists|c: ConsoleCommand| #[trigger] parsed_as(old(self).input_buffer@, c) && {
                &&& r == gravity_switch(c, gravity_enabled)
                &&& message_views(final(self).messages@) == keep_last(
                    (if c is Clear {
                        Seq::empty()
                    } else {
                        message_views(old(self).messages@)
                    }) + command_replies(c, gravity_enabled),
                    old(self).max_messages as nat,
                )
                &&& final(self).history@ == if trim_spec(old(self).input_buffer@).len() > 0 {
                    push_front_kept(old(self).history@, old(self).input_buffer, old(self).max_history as nat)
                } else {
                    old(self).history@
                }
                &&& final(self).input_buffer@ == Seq::<char>::empty()
                &&& final(self).visible == old(self).visible
                &&& final(self).max_messages == old(self).max_messages
                &&& final(self).max_history == old(self).max_history
            },
    {
        let command = match ConsoleCommand::parse(self.input_buffer.as_str()) {
            Some(c) => c,
            None => return None,
        };
        assert(parsed_as(old(self).input_buffer@, command));
        if let ConsoleCommand::Clear = command {
            self.messages.clear();
        }
        let ghost start = message_views(self.messages@);
        let replies = command.replies(gravity_enabled);
        let ghost rv = reply_views(replies@);
        let max = self.max_messages;
        let n = replies.len();
        let mut i: usize = 0;
        while i < n
            invariant
                n == replies@.len(),
                i <= n,
                rv == reply_views(replies@),
                max == self.max_messages,
                message_views(self.messages@) == if i == 0 {
                    start
                } else {
                    keep_last(start + rv.take(i as int), max as nat)
                },
                self.input_buffer == old(self).input_buffer,
                self.history == old(self).history,
                self.visible == old(self).visible,
                self.max_history == old(self).max_history,
            decreases n - i,
        {
            let text = replies[i].0.clone();
            let level = replies[i].1;
            let ghost shown = message_views(self.messages@);
            self.log(text, level);
            proof {
                assert(rv[i as int] == (text@, level));
                assert((start + rv.take(i as int)).push(rv[i as int]) =~= start + rv.take(i + 1));
                if i > 0 {
                    lemma_keep_last_push(start + rv.take(i as int), rv[i as int], max as nat);
                } else {
                    assert(start.push(rv[0]) =~= start + rv.take(1));
                }
            }
            i += 1;
        }
        proof {
            assert(rv.take(n as int) =~= rv);
        }
        if !is_blank(self.input_buffer.as_str()) {
            let line = self.input_buffer.clone();
            let max_history = self.max_history;
            push_front_bounded(&mut self.history, line, max_history);
        }
        self.input_buffer = String::new();
        match (command, gravity_enabled) {
            (ConsoleCommand::ToggleGravity, Some(on)) => Some(!on),
            _ => None,
        }
    }

    /// Toggles console visibility.
    pub fn toggle(&mut self)
        ensures
            final(self).visible == !old(self).visible,
            final(self).messages == old(self).messages,
            final(self).input_buffer == old(self).input_buffer,
            final(self).history == old(self).history,
            final(self).max_messages == old(self).max_messages,
            final(self).max_history == old(self).max_history,
    {
        self.visible = !self.visible;
    }
}

} // verus!
