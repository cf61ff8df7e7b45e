//! Commands addressed to the bot: how a message is read, and which failures of
//! a word lookup are worth another draw.
use crate::error::BotError;
use crate::text::{decimal_value, head_of, parse_decimal, split_first, tail_of};
use vstd::prelude::*;

verus! {

/// The most words one `new` command may ask for.
pub const MAX_NEW_WORDS: u8 = 10;

/// The usage text that `help` sends.
pub const HELP_TEXT: &'static str = "`help` - This help message.
`new <optional:number>` - Randomly defines a word. The optional number lets you do up to 10.
`define <word>` - Pulls up the definition for a given word.
`roll <count>d<sides>` - Roll a dice, ex. `roll 1d20`.
`nickname <name>` - Sets a nickname for the bot to call you.";

/// The reply to a `new` command that asks for too many words.
pub const TOO_MANY_WORDS_TEXT: &'static str = "cannot send more than 10 words at once!";

/// A message addressed to the bot, read as a command.
#[derive(Clone, Debug, PartialEq, Eq)]
pub enum Command {
    /// Send the usage text.
    Help,
    /// Define `count` random words.
    New { count: u8 },
    /// `new` asked for more words than allowed.
    TooManyWords,
    /// Define the given word.
    Define { word: String },
    /// `define` without a word.
    MissingWord,
    /// Roll `dice` dice with faces `1..sides`, as the token `token` asked.
    Roll { token: String, dice: i32, sides: i32 },
    /// `roll` with a token that is not `<count>d<sides>`.
    BadRoll { token: String },
    /// `roll` without a token.
    MissingRoll,
    /// Set the sender's nickname from `text`, everything after the command word.
    Nickname { text: String },
    /// A command word the bot does not know.
    Unknown { name: String },
    /// Nothing follows the mention.
    Silent,
}

/// What a message means, over character sequences.
pub enum CommandView {
    Help,
    New(nat),
    TooManyWords,
    Define(Seq<char>),
    MissingWord,
    Roll(Seq<char>, int, int),
    BadRoll(Seq<char>),
    MissingRoll,
    Nickname(Seq<char>),
    Unknown(Seq<char>),
    Silent,
}

impl View for Command {
    type V = CommandView;

    open spec fn view(&self) -> CommandView {
        match self {
            Command::Help => CommandView::Help,
            Command::New { count } => CommandView::New(*count as nat),
            Command::TooManyWords => CommandView::TooManyWords,
            Command::Define { word } => CommandView::Define(word@),
            Command::MissingWord => CommandView::MissingWord,
            Command::Roll { token, dice, sides } => CommandView::Roll(token@, *dice as int, *sides as int),
            Command::BadRoll { token } => CommandView::BadRoll(token@),
            Command::MissingRoll => CommandView::MissingRoll,
            Command::Nickname { text } => CommandView::Nickname(text@),
            Command::Unknown { name } => CommandView::Unknown(name@),
            Command::Silent => CommandView::Silent,
        }
    }
}

/// The dice count and the number of sides that a token `<count>d<sides>`
/// names: both decimal, each at most `i32::MAX`, split at the first `d`.
pub open spec fn roll_parts(token: Seq<char>) -> Option<(int, int)> {
    match tail_of(token, 'd') {
        None => None,
        Some(sides) => match (
            decimal_value(head_of(token, 'd'), i32::MAX as nat),
            decimal_value(sides, i32::MAX as nat),
        ) {
            (Some(d), Some(s)) => Some((d as int, s as int)),
            _ => None,
        },
    }
}

/// How many words a `new` command asks for: its argument read as a number up
/// to 255, or one where there is no such argument.
pub open spec fn new_count(arg: Option<Seq<char>>) -> nat {
    match arg {
        Some(a) => match decimal_value(a, 255) {
            Some(v) => v,
            None => 1,
        },
        None => 1,
    }
}

/// What a message means. Its words are separated by single spaces; the first
/// is the mention that addressed the bot, the second names the command, and
/// the third, if any, is its argument.
pub open spec fn command_of(content: Seq<char>) -> CommandView {
    match tail_of(content, ' ') {
        None => CommandView::Silent,
        Some(rest) => {
            let name = head_of(rest, ' ');
            let args = tail_of(rest, ' ');
            let arg = match args {
                Some(a) => Some(head_of(a, ' ')),
                None => None,
            };
            if name == "help"@ {
                CommandView::Help
            } else if name == "new"@ {
                if new_count(arg) > MAX_NEW_WORDS {
                    CommandView::TooManyWords
                } else {
                    CommandView::New(new_count(arg))
                }
            } else if name == "define"@ {
                match arg {
                    Some(w) => CommandView::Define(w),
                    None => CommandView::MissingWord,
                }
            } else if name == "roll"@ {
                match arg {
                    Some(t) => match roll_parts(t) {
                        Some((d, s)) => CommandView::Roll(t, d, s),
                        None => CommandView::BadRoll(t),
                    },
                    None => CommandView::MissingRoll,
                }
            } else if name == "nickname"@ {
                match args {
                    Some(a) => CommandView::Nickname(a),
                    None => CommandView::Nickname(Seq::empty()),
                }
            } else {
                CommandView::Unknown(name)
            }
        },
    }
}

/// Reads a dice token `<count>d<sides>`.
pub fn parse_roll(token: &str) -> (r: Option<(i32, i32)>)
    ensures
        match roll_parts(token@) {
            Some((d, s)) => r == Some((d as i32, s as i32)),
            None => r is None,
        },
{
    let (head, tail) = split_first(token, 'd');
    match tail {
        None => None,
        Some(sides) => {
            let d = parse_decimal(head.as_str(), 0x7fff_ffff);
            let s = parse_decimal(sides.as_str(), 0x7fff_ffff);
            match (d, s) {
                (Some(d), Some(s)) => Some((d as i32, s as i32)),
                _ => None,
            }
        },
    }
}

fn is_word(s: &String, w: &str) -> (r: bool)
    ensures
        r == (s@ == w@),
{
    let n = w.unicode_len();
    if s.as_str().unicode_len() != n {
        return false;
    }
    let mut i: usize = 0;
    while i < n
        invariant
            n == w@.len() == s@.len(),
            i <= n,
            forall|k: int| 0 <= k < i ==> s@[k] == w@[k],
        decreases n - i,
    {
        if s.as_str().get_char(i) != w.get_char(i) {
            return false;
        }
        i = i + 1;
    }
    assert(s@ =~= w@);
    true
}

/// Reads a message addressed to the bot.
pub fn parse_command(content: &str) -> (r: Command)
    ensures
        r@ == command_of(content@),
{
    let (_, rest) = split_first(content, ' ');
    let rest = match rest {
        None => return Command::Silent,
        Some(rest) => rest,
    };
    let (name, args) = split_first(rest.as_str(), ' ');
    let arg = match &args {
        Some(a) => Some(split_first(a.as_str(), ' ').0),
        None => None,
    };
    if is_word(&name, "help") {
        Command::Help
    } else if is_word(&name, "new") {
        let count: u8 = match &arg {
            Some(a) => match parse_decimal(a.as_str(), 255) {
                Some(v) => v as u8,
                None => 1,
            },
            None => 1,
        };
        if count > MAX_NEW_WORDS {
            Command::TooManyWords
        } else {
            Command::New { count }
        }
    } else if is_word(&name, "define") {
        match arg {
            Some(word) => Command::Define { word },
            None => Command::MissingWord,
        }
    } else if is_word(&name, "roll") {
        match arg {
            Some(token) => match parse_roll(token.as_str()) {
                Some((dice, sides)) => Command::Roll { token, dice, sides },
                None => Command::BadRoll { token },
            },
            None => Command::MissingRoll,
        }
    } else if is_word(&name, "nickname") {
        match args {
            Some(text) => Command::Nickname { text },
            None => Command::Nickname { text: String::new() },
        }
    } else {
        Command::Unknown { name }
    }
}

/// Whether a failed attempt to find a random word calls for another draw:
/// a word the dictionary lacks, or a draw that found no record, is expected
/// and retried; other failures are reported.
pub fn should_retry(e: BotError) -> (r: bool)
    ensures
        r == (e == BotError::NotFound || e == BotError::SampleExhausted),
{
    match e {
        BotError::NotFound => true,
        BotError::SampleExhausted => true,
        _ => false,
    }
}

} // verus!
