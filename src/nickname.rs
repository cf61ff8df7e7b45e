//! Nicknames: which are accepted, where they are stored, and how a reply
//! addresses the user by one.
use crate::error::{BotError, NicknameIssue};
use crate::text::{decimal, decimal_of, lemma_decimal_injective, opt_view, slice_of, trim, trimmed};
use vstd::prelude::*;

verus! {

/// The most characters a nickname may have.
pub const MAX_NICKNAME_CHARS: usize = 32;

/// Characters dropped from a nickname before it is checked.
pub open spec fn is_mark(c: char) -> bool {
    c == '#' || c == '\n' || c == '`'
}

/// `s` without its marks.
pub open spec fn without_marks(s: Seq<char>) -> Seq<char>
    decreases s.len(),
{
    if s.len() == 0 {
        Seq::empty()
    } else if is_mark(s.last()) {
        without_marks(s.drop_last())
    } else {
        without_marks(s.drop_last()).push(s.last())
    }
}

/// Whether `s` holds `http` somewhere.
pub open spec fn has_link(s: Seq<char>) -> bool {
    exists|i: int| 0 <= i && i + 4 <= s.len() && #[trigger] s.subrange(i, i + 4) == seq!['h', 't', 't', 'p']
}

/// The nickname that a text asks for: its marks removed, then trimmed.
pub open spec fn cleaned_nickname(text: Seq<char>) -> Seq<char> {
    trimmed(without_marks(text))
}

/// The outcome of checking a nickname text sent in a message with `mentions`
/// mentions. The checks come in this order: empty, too long, a link, and a
/// mention of anyone besides the bot.
pub open spec fn nickname_check(text: Seq<char>, mentions: nat) -> Result<Seq<char>, NicknameIssue> {
    let name = cleaned_nickname(text);
    if name.len() == 0 {
        Err(NicknameIssue::Empty)
    } else if name.len() > MAX_NICKNAME_CHARS {
        Err(NicknameIssue::TooLong)
    } else if has_link(name) {
        Err(NicknameIssue::ContainsLink)
    } else if mentions != 1 {
        Err(NicknameIssue::MentionCount)
    } else {
        Ok(name)
    }
}

/// `s` without its marks.
pub fn strip_marks(s: &str) -> (r: String)
    ensures
        r@ == without_marks(s@),
{
    let n = s.unicode_len();
    let mut r = String::new();
    let mut i: usize = 0;
    while i < n
        invariant
            n == s@.len(),
            i <= n,
            r@ == without_marks(s@.take(i as int)),
        decreases n - i,
    {
        assert(s@.take(i + 1).drop_last() =~= s@.take(i as int));
        let c = s.get_char(i);
        if !(c == '#' || c == '\n' || c == '`') {
            let one = slice_of(s, i, i + 1);
            assert(one@ =~= seq![c]);
            r.append(one.as_str());
        }
        i = i + 1;
    }
    assert(s@.take(n as int) =~= s@);
    r
}

/// Whether `s` holds `http` somewhere.
pub fn contains_link(s: &str) -> (r: bool)
    ensures
        r == has_link(s@),
{
    let n = s.unicode_len();
    if n < 4 {
        return false;
    }
    let mut i: usize = 0;
    while i <= n - 4
        invariant
            n == s@.len(),
            n >= 4,
            i <= n - 3,
            forall|k: int| 0 <= k < i ==> #[trigger] s@.subrange(k, k + 4) != seq!['h', 't', 't', 'p'],
        decreases n - i,
    {
        if s.get_char(i) == 'h' && s.get_char(i + 1) == 't' && s.get_char(i + 2) == 't'
            && s.get_char(i + 3) == 'p' {
            assert(s@.subrange(i as int, i + 4) =~= seq!['h', 't', 't', 'p']);
            return true;
        }
        assert(s@.subrange(i as int, i + 4)[0] == s@[i as int]);
        assert(s@.subrange(i as int, i + 4)[1] == s@[i + 1]);
        assert(s@.subrange(i as int, i + 4)[2] == s@[i + 2]);
        assert(s@.subrange(i as int, i + 4)[3] == s@[i + 3]);
        i = i + 1;
    }
    proof {
        lemma_no_link(s@, i as int);
    }
    false
}

proof fn lemma_no_link(s: Seq<char>, i: int)
    requires
        i + 4 > s.len(),
        forall|k: int| 0 <= k < i ==> #[trigger] s.subrange(k, k + 4) != seq!['h', 't', 't', 'p'],
    ensures
        !has_link(s),
{
}

/// Checks the nickname asked for by `text`, sent in a message with `mentions`
/// mentions, and returns it cleaned where it is accepted.
pub fn validate_nickname(text: &str, mentions: usize) -> (r: Result<String, BotError>)
    ensures
        match nickname_check(text@, mentions as nat) {
            Ok(name) => r is Ok && r->Ok_0@ == name,
            Err(issue) => r == Err::<String, BotError>(BotError::ValidationFailed(issue)),
        },
{
    let stripped = strip_marks(text);
    let name = trim(stripped.as_str());
    let len = name.as_str().unicode_len();
    if len == 0 {
        Err(BotError::ValidationFailed(NicknameIssue::Empty))
    } else if len > MAX_NICKNAME_CHARS {
        Err(BotError::ValidationFailed(NicknameIssue::TooLong))
    } else if contains_link(name.as_str()) {
        Err(BotError::ValidationFailed(NicknameIssue::ContainsLink))
    } else if mentions != 1 {
        Err(BotError::ValidationFailed(NicknameIssue::MentionCount))
    } else {
        Ok(name)
    }
}

impl NicknameIssue {
    /// The text sent back to the user.
    pub fn message(&self) -> (r: &'static str)
        ensures
            r@ == match self {
                NicknameIssue::Empty => "**Error**: A nickname must not be empty!"@,
                NicknameIssue::TooLong => "**Error**: A nickname cannot be more than 32 characters long!"@,
                NicknameIssue::ContainsLink => "**Error**: A nickname cannot contain a link!"@,
                NicknameIssue::MentionCount => "**Error**: A nickname cannot mention anyone!"@,
            },
    {
        match self {
            NicknameIssue::Empty => "**Error**: A nickname must not be empty!",
            NicknameIssue::TooLong => "**Error**: A nickname cannot be more than 32 characters long!",
            NicknameIssue::ContainsLink => "**Error**: A nickname cannot contain a link!",
            NicknameIssue::MentionCount => "**Error**: A nickname cannot mention anyone!",
        }
    }
}

/// The store key of a user's nickname: `nickname:` and the user's id in decimal.
pub open spec fn nickname_key_of(user_id: u64) -> Seq<char> {
    "nickname:"@ + decimal_of(user_id as nat)
}

/// The store key of a user's nickname.
pub fn nickname_key(user_id: u64) -> (r: String)
    ensures
        r@ == nickname_key_of(user_id),
{
    let mut r = String::from_str("nickname:");
    let id = decimal(user_id);
    r.append(id.as_str());
    r
}

/// The reply to a nickname that was set.
pub fn greeting(name: &str) -> (r: String)
    ensures
        r@ == "Hi "@ + name@ + "!"@,
{
    let mut r = String::from_str("Hi ");
    r.append(name);
    r.append("!");
    r
}

/// The line that closes a reply to a user with a nickname.
pub open spec fn closing_line(name: Seq<char>) -> Seq<char> {
    "Does that help, "@ + name + "?"@
}

/// A reply: the text, a blank line, and the closing line where the user has a
/// nickname.
pub open spec fn reply_text(text: Seq<char>, nickname: Option<Seq<char>>) -> Seq<char> {
    text + "\n\n"@ + match nickname {
        Some(name) => closing_line(name),
        None => Seq::empty(),
    }
}

/// Completes a reply for a user whose stored nickname, if any could be read,
/// is `nickname`.
pub fn compose_reply(text: &str, nickname: Option<String>) -> (r: String)
    ensures
        r@ == reply_text(text@, opt_view(nickname)),
{
    let mut r = String::from_str(text);
    r.append("\n\n");
    match nickname {
        Some(name) => {
            r.append("Does that help, ");
            r.append(name.as_str());
            r.append("?");
        },
        None => {},
    }
    r
}

/// The nickname that a key-value store holds for a user, read under the
/// user's key; none where the key is unset.
pub open spec fn stored_nickname(store: Map<Seq<char>, Seq<char>>, user_id: u64) -> Option<Seq<char>> {
    let key = nickname_key_of(user_id);
    if store.contains_key(key) {
        Some(store[key])
    } else {
        None
    }
}

/// A key-value store after the user's nickname is written under the user's
/// key; a write replaces what the key held.
pub open spec fn with_nickname(store: Map<Seq<char>, Seq<char>>, user_id: u64, name: Seq<char>) -> Map<
    Seq<char>,
    Seq<char>,
> {
    store.insert(nickname_key_of(user_id), name)
}

/// Setting a nickname and then reading it gives the name set; a second set
/// replaces the first rather than adding to it.
pub proof fn lemma_nickname_round_trip(
    store: Map<Seq<char>, Seq<char>>,
    user_id: u64,
    first: Seq<char>,
    second: Seq<char>,
)
    ensures
        stored_nickname(with_nickname(store, user_id, first), user_id) == Some(first),
        stored_nickname(with_nickname(with_nickname(store, user_id, first), user_id, second), user_id)
            == Some(second),
{
}

/// Setting one user's nickname leaves every other user's nickname as it was.
pub proof fn lemma_nickname_per_user(
    store: Map<Seq<char>, Seq<char>>,
    user_id: u64,
    other: u64,
    name: Seq<char>,
)
    requires
        user_id != other,
    ensures
        stored_nickname(with_nickname(store, user_id, name), other) == stored_nickname(store, other),
{
    let p = "nickname:"@;
    let ku = nickname_key_of(user_id);
    let ko = nickname_key_of(other);
    if ku == ko {
        assert(ku.subrange(p.len() as int, ku.len() as int) =~= decimal_of(user_id as nat));
        assert(ko.subrange(p.len() as int, ko.len() as int) =~= decimal_of(other as nat));
        lemma_decimal_injective(user_id as nat, other as nat);
    }
}

/// Once a user's nickname is accepted and stored, a reply to that user ends
/// with the closing line that names it, whatever the store held before.
pub proof fn lemma_reply_after_nickname(
    store: Map<Seq<char>, Seq<char>>,
    user_id: u64,
    text: Seq<char>,
    mentions: nat,
    reply: Seq<char>,
)
    requires
        nickname_check(text, mentions) is Ok,
    ensures
        reply_text(
            reply,
            stored_nickname(with_nickname(store, user_id, nickname_check(text, mentions)->Ok_0), user_id),
        ) == reply + "\n\n"@ + closing_line(nickname_check(text, mentions)->Ok_0),
{
}

} // verus!
