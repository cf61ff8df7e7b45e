//! Dictionary entries: the lookup address, the choice of entry, and how an
//! entry is written out.
use crate::error::BotError;
use vstd::prelude::*;

verus! {

/// One definition of a word.
#[derive(Clone, Debug, PartialEq, Eq)]
pub struct Definition {
    pub definition: String,
}

/// The definitions of a word for one part of speech, in the dictionary's order.
#[derive(Clone, Debug, PartialEq, Eq)]
pub struct Meaning {
    pub definitions: Vec<Definition>,
    pub part_of_speech: String,
}

/// A dictionary entry: a word and its meanings, in the dictionary's order.
#[derive(Clone, Debug, PartialEq, Eq)]
pub struct WordDefinition {
    pub word: String,
    pub meanings: Vec<Meaning>,
}

/// The address of the lookup service, up to the word.
pub open spec fn lookup_base() -> Seq<char> {
    "https://api.dictionaryapi.dev/api/v2/entries/en/"@
}

/// What `url_escape::encode_path` makes of a text: each character of the path
/// percent-encode set, and each character beyond `~`, is written as the
/// percent-encoded bytes of its UTF-8 form.
pub uninterp spec fn path_escaped(s: Seq<char>) -> Seq<char>;

/// Whether `c` is an ASCII letter or digit.
pub open spec fn is_ascii_alnum(c: char) -> bool {
    ('a' <= c && c <= 'z') || ('A' <= c && c <= 'Z') || ('0' <= c && c <= '9')
}

/// Relies on url_escape::encode_path, which escapes control characters, space,
/// `"`, `#`, `<`, `>`, `?`, `^`, `` ` ``, `{`, `}` and everything above `~`, and
/// nothing else: letters and digits pass unchanged.
#[verifier::external_body]
fn escape_path(s: &str) -> (r: String)
    ensures
        r@ == path_escaped(s@),
        (forall|i: int| 0 <= i < s@.len() ==> is_ascii_alnum(#[trigger] s@[i])) ==> r@ == s@,
{
    url_escape::encode_path(s).into_owned()
}

/// The lookup address for a word that is already escaped for a URL path.
pub fn lookup_url(escaped: &str) -> (r: String)
    ensures
        r@ == lookup_base() + escaped@,
{
    let mut r = String::from_str("https://api.dictionaryapi.dev/api/v2/entries/en/");
    r.append(escaped);
    r
}

/// The lookup address for `word`, escaped for a URL path.
pub fn word_url(word: &str) -> (r: String)
    ensures
        r@ == lookup_base() + path_escaped(word@),
{
    let escaped = escape_path(word);
    lookup_url(escaped.as_str())
}

/// Picks the entry that a lookup resolves to: the first of those the service
/// returned, or `NotFound` when it returned none.
pub fn first_entry(entries: Vec<WordDefinition>) -> (r: Result<WordDefinition, BotError>)
    ensures
        entries@.len() == 0 ==> r == Err::<WordDefinition, BotError>(BotError::NotFound),
        entries@.len() > 0 ==> r == Ok::<WordDefinition, BotError>(entries@[0]),
{
    let mut entries = entries;
    if entries.len() == 0 {
        Err(BotError::NotFound)
    } else {
        Ok(entries.remove(0))
    }
}

/// The lines that list definitions, one per definition, in order.
pub open spec fn definitions_text(ds: Seq<Definition>) -> Seq<char>
    decreases ds.len(),
{
    if ds.len() == 0 {
        Seq::empty()
    } else {
        definitions_text(ds.drop_last()) + "\n- "@ + ds.last().definition@
    }
}

/// A part of speech followed by its definitions.
pub open spec fn meaning_text(m: Meaning) -> Seq<char> {
    "\n`"@ + m.part_of_speech@ + "`:"@ + definitions_text(m.definitions@)
}

/// The meanings, one after the other, in order.
pub open spec fn meanings_text(ms: Seq<Meaning>) -> Seq<char>
    decreases ms.len(),
{
    if ms.len() == 0 {
        Seq::empty()
    } else {
        meanings_text(ms.drop_last()) + meaning_text(ms.last())
    }
}

/// An entry as the bot writes it: the word in bold italics, then its meanings.
pub open spec fn word_text(w: WordDefinition) -> Seq<char> {
    "_**"@ + w.word@ + "**_:"@ + meanings_text(w.meanings@)
}

fn append_meaning(r: &mut String, m: &Meaning)
    ensures
        final(r)@ == old(r)@ + meaning_text(*m),
{
    r.append("\n`");
    r.append(m.part_of_speech.as_str());
    r.append("`:");
    let ghost start = r@;
    let mut i: usize = 0;
    while i < m.definitions.len()
        invariant
            i <= m.definitions@.len(),
            r@ == start + definitions_text(m.definitions@.take(i as int)),
        decreases m.definitions@.len() - i,
    {
        assert(m.definitions@.take(i + 1).drop_last() =~= m.definitions@.take(i as int));
        r.append("\n- ");
        r.append(m.definitions[i].definition.as_str());
        i = i + 1;
    }
    assert(m.definitions@.take(i as int) =~= m.definitions@);
    assert(final(r)@ =~= old(r)@ + meaning_text(*m));
}

/// Writes out an entry: the word, then each part of speech with its
/// definitions, in the entry's order.
pub fn render_word(w: &WordDefinition) -> (r: String)
    ensures
        r@ == word_text(*w),
{
    let mut r = String::from_str("_**");
    r.append(w.word.as_str());
    r.append("**_:");
    let ghost start = r@;
    let mut i: usize = 0;
    while i < w.meanings.len()
        invariant
            i <= w.meanings@.len(),
            r@ == start + meanings_text(w.meanings@.take(i as int)),
        decreases w.meanings@.len() - i,
    {
        assert(w.meanings@.take(i + 1).drop_last() =~= w.meanings@.take(i as int));
        append_meaning(&mut r, &w.meanings[i]);
        i = i + 1;
    }
    assert(w.meanings@.take(i as int) =~= w.meanings@);
    assert(r@ =~= word_text(*w));
    r
}

} // verus!
