use std::collections::HashMap;
use wordbot::command::{parse_command, parse_roll, should_retry, Command, HELP_TEXT};
use wordbot::corpus::{get_line_count, get_random_line, select_line, LineCounter, LineScan};
use wordbot::dice::{render_roll, roll_dice, roll_reply, signed_text, MAX_DICE};
use wordbot::error::{BotError, NicknameIssue};
use wordbot::nickname::{
    compose_reply, contains_link, greeting, nickname_key, strip_marks, validate_nickname,
};
use wordbot::text::{decimal, parse_decimal, split_first, trim};
use wordbot::words::{first_entry, lookup_url, render_word, word_url, Definition, Meaning, WordDefinition};

fn corpus(lines: &[Option<&str>]) -> Vec<Option<String>> {
    lines.iter().map(|l| l.map(|s| s.to_string())).collect()
}

fn entry(word: &str, meanings: &[(&str, &[&str])]) -> WordDefinition {
    WordDefinition {
        word: word.to_string(),
        meanings: meanings
            .iter()
            .map(|(pos, defs)| Meaning {
                part_of_speech: pos.to_string(),
                definitions: defs
                    .iter()
                    .map(|d| Definition { definition: d.to_string() })
                    .collect(),
            })
            .collect(),
    }
}

#[test]
fn sample_line_returns_a_corpus_record() {
    let records = corpus(&[Some("apple\n"), Some("  banana "), Some("cherry")]);
    let words = ["apple", "banana", "cherry"];
    for _ in 0..50 {
        let w = get_random_line(&records, 3).unwrap();
        assert!(words.contains(&w.as_str()));
    }
}

#[test]
fn sample_line_reaches_every_index() {
    let records = corpus(&[Some(" a"), Some("b "), Some("c")]);
    assert_eq!(select_line(&records, 0), Ok("a".to_string()));
    assert_eq!(select_line(&records, 1), Ok("b".to_string()));
    assert_eq!(select_line(&records, 2), Ok("c".to_string()));
}

#[test]
fn sample_line_past_the_end_is_exhausted() {
    let records = corpus(&[Some("a")]);
    assert_eq!(select_line(&records, 1), Err(BotError::SampleExhausted));
    assert_eq!(get_random_line(&records, 0), Err(BotError::SampleExhausted));
    assert_eq!(get_random_line(&corpus(&[]), 5), Err(BotError::SampleExhausted));
}

#[test]
fn sample_line_undecoded_record_is_not_a_candidate() {
    let records = corpus(&[Some("a"), None, Some("c")]);
    assert_eq!(select_line(&records, 1), Err(BotError::SampleExhausted));
    assert_eq!(select_line(&records, 2), Ok("c".to_string()));
}

#[test]
fn line_count_skips_undecoded_records() {
    assert_eq!(get_line_count(&corpus(&[Some("a"), None, Some("c"), Some("")])), 3);
    assert_eq!(get_line_count(&corpus(&[])), 0);
    let mut c = LineCounter::new();
    c.feed(true);
    c.feed(false);
    c.feed(true);
    assert_eq!(c.total(), 2);
}

#[test]
fn line_scan_stops_after_target() {
    let mut scan = LineScan::new(1);
    assert!(!scan.is_done());
    scan.feed(Some("zero"));
    scan.feed(Some(" one "));
    assert!(scan.is_done());
    assert_eq!(scan.finish(), Ok("one".to_string()));
    assert!(LineScan::start(0).is_none());
    let mut scan = LineScan::start(1).unwrap();
    scan.feed(Some("only"));
    assert!(scan.is_done());
    assert_eq!(scan.finish(), Ok("only".to_string()));
}

#[test]
fn roll_gives_count_values_in_range() {
    for (count, sides) in [(3, 6), (1, 2), (50, 20), (1000, 3)] {
        let rolls = roll_dice(count, sides).unwrap();
        assert_eq!(rolls.len(), count as usize);
        assert!(rolls.iter().all(|&r| 1 <= r && r < sides));
    }
}

#[test]
fn roll_of_two_sides_is_always_one() {
    assert_eq!(roll_dice(4, 2), Ok(vec![1, 1, 1, 1]));
}

#[test]
fn roll_zero_dice_is_empty() {
    assert_eq!(roll_dice(0, 6), Ok(vec![]));
    assert_eq!(roll_dice(0, 100), Ok(vec![]));
}

#[test]
fn roll_invalid_arguments() {
    assert_eq!(roll_dice(3, 1), Err(BotError::InvalidArgument));
    assert_eq!(roll_dice(3, 0), Err(BotError::InvalidArgument));
    assert_eq!(roll_dice(-1, 6), Err(BotError::InvalidArgument));
    assert_eq!(roll_dice(MAX_DICE + 1, 6), Err(BotError::InvalidArgument));
    assert_eq!(roll_reply("3d1", 3, 1), Err(BotError::InvalidArgument));
}

#[test]
fn render_roll_text() {
    assert_eq!(render_roll("3d6", &vec![2, 5, 1]), "`rolls 3d6`: 2 + 5 + 1 = **8**");
    assert_eq!(render_roll("1d20", &vec![17]), "`rolls 1d20`: 17");
    assert_eq!(render_roll("0d6", &vec![]), "`rolls 0d6`: ");
    let many = vec![1; 101];
    assert_eq!(render_roll("101d2", &many), "`rolls 101d2`: (truncated) = **101**");
    let hundred = vec![1; 100];
    let text = render_roll("100d2", &hundred);
    assert!(text.starts_with("`rolls 100d2`: 1 + 1 + "));
    assert!(text.ends_with(" = **100**"));
}

#[test]
fn roll_reply_of_two_sides() {
    assert_eq!(roll_reply("2d2", 2, 2), Ok("`rolls 2d2`: 1 + 1 = **2**".to_string()));
}

#[test]
fn decimal_texts() {
    assert_eq!(decimal(0), "0");
    assert_eq!(decimal(1234567890), "1234567890");
    assert_eq!(decimal(u64::MAX), u64::MAX.to_string());
    assert_eq!(signed_text(-42), "-42");
    assert_eq!(signed_text(i64::MIN), i64::MIN.to_string());
}

#[test]
fn parse_decimal_bounds() {
    assert_eq!(parse_decimal("255", 255), Some(255));
    assert_eq!(parse_decimal("256", 255), None);
    assert_eq!(parse_decimal("", 255), None);
    assert_eq!(parse_decimal("1a", 255), None);
    assert_eq!(parse_decimal("007", 255), Some(7));
    assert_eq!(parse_decimal("99999999999999999999999", u64::MAX), None);
}

#[test]
fn trim_and_split() {
    assert_eq!(trim("  hi there \t\n"), "hi there");
    assert_eq!(trim("   "), "");
    assert_eq!(trim("\u{3000}x\u{a0}"), "x");
    assert_eq!(split_first("a b c", ' '), ("a".to_string(), Some("b c".to_string())));
    assert_eq!(split_first("abc", ' '), ("abc".to_string(), None));
    assert_eq!(split_first("abc ", ' '), ("abc".to_string(), Some(String::new())));
}

#[test]
fn parse_roll_command() {
    assert_eq!(
        parse_command("<@1> roll 3d6"),
        Command::Roll { token: "3d6".to_string(), dice: 3, sides: 6 }
    );
    assert_eq!(parse_roll("3d6"), Some((3, 6)));
}

#[test]
fn parse_roll_missing_part_is_error() {
    assert_eq!(parse_command("<@1> roll d6"), Command::BadRoll { token: "d6".to_string() });
    assert_eq!(parse_command("<@1> roll 3"), Command::BadRoll { token: "3".to_string() });
    assert_eq!(parse_command("<@1> roll 3d"), Command::BadRoll { token: "3d".to_string() });
    assert_eq!(parse_command("<@1> roll xd6"), Command::BadRoll { token: "xd6".to_string() });
    assert_eq!(parse_command("<@1> roll"), Command::MissingRoll);
    assert_eq!(parse_roll("3d6d8"), None);
}

#[test]
fn parse_other_commands() {
    assert_eq!(parse_command("<@1> help"), Command::Help);
    assert_eq!(parse_command("<@1> new"), Command::New { count: 1 });
    assert_eq!(parse_command("<@1> new 4"), Command::New { count: 4 });
    assert_eq!(parse_command("<@1> new 10"), Command::New { count: 10 });
    assert_eq!(parse_command("<@1> new 11"), Command::TooManyWords);
    assert_eq!(parse_command("<@1> new lots"), Command::New { count: 1 });
    assert_eq!(parse_command("<@1> new 300"), Command::New { count: 1 });
    assert_eq!(parse_command("<@1> define hello"), Command::Define { word: "hello".to_string() });
    assert_eq!(parse_command("<@1> define"), Command::MissingWord);
    assert_eq!(
        parse_command("<@1> nickname Big Sam"),
        Command::Nickname { text: "Big Sam".to_string() }
    );
    assert_eq!(parse_command("<@1> nickname"), Command::Nickname { text: String::new() });
    assert_eq!(parse_command("<@1> dance now"), Command::Unknown { name: "dance".to_string() });
    assert_eq!(parse_command("<@1>"), Command::Silent);
    assert!(HELP_TEXT.starts_with("`help`"));
}

#[test]
fn retry_only_on_missing_word() {
    assert!(should_retry(BotError::NotFound));
    assert!(should_retry(BotError::SampleExhausted));
    assert!(!should_retry(BotError::TransportError));
    assert!(!should_retry(BotError::ResourceUnavailable));
}

#[test]
fn resolve_missing_word_is_not_found() {
    assert_eq!(first_entry(vec![]), Err(BotError::NotFound));
}

#[test]
fn resolve_keeps_first_entry_and_order() {
    let first = entry("hello", &[("noun", &["a greeting", "an utterance"]), ("verb", &["to greet"])]);
    let second = entry("hello", &[("interjection", &["hi"])]);
    let got = first_entry(vec![first.clone(), second]).unwrap();
    assert_eq!(got, first);
    assert_eq!(got.word, "hello");
    assert_eq!(got.meanings[0].part_of_speech, "noun");
    assert_eq!(got.meanings[1].part_of_speech, "verb");
    assert_eq!(got.meanings[0].definitions[1].definition, "an utterance");
}

#[test]
fn lookup_addresses() {
    assert_eq!(word_url("hello"), "https://api.dictionaryapi.dev/api/v2/entries/en/hello");
    assert_eq!(
        word_url("ice cream?"),
        "https://api.dictionaryapi.dev/api/v2/entries/en/ice%20cream%3F"
    );
    assert_eq!(word_url("café"), "https://api.dictionaryapi.dev/api/v2/entries/en/caf%C3%A9");
    assert_eq!(lookup_url("x%20y"), "https://api.dictionaryapi.dev/api/v2/entries/en/x%20y");
}

#[test]
fn render_word_text() {
    let w = entry("hello", &[("noun", &["a greeting", "an utterance"]), ("verb", &["to greet"])]);
    assert_eq!(
        render_word(&w),
        "_**hello**_:\n`noun`:\n- a greeting\n- an utterance\n`verb`:\n- to greet"
    );
    assert_eq!(render_word(&entry("x", &[])), "_**x**_:");
}

#[test]
fn nickname_empty_rejected() {
    assert_eq!(validate_nickname("", 1), Err(BotError::ValidationFailed(NicknameIssue::Empty)));
    assert_eq!(validate_nickname(" #`\n ", 1), Err(BotError::ValidationFailed(NicknameIssue::Empty)));
}

#[test]
fn nickname_too_long_rejected() {
    let name = "a".repeat(33);
    assert_eq!(validate_nickname(&name, 1), Err(BotError::ValidationFailed(NicknameIssue::TooLong)));
    let name = "a".repeat(32);
    assert_eq!(validate_nickname(&name, 1), Ok(name.clone()));
}

#[test]
fn nickname_link_rejected() {
    assert_eq!(
        validate_nickname("see http://x", 1),
        Err(BotError::ValidationFailed(NicknameIssue::ContainsLink))
    );
    assert!(contains_link("xhttp"));
    assert!(!contains_link("htt p"));
}

#[test]
fn nickname_second_mention_rejected() {
    assert_eq!(
        validate_nickname("Sam", 2),
        Err(BotError::ValidationFailed(NicknameIssue::MentionCount))
    );
}

#[test]
fn nickname_checks_come_in_order() {
    assert_eq!(validate_nickname("", 2), Err(BotError::ValidationFailed(NicknameIssue::Empty)));
    assert_eq!(
        validate_nickname(&"http".repeat(9), 2),
        Err(BotError::ValidationFailed(NicknameIssue::TooLong))
    );
    assert_eq!(
        validate_nickname("http", 2),
        Err(BotError::ValidationFailed(NicknameIssue::ContainsLink))
    );
}

#[test]
fn nickname_accepted_and_retrievable() {
    let name = validate_nickname("  #Samantha_J ", 1).unwrap();
    assert_eq!(name, "Samantha_J");
    assert_eq!(name.chars().count(), 10);
    let mut store: HashMap<String, String> = HashMap::new();
    store.insert(nickname_key(42), name.clone());
    assert_eq!(store.get(&nickname_key(42)), Some(&name));
    assert_eq!(greeting(&name), "Hi Samantha_J!");
}

#[test]
fn nickname_marks_removed() {
    assert_eq!(strip_marks("a#b`c\nd"), "abcd");
}

#[test]
fn nickname_issue_messages() {
    assert_eq!(NicknameIssue::Empty.message(), "**Error**: A nickname must not be empty!");
    assert_eq!(
        NicknameIssue::TooLong.message(),
        "**Error**: A nickname cannot be more than 32 characters long!"
    );
    assert_eq!(NicknameIssue::ContainsLink.message(), "**Error**: A nickname cannot contain a link!");
    assert_eq!(NicknameIssue::MentionCount.message(), "**Error**: A nickname cannot mention anyone!");
}

#[test]
fn nickname_keys() {
    assert_eq!(nickname_key(123456789012345678), "nickname:123456789012345678");
    assert_ne!(nickname_key(1), nickname_key(10));
}

#[test]
fn define_reply_personalised_after_nickname_set() {
    let mut store: HashMap<String, String> = HashMap::new();
    let w = entry("hello", &[("noun", &["a greeting"])]);
    let text = render_word(&w);
    let first = compose_reply(&text, store.get(&nickname_key(7)).cloned());
    assert_eq!(first, format!("{}\n\n", text));
    let name = validate_nickname("Sam", 1).unwrap();
    store.insert(nickname_key(7), name);
    let second = compose_reply(&text, store.get(&nickname_key(7)).cloned());
    assert_eq!(second, format!("{}\n\nDoes that help, Sam?", text));
}

#[test]
fn nickname_set_twice_overwrites() {
    let mut store: HashMap<String, String> = HashMap::new();
    store.insert(nickname_key(5), validate_nickname("Sam", 1).unwrap());
    assert_eq!(store.get(&nickname_key(5)).map(|s| s.as_str()), Some("Sam"));
    store.insert(nickname_key(5), validate_nickname("Alex", 1).unwrap());
    assert_eq!(store.get(&nickname_key(5)).map(|s| s.as_str()), Some("Alex"));
    assert_eq!(store.len(), 1);
}
