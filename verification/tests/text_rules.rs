use tagbot::commands::{normalize_word, parse_plain_command, split_first_word, word_from_lowered, Command, Tag};
use tagbot::models::UserInfo;
use tagbot::commands::mute::{mute_type_from_lowered, parse_mute_type};
use tagbot::text::{escape_html, escape_markdown, is_white, push_decimal, trim};

#[test]
fn markdown_escape_backslashes_special_characters() {
    assert_eq!(escape_markdown("a_b*c"), "a\\_b\\*c");
    assert_eq!(escape_markdown("tag.name!"), "tag\\.name\\!");
    assert_eq!(escape_markdown("[x](y)"), "\\[x\\]\\(y\\)");
    assert_eq!(escape_markdown("привет"), "привет");
    assert_eq!(escape_markdown(""), "");
}

#[test]
fn html_escape_writes_entities() {
    assert_eq!(escape_html("<b>&</b>"), "&lt;b&gt;&amp;&lt;/b&gt;");
    assert_eq!(escape_html("plain text"), "plain text");
    assert_eq!(escape_html(""), "");
}

#[test]
fn decimal_rendering() {
    let mut s = String::from("n=");
    push_decimal(&mut s, 0);
    assert_eq!(s, "n=0");
    let mut s = String::new();
    push_decimal(&mut s, 1234567890);
    assert_eq!(s, "1234567890");
    let mut s = String::new();
    push_decimal(&mut s, u64::MAX);
    assert_eq!(s, "18446744073709551615");
}

#[test]
fn mute_type_reads_ask_or_all() {
    assert_eq!(parse_mute_type(" ASK\t"), "ask");
    assert_eq!(parse_mute_type("\u{3000}Ask\u{a0}"), "ask");
    assert_eq!(parse_mute_type("asking"), "all");
    assert_eq!(parse_mute_type(""), "all");
    assert_eq!(normalize_word("\u{2003}ДЖОИН\n"), "join");
}

#[test]
fn normalize_word_maps_russian_spellings() {
    assert_eq!(normalize_word("  Калл "), "call");
    assert_eq!(normalize_word("колл"), "call");
    assert_eq!(normalize_word("ЛИВ"), "leave");
    assert_eq!(normalize_word("джоин"), "join");
    assert_eq!(normalize_word("Жоин"), "join");
    assert_eq!(normalize_word("лист"), "list");
    assert_eq!(normalize_word("хелп"), "help");
    assert_eq!(normalize_word("Помощь"), "help");
    assert_eq!(normalize_word("Call"), "call");
    assert_eq!(normalize_word("whatever"), "whatever");
}

#[test]
fn tag_names_default_to_everyone() {
    assert_eq!(Tag::new(String::new()).as_ref(), "алл");
    assert_eq!(Tag::new("   ".to_string()).as_ref(), "алл");
    assert_eq!(Tag::new(" ALL ".to_string()).as_ref(), "алл");
    assert_eq!(Tag::new("все".to_string()).as_ref(), "алл");
    assert_eq!(Tag::new("Всё".to_string()).as_ref(), "алл");
    assert_eq!(Tag::new(" Developers ".to_string()).as_ref(), "developers");
    assert_eq!(Tag::new("devs".to_string()).to_string(), "devs");
    let once = Tag::new("  Back-End ".to_string()).to_string();
    assert_eq!(Tag::new(once.clone()).to_string(), once);
    assert_eq!(normalize_word(&normalize_word(" JOIN ")), "join");
}

#[test]
fn first_word_split() {
    assert_eq!(split_first_word("call devs now"), ("call", "devs now"));
    assert_eq!(split_first_word("list"), ("list", ""));
    assert_eq!(split_first_word(" x"), ("", "x"));
    assert_eq!(split_first_word(""), ("", ""));
}

#[test]
fn plain_commands_are_recognised() {
    assert_eq!(parse_plain_command("колл devs"), Some(Command::Call("devs".to_string())));
    assert_eq!(parse_plain_command("call"), Some(Command::Call(String::new())));
    assert_eq!(parse_plain_command("Join designers"), Some(Command::Join("designers".to_string())));
    assert_eq!(parse_plain_command("лив devs"), Some(Command::Leave("devs".to_string())));
    assert_eq!(parse_plain_command("лист"), Some(Command::List));
    assert_eq!(parse_plain_command("помощь please"), Some(Command::Help));
    assert_eq!(parse_plain_command("ask who pays"), Some(Command::Ask("who pays".to_string())));
    assert_eq!(parse_plain_command("mute ask"), Some(Command::Mute("ask".to_string())));
    assert_eq!(parse_plain_command("unmute"), Some(Command::Unmute(String::new())));
    assert_eq!(parse_plain_command("hello there"), None);
    assert_eq!(parse_plain_command(" call devs"), None);
    assert_eq!(parse_plain_command("start"), None);
}

#[test]
fn mentions_use_username_or_link() {
    let with_name = UserInfo { id: 7, username: Some("john_doe".to_string()), first_name: "John".to_string() };
    assert_eq!(with_name.mention(), "@john\\_doe");
    let without = UserInfo { id: 42, username: None, first_name: "Иван.".to_string() };
    assert_eq!(without.mention(), "[Иван\\.](tg://user?id=42)");
}

#[test]
fn rules_on_lowered_text() {
    assert_eq!(word_from_lowered("колл"), "call");
    assert_eq!(word_from_lowered("помощь"), "help");
    assert_eq!(word_from_lowered("call"), "call");
    assert_eq!(word_from_lowered("Калл"), "Калл");
    assert_eq!(Tag::from_lowered("").as_ref(), "алл");
    assert_eq!(Tag::from_lowered("всё").as_ref(), "алл");
    assert_eq!(Tag::from_lowered("All").as_ref(), "All");
    assert_eq!(Tag::from_lowered("devs").as_ref(), "devs");
    assert_eq!(mute_type_from_lowered("ask"), "ask");
    assert_eq!(mute_type_from_lowered(" ask"), "all");
}

#[test]
fn html_mentions() {
    let with_name = UserInfo { id: 7, username: Some("john_doe".to_string()), first_name: "John".to_string() };
    assert_eq!(with_name.mention_html(), "@john_doe");
    let without = UserInfo { id: 42, username: None, first_name: "<Ivan>".to_string() };
    assert_eq!(without.mention_html(), "<a href=\"tg://user?id=42\">&lt;Ivan&gt;</a>");
}

#[test]
fn trimming_follows_unicode_whitespace() {
    assert_eq!(trim("\u{3000} a b \t\n\u{85}"), "a b");
    assert_eq!(trim("   "), "");
    assert_eq!(trim(""), "");
    assert_eq!(trim("\u{200b}x\u{200b}"), "\u{200b}x\u{200b}");
    for c in ['\u{9}', ' ', '\u{a0}', '\u{2028}', '\u{3000}', 'a', '\u{200b}', '\u{feff}'] {
        assert_eq!(is_white(c), c.is_whitespace());
    }
    let sample = " \u{2003}Tag\u{2009} ";
    assert_eq!(trim(sample), sample.trim());
}
