use tagbot::commands::responses::{error_reply, success_reply, Outgoing, ParseMode};
use tagbot::commands::{handle_command, handle_plain_text, process_command, Command, CommandContext, IncomingMessage};
use tagbot::db::{Database, StoreChange};
use tagbot::models::UserInfo;

const HELP: &str = "Доступные команды:\n/help — показать справку по командам";

fn user(id: u64, username: Option<&str>, first_name: &str) -> UserInfo {
    UserInfo { id, username: username.map(|s| s.to_string()), first_name: first_name.to_string() }
}

fn ctx(chat_id: i64, title: Option<&str>, who: &UserInfo) -> CommandContext {
    CommandContext { chat_id, message_id: 77, chat_title: title.map(|s| s.to_string()), user: who.clone() }
}

fn plain(chat_id: i64, text: &str) -> Outgoing {
    Outgoing { chat_id, text: text.to_string(), parse_mode: ParseMode::Plain, reply_to: None, best_effort: false }
}

#[test]
fn error_and_success_replies_escape() {
    let e = error_reply(5, "a.b");
    assert_eq!(e.text, "❌ a\\.b");
    assert_eq!(e.parse_mode, ParseMode::MarkdownV2);
    let s = success_reply(5, "ok!");
    assert_eq!(s.text, "✅ ok\\!");
}

#[test]
fn join_command_replies() {
    let mut db = Database::new();
    let alice = user(1, Some("alice"), "Alice");
    let c = ctx(-10, Some("Group"), &alice);
    let out = handle_command(&c, &mut db, Command::Join("Dev_Ops".to_string()), HELP).messages;
    assert_eq!(out, vec![plain(-10, "You have been added to tag 'dev\\_ops'")]);
    let out = handle_command(&c, &mut db, Command::Join("dev_ops".to_string()), HELP).messages;
    assert_eq!(out, vec![plain(-10, "You are already in tag 'dev\\_ops'")]);
}

#[test]
fn leave_command_replies() {
    let mut db = Database::new();
    let alice = user(1, None, "Alice");
    let c = ctx(-10, None, &alice);
    handle_command(&c, &mut db, Command::Join("x.y".to_string()), HELP).messages;
    let out = handle_command(&c, &mut db, Command::Leave("x.y".to_string()), HELP).messages;
    assert_eq!(out.len(), 1);
    assert_eq!(out[0].text, "✅ You have been removed from tag 'x\\\\.y'");
    assert_eq!(out[0].parse_mode, ParseMode::MarkdownV2);
    let out = handle_command(&c, &mut db, Command::Leave("x.y".to_string()), HELP).messages;
    assert_eq!(out[0].text, "❌ You are not in tag 'x\\\\.y' or it doesn't exist");
}

#[test]
fn list_command_replies() {
    let mut db = Database::new();
    let c = ctx(-10, None, &user(1, None, "A"));
    let out = handle_command(&c, &mut db, Command::List, HELP).messages;
    assert_eq!(out, vec![plain(-10, "В этой группе пока нет тегов.")]);
    handle_command(&c, &mut db, Command::Join("<b>".to_string()), HELP).messages;
    handle_command(&c, &mut db, Command::Join("алл".to_string()), HELP).messages;
    handle_command(&ctx(-10, None, &user(2, None, "B")), &mut db, Command::Join("".to_string()), HELP).messages;
    let out = handle_command(&c, &mut db, Command::List, HELP).messages;
    assert_eq!(out.len(), 1);
    assert_eq!(out[0].text, "Теги в этой группе:\n• &lt;b&gt; (1 уч.)\n• алл (2 уч.)");
    assert_eq!(out[0].parse_mode, ParseMode::Html);
}

#[test]
fn call_command_mentions_and_notifies() {
    let mut db = Database::new();
    let alice = user(1, Some("alice"), "Alice");
    let bob = user(2, None, "Bob");
    let carol = user(3, Some("carol"), "Carol");
    let g = -50;
    for who in [&alice, &bob, &carol] {
        handle_command(&ctx(g, Some("Team <1>"), who), &mut db, Command::Join("devs".to_string()), HELP).messages;
    }
    db.register_private_user(&bob);
    db.mute_user(g, 3, "all".to_string());
    let out = handle_command(&ctx(g, Some("Team <1>"), &alice), &mut db, Command::Call("DEVS".to_string()), HELP).messages;
    assert_eq!(out.len(), 2);
    assert_eq!(out[0].text, "Вызываем тег 'devs': @alice <a href=\"tg://user?id=2\">Bob</a> @carol");
    assert_eq!(out[0].parse_mode, ParseMode::Html);
    assert!(!out[0].best_effort);
    assert_eq!(out[1].chat_id, 2);
    assert_eq!(out[1].text, "🔔 Вас вызвал/а Alice в группе Team &lt;1&gt; по тегу 'devs'!");
    assert!(out[1].best_effort);
    let out = handle_command(&ctx(g, None, &alice), &mut db, Command::Call("empty".to_string()), HELP).messages;
    assert_eq!(out, vec![plain(g, "В теге 'empty' нет пользователей")]);
}

#[test]
fn call_without_title_names_the_group_generically() {
    let mut db = Database::new();
    let bob = user(2, None, "Bob");
    db.register_private_user(&bob);
    handle_command(&ctx(-1, None, &bob), &mut db, Command::Join("".to_string()), HELP).messages;
    let out = handle_command(&ctx(-1, None, &bob), &mut db, Command::Call("".to_string()), HELP).messages;
    assert_eq!(out[1].text, "🔔 Вас вызвал/а Bob в группе этой группе по тегу 'алл'!");
}

#[test]
fn ask_picks_a_candidate() {
    let mut db = Database::new();
    let alice = user(1, Some("alice"), "Alice");
    let bob = user(2, Some("bob"), "Bob");
    handle_command(&ctx(-1, None, &alice), &mut db, Command::Join("devs".to_string()), HELP).messages;
    handle_command(&ctx(-1, None, &bob), &mut db, Command::Join("all".to_string()), HELP).messages;
    let out = handle_command(&ctx(-1, None, &alice), &mut db, Command::Ask("devs who is next".to_string()), HELP).messages;
    assert_eq!(out.len(), 1);
    assert_eq!(out[0].text, "It's @alice!");
    assert_eq!(out[0].reply_to, Some(77));
    assert_eq!(out[0].parse_mode, ParseMode::MarkdownV2);
    // An unknown first word falls back to everyone.
    let out = handle_command(&ctx(-1, None, &alice), &mut db, Command::Ask("who pays".to_string()), HELP).messages;
    assert_eq!(out[0].text, "It's @bob!");
    // A user muted for ask is not picked.
    db.mute_user(-1, 2, "ask".to_string());
    let out = handle_command(&ctx(-1, None, &alice), &mut db, Command::Ask(String::new()), HELP).messages;
    assert_eq!(out[0].text, "❌ No users in tag 'алл'");
}

#[test]
fn ask_skips_users_muted_for_all() {
    let mut db = Database::new();
    let alice = user(1, Some("alice"), "Alice");
    let bob = user(2, Some("bob"), "Bob");
    handle_command(&ctx(-1, None, &alice), &mut db, Command::Join("devs".to_string()), HELP);
    handle_command(&ctx(-1, None, &bob), &mut db, Command::Join("devs".to_string()), HELP);
    handle_command(&ctx(-1, None, &alice), &mut db, Command::Mute(String::new()), HELP);
    for _ in 0..20 {
        let out = handle_command(&ctx(-1, None, &bob), &mut db, Command::Ask("devs".to_string()), HELP).messages;
        assert_eq!(out[0].text, "It's @bob!");
    }
    let out = handle_command(&ctx(-1, None, &bob), &mut db, Command::Call("devs".to_string()), HELP).messages;
    assert_eq!(out[0].text, "Вызываем тег 'devs': @alice @bob");
}

#[test]
fn mute_and_unmute_commands() {
    let mut db = Database::new();
    let c = ctx(-1, None, &user(1, None, "A"));
    let out = handle_command(&c, &mut db, Command::Mute(" ASK ".to_string()), HELP).messages;
    assert_eq!(out, vec![plain(-1, "You have been muted for the 'ask' command and won't be mentioned by it")]);
    let out = handle_command(&c, &mut db, Command::Mute("ask".to_string()), HELP).messages;
    assert_eq!(out, vec![plain(-1, "You are already muted for this")]);
    let out = handle_command(&c, &mut db, Command::Mute(String::new()), HELP).messages;
    assert_eq!(out, vec![plain(-1, "You have been muted and won't be called in group mentions")]);
    assert_eq!(db.get_muted_count(-1), 1);
    let out = handle_command(&c, &mut db, Command::Unmute("anything".to_string()), HELP).messages;
    assert_eq!(out, vec![plain(-1, "You have been unmuted and will be called in group mentions again")]);
    let out = handle_command(&c, &mut db, Command::Unmute("ask".to_string()), HELP).messages;
    assert_eq!(out, vec![plain(-1, "You have been unmuted for the 'ask' command and can be mentioned by it again")]);
    let out = handle_command(&c, &mut db, Command::Unmute("ask".to_string()), HELP).messages;
    assert_eq!(out, vec![plain(-1, "You were not muted for this anyway")]);
}

#[test]
fn start_and_help() {
    let mut db = Database::new();
    let c = ctx(-1, None, &user(1, None, "Ann"));
    let out = handle_command(&c, &mut db, Command::Help, HELP).messages;
    assert_eq!(out, vec![plain(-1, HELP)]);
    let out = handle_command(&c, &mut db, Command::Start, HELP).messages;
    assert_eq!(
        out[0].text,
        format!(
            "Добро пожаловать, Ann! 👋\n\nЯ бот для тегов. Вы можете вступать в теги, и вас будут вызывать, когда вы понадобитесь.\n\n{}",
            HELP
        )
    );
}

#[test]
fn process_without_sender() {
    let mut db = Database::new();
    let msg = IncomingMessage { chat_id: -3, message_id: 1, chat_title: None, chat_is_private: false, from: None };
    let out = process_command(&mut db, &msg, Command::List, HELP).messages;
    assert_eq!(out, vec![plain(-3, "Не удалось определить пользователя")]);
}

#[test]
fn private_command_registers_sender() {
    let mut db = Database::new();
    let dan = user(9, None, "Dan");
    let private = IncomingMessage { chat_id: 9, message_id: 1, chat_title: None, chat_is_private: true, from: Some(dan.clone()) };
    process_command(&mut db, &private, Command::Help, HELP);
    let group = IncomingMessage { chat_id: -5, message_id: 2, chat_title: Some("G".to_string()), chat_is_private: false, from: Some(dan.clone()) };
    process_command(&mut db, &group, Command::Join("x".to_string()), HELP);
    let out = process_command(&mut db, &group, Command::Call("x".to_string()), HELP).messages;
    assert_eq!(out.len(), 2);
    assert_eq!(out[1].chat_id, 9);
}

#[test]
fn plain_text_commands() {
    let mut db = Database::new();
    let ann = user(1, None, "Ann");
    let msg = IncomingMessage { chat_id: -3, message_id: 1, chat_title: None, chat_is_private: false, from: Some(ann) };
    assert!(handle_plain_text(&mut db, &msg, "good morning", HELP).messages.is_empty());
    let out = handle_plain_text(&mut db, &msg, "джоин devs", HELP).messages;
    assert_eq!(out, vec![plain(-3, "You have been added to tag 'devs'")]);
    let out = handle_plain_text(&mut db, &msg, "лист", HELP).messages;
    assert_eq!(out[0].text, "Теги в этой группе:\n• devs (1 уч.)");
}

#[test]
fn other_users_are_untouched_by_commands() {
    let mut db = Database::new();
    let ann = user(1, None, "Ann");
    let ben = user(2, None, "Ben");
    handle_command(&ctx(-1, None, &ben), &mut db, Command::Join("t".to_string()), HELP).messages;
    handle_command(&ctx(-1, None, &ann), &mut db, Command::Leave("t".to_string()), HELP).messages;
    handle_command(&ctx(-1, None, &ann), &mut db, Command::Mute("".to_string()), HELP).messages;
    assert_eq!(db.get_tag_users(-1, "t".to_string(), None).len(), 1);
}

#[test]
fn everyone_call_leaves_out_muted_members() {
    let mut db = Database::new();
    let ann = user(1, Some("ann"), "Ann");
    let ben = user(2, None, "B&B");
    handle_command(&ctx(-7, None, &ann), &mut db, Command::Join("".to_string()), HELP);
    handle_command(&ctx(-7, None, &ben), &mut db, Command::Join("all".to_string()), HELP);
    handle_command(&ctx(-7, None, &ben), &mut db, Command::Join("devs".to_string()), HELP);
    handle_command(&ctx(-7, None, &ann), &mut db, Command::Join("devs".to_string()), HELP);
    handle_command(&ctx(-7, None, &ann), &mut db, Command::Mute("".to_string()), HELP);
    let out = handle_command(&ctx(-7, None, &ben), &mut db, Command::Call("".to_string()), HELP).messages;
    assert_eq!(out[0].text, "Вызываем тег 'алл': <a href=\"tg://user?id=2\">B&amp;B</a>");
    let out = handle_command(&ctx(-7, None, &ben), &mut db, Command::Call("devs".to_string()), HELP).messages;
    assert_eq!(out[0].text, "Вызываем тег 'devs': @ann <a href=\"tg://user?id=2\">B&amp;B</a>");
}

#[test]
fn private_plain_message_registers_sender() {
    let mut db = Database::new();
    let eve = user(11, None, "Eve");
    let private = IncomingMessage { chat_id: 11, message_id: 1, chat_title: None, chat_is_private: true, from: Some(eve.clone()) };
    let reply = handle_plain_text(&mut db, &private, "hello", HELP);
    assert!(reply.messages.is_empty());
    assert_eq!(reply.changes, vec![StoreChange::UpsertUser(eve.clone()), StoreChange::AddPrivate(11)]);
    let group = IncomingMessage { chat_id: -5, message_id: 2, chat_title: None, chat_is_private: false, from: Some(eve.clone()) };
    let reply = handle_plain_text(&mut db, &group, "hello", HELP);
    assert!(reply.changes.is_empty());
    process_command(&mut db, &group, Command::Join("x".to_string()), HELP);
    let out = process_command(&mut db, &group, Command::Call("x".to_string()), HELP).messages;
    assert_eq!(out.len(), 2);
    assert_eq!(out[1].chat_id, 11);
}

#[test]
fn replies_list_the_rows_they_change() {
    let mut db = Database::new();
    let ann = user(1, None, "Ann");
    let group = IncomingMessage { chat_id: -5, message_id: 2, chat_title: None, chat_is_private: false, from: Some(ann.clone()) };
    let reply = process_command(&mut db, &group, Command::Join(" Devs ".to_string()), HELP);
    assert_eq!(
        reply.changes,
        vec![
            StoreChange::UpsertUser(ann.clone()),
            StoreChange::UpsertUser(ann.clone()),
            StoreChange::AddTag(-5, "devs".to_string(), 1),
        ]
    );
    let reply = process_command(&mut db, &group, Command::Mute("ASK".to_string()), HELP);
    assert_eq!(reply.changes, vec![StoreChange::UpsertUser(ann.clone()), StoreChange::AddMute(-5, 1, "ask".to_string())]);
    let reply = process_command(&mut db, &group, Command::Leave("devs".to_string()), HELP);
    assert_eq!(reply.changes, vec![StoreChange::UpsertUser(ann.clone()), StoreChange::RemoveTag(-5, "devs".to_string(), 1)]);
    let reply = process_command(&mut db, &group, Command::Unmute("ask".to_string()), HELP);
    assert_eq!(reply.changes, vec![StoreChange::UpsertUser(ann.clone()), StoreChange::RemoveMute(-5, 1, "ask".to_string())]);
    let reply = process_command(&mut db, &group, Command::List, HELP);
    assert_eq!(reply.changes, vec![StoreChange::UpsertUser(ann)]);
}
