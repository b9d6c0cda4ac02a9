//! Commands: how text becomes a command and a tag, and what each command
//! answers.
pub mod ask;
pub mod call;
pub mod join;
pub mod leave;
pub mod list;
pub mod mute;
pub mod responses;
pub mod unmute;

use vstd::prelude::*;

use crate::commands::ask::{ask_outcome, handle_ask};
use crate::commands::call::{call_outcome, handle_call};
use crate::commands::join::{handle_join, join_text};
use crate::commands::leave::{handle_leave, leave_reply};
use crate::commands::list::{handle_list, list_outcome};
use crate::commands::mute::{handle_mute, mute_kind, mute_text, parse_mute_type};
use crate::commands::responses::{message, new_message, outgoing_views, Outgoing, OutgoingView, ParseMode};
use crate::commands::unmute::{handle_unmute, unmute_text};
use crate::db::{
    apply_change, apply_changes, change_views, everyone_tag, lemma_apply_changes_append, ChangeView, Database, DbView,
    StoreChange,
};
use crate::models::{copy_user, opt_text, UserInfo, UserView};
use crate::text::{ascii_lowercase, concat2, is_ascii_text, lowercase, owned, same_text, to_lowercase, trim, trimmed};

verus! {

// ---------------------------------------------------------------------------
// Command words
// ---------------------------------------------------------------------------

/// The Russian spellings of command words that the bot accepts.
pub open spec fn word_alias(w: Seq<char>) -> Seq<char> {
    if w == "калл"@ || w == "колл"@ {
        "call"@
    } else if w == "лив"@ {
        "leave"@
    } else if w == "джоин"@ || w == "жоин"@ {
        "join"@
    } else if w == "лист"@ {
        "list"@
    } else if w == "хелп"@ || w == "помощь"@ {
        "help"@
    } else {
        w
    }
}

/// A word trimmed, lower-cased, and mapped from its Russian spelling.
pub open spec fn normalized_word(word: Seq<char>) -> Seq<char> {
    word_alias(lowercase(trimmed(word)))
}

/// Maps an already trimmed and lower-cased command word from its Russian
/// spelling (see `word_alias`).
pub fn word_from_lowered(w: &str) -> (r: String)
    ensures
        r@ == word_alias(w@),
{
    if same_text(w, "калл") || same_text(w, "колл") {
        owned("call")
    } else if same_text(w, "лив") {
        owned("leave")
    } else if same_text(w, "джоин") || same_text(w, "жоин") {
        owned("join")
    } else if same_text(w, "лист") {
        owned("list")
    } else if same_text(w, "хелп") || same_text(w, "помощь") {
        owned("help")
    } else {
        owned(w)
    }
}

/// Normalizes a command word: trims it, lower-cases it, and maps the
/// Russian spellings to `call`, `leave`, `join`, `list` and `help`.
pub fn normalize_word(word: &str) -> (r: String)
    ensures
        r@ == normalized_word(word@),
        is_ascii_text(trimmed(word@)) ==> r@ == word_alias(ascii_lowercase(trimmed(word@))),
{
    let w = to_lowercase(trim(word));
    word_from_lowered(w.as_str())
}

// ---------------------------------------------------------------------------
// Tags
// ---------------------------------------------------------------------------

/// The tag that an already trimmed and lower-cased name stands for: the
/// empty name and `all`, `все`, `всё` all mean the tag `алл`.
pub open spec fn tag_alias(t: Seq<char>) -> Seq<char> {
    if t.len() == 0 || t == "all"@ || t == "все"@ || t == "всё"@ {
        everyone_tag()
    } else {
        t
    }
}

/// The tag named by `raw`: trimmed and lower-cased, then read by `tag_alias`.
pub open spec fn tag_text(raw: Seq<char>) -> Seq<char> {
    tag_alias(lowercase(trimmed(raw)))
}

/// A tag name.
pub struct Tag(String);

impl View for Tag {
    type V = Seq<char>;

    closed spec fn view(&self) -> Seq<char> {
        self.0@
    }
}

impl Tag {
    /// The tag named by `raw` (see `tag_text`).
    pub fn new(raw: String) -> (r: Tag)
        ensures
            r@ == tag_text(raw@),
            is_ascii_text(trimmed(raw@)) ==> r@ == tag_alias(ascii_lowercase(trimmed(raw@))),
    {
        let t = to_lowercase(trim(raw.as_str()));
        Tag::from_lowered(t.as_str())
    }

    /// The tag that the already trimmed and lower-cased name `t` stands for
    /// (see `tag_alias`).
    pub fn from_lowered(t: &str) -> (r: Tag)
        ensures
            r@ == tag_alias(t@),
    {
        if t.unicode_len() == 0 || same_text(t, "all") || same_text(t, "все") || same_text(t, "всё") {
            Tag(owned("алл"))
        } else {
            Tag(owned(t))
        }
    }

    /// The tag's name.
    pub fn as_ref(&self) -> (r: &str)
        ensures
            r@ == self@,
    {
        self.0.as_str()
    }

    /// The tag's name, as a new string.
    pub fn to_string(&self) -> (r: String)
        ensures
            r@ == self@,
    {
        self.0.clone()
    }
}

// ---------------------------------------------------------------------------
// Splitting off the first word
// ---------------------------------------------------------------------------

/// Whether `i` is the position of the first space in `s`.
pub open spec fn is_first_space(s: Seq<char>, i: int) -> bool {
    &&& 0 <= i < s.len()
    &&& s[i] == ' '
    &&& forall|j: int| 0 <= j < i ==> s[j] != ' '
}

pub open spec fn first_space(s: Seq<char>) -> int {
    choose|i: int| is_first_space(s, i)
}

/// What comes before the first space of `s` (all of `s` without a space).
pub open spec fn split_head(s: Seq<char>) -> Seq<char> {
    if s.contains(' ') {
        s.take(first_space(s))
    } else {
        s
    }
}

/// What comes after the first space of `s` (nothing without a space).
pub open spec fn split_tail(s: Seq<char>) -> Seq<char> {
    if s.contains(' ') {
        s.skip(first_space(s) + 1)
    } else {
        Seq::empty()
    }
}

pub(crate) proof fn lemma_first_space_unique(s: Seq<char>, i: int)
    requires
        is_first_space(s, i),
    ensures
        s.contains(' '),
        first_space(s) == i,
{
    assert(s[i] == ' ');
    let k = first_space(s);
    assert(is_first_space(s, k));
    if k < i {
        assert(s[k] != ' ');
    } else if k > i {
        assert(s[i] != ' ');
    }
}

/// Splits `s` at its first space, as `str::split_once(' ')` does, giving the
/// whole text and an empty rest when there is no space.
pub fn split_first_word(s: &str) -> (r: (&str, &str))
    ensures
        r.0@ == split_head(s@),
        r.1@ == split_tail(s@),
{
    let n = s.unicode_len();
    let mut i: usize = 0;
    while i < n
        invariant
            n == s@.len(),
            i <= n,
            forall|j: int| 0 <= j < i ==> s@[j] != ' ',
        decreases n - i,
    {
        if s.get_char(i) == ' ' {
            proof {
                lemma_first_space_unique(s@, i as int);
            }
            return (s.substring_char(0, i), s.substring_char(i + 1, n));
        }
        i = i + 1;
    }
    assert(!s@.contains(' '));
    (s, s.substring_char(n, n))
}

// ---------------------------------------------------------------------------
// Commands
// ---------------------------------------------------------------------------

/// The bot's commands, each with its argument text where it takes one.
#[derive(Debug, Clone, PartialEq, Eq)]
pub enum Command {
    Start,
    Leave(String),
    Join(String),
    Call(String),
    List,
    Help,
    Ask(String),
    Mute(String),
    Unmute(String),
}

pub enum CommandView {
    Start,
    Leave(Seq<char>),
    Join(Seq<char>),
    Call(Seq<char>),
    List,
    Help,
    Ask(Seq<char>),
    Mute(Seq<char>),
    Unmute(Seq<char>),
}

impl View for Command {
    type V = CommandView;

    open spec fn view(&self) -> CommandView {
        match self {
            Command::Start => CommandView::Start,
            Command::Leave(a) => CommandView::Leave(a@),
            Command::Join(a) => CommandView::Join(a@),
            Command::Call(a) => CommandView::Call(a@),
            Command::List => CommandView::List,
            Command::Help => CommandView::Help,
            Command::Ask(a) => CommandView::Ask(a@),
            Command::Mute(a) => CommandView::Mute(a@),
            Command::Unmute(a) => CommandView::Unmute(a@),
        }
    }
}

pub open spec fn opt_command(c: Option<Command>) -> Option<CommandView> {
    match c {
        Some(c) => Some(c@),
        None => None,
    }
}

/// The command that a plain message (one without a leading slash) names:
/// its first word, normalized, picks the command, and the rest of the text
/// after the first space is the argument.
pub open spec fn plain_command(text: Seq<char>) -> Option<CommandView> {
    let name = normalized_word(split_head(text));
    let args = split_tail(text);
    if name == "ask"@ {
        Some(CommandView::Ask(args))
    } else if name == "call"@ {
        Some(CommandView::Call(args))
    } else if name == "join"@ {
        Some(CommandView::Join(args))
    } else if name == "leave"@ {
        Some(CommandView::Leave(args))
    } else if name == "list"@ {
        Some(CommandView::List)
    } else if name == "mute"@ {
        Some(CommandView::Mute(args))
    } else if name == "unmute"@ {
        Some(CommandView::Unmute(args))
    } else if name == "help"@ {
        Some(CommandView::Help)
    } else {
        None
    }
}

/// Reads a plain message as a command (see `plain_command`).
pub fn parse_plain_command(text: &str) -> (r: Option<Command>)
    ensures
        opt_command(r) == plain_command(text@),
{
    let (head, rest) = split_first_word(text);
    let name = normalize_word(head);
    let n = name.as_str();
    if same_text(n, "ask") {
        Some(Command::Ask(owned(rest)))
    } else if same_text(n, "call") {
        Some(Command::Call(owned(rest)))
    } else if same_text(n, "join") {
        Some(Command::Join(owned(rest)))
    } else if same_text(n, "leave") {
        Some(Command::Leave(owned(rest)))
    } else if same_text(n, "list") {
        Some(Command::List)
    } else if same_text(n, "mute") {
        Some(Command::Mute(owned(rest)))
    } else if same_text(n, "unmute") {
        Some(Command::Unmute(owned(rest)))
    } else if same_text(n, "help") {
        Some(Command::Help)
    } else {
        None
    }
}

// ---------------------------------------------------------------------------
// The context of a command
// ---------------------------------------------------------------------------

/// What a command handler knows of the message it answers.
pub struct CommandContext {
    pub chat_id: i64,
    pub message_id: i32,
    /// The chat's title, for groups.
    pub chat_title: Option<String>,
    /// The user who sent the command.
    pub user: UserInfo,
}

pub struct ContextView {
    pub chat_id: i64,
    pub message_id: i32,
    pub chat_title: Option<Seq<char>>,
    pub user: UserView,
}

impl View for CommandContext {
    type V = ContextView;

    open spec fn view(&self) -> ContextView {
        ContextView {
            chat_id: self.chat_id,
            message_id: self.message_id,
            chat_title: opt_text(self.chat_title),
            user: self.user@,
        }
    }
}

// ---------------------------------------------------------------------------
// Handling a command
// ---------------------------------------------------------------------------

/// The greeting of `/start`, followed by the command descriptions.
pub open spec fn welcome_text(first_name: Seq<char>, descriptions: Seq<char>) -> Seq<char> {
    "Добро пожаловать, "@ + first_name
        + "! 👋\n\nЯ бот для тегов. Вы можете вступать в теги, и вас будут вызывать, когда вы понадобитесь.\n\n"@
        + descriptions
}

/// Whether handling `cmd` in context `ctx` may take the store from `v` to
/// `v2` and send `out`; `descriptions` is the help text of the commands.
/// Every command but `/ask` has one outcome; `/ask` picks at random.
pub open spec fn handled(
    v: DbView,
    ctx: ContextView,
    cmd: CommandView,
    descriptions: Seq<char>,
    v2: DbView,
    out: Seq<OutgoingView>,
) -> bool {
    let chat = ctx.chat_id;
    let user = ctx.user;
    match cmd {
        CommandView::Start => v2 == v && out == seq![
            message(chat, welcome_text(user.first_name, descriptions), ParseMode::Plain),
        ],
        CommandView::Help => v2 == v && out == seq![message(chat, descriptions, ParseMode::Plain)],
        CommandView::Join(a) => {
            let tag = tag_text(a);
            &&& v2 == v.join(chat, tag, user)
            &&& out == seq![
                message(chat, join_text(!v.tags.contains((chat, tag, user.id)), tag), ParseMode::Plain),
            ]
        },
        CommandView::Leave(a) => {
            let tag = tag_text(a);
            &&& v2 == v.leave(chat, tag, user.id)
            &&& out == seq![leave_reply(chat, v.tags.contains((chat, tag, user.id)), tag)]
        },
        CommandView::List => v2 == v && out.len() == 1 && list_outcome(v, chat, out[0]),
        CommandView::Call(a) => v2 == v && call_outcome(v, ctx, tag_text(a), out),
        CommandView::Ask(a) => v2 == v && out.len() == 1 && ask_outcome(v, ctx, a, out[0]),
        CommandView::Mute(a) => {
            let kind = mute_kind(a);
            &&& v2 == v.mute(chat, user.id, kind)
            &&& out == seq![
                message(chat, mute_text(!v.mutes.contains((chat, user.id, kind)), kind), ParseMode::Plain),
            ]
        },
        CommandView::Unmute(a) => {
            let kind = mute_kind(a);
            &&& v2 == v.unmute(chat, user.id, kind)
            &&& out == seq![
                message(chat, unmute_text(v.mutes.contains((chat, user.id, kind)), kind), ParseMode::Plain),
            ]
        },
    }
}

fn single(o: Outgoing) -> (r: Vec<Outgoing>)
    ensures
        outgoing_views(r@) == seq![o@],
{
    let mut r = Vec::new();
    r.push(o);
    assert(outgoing_views(r@) =~= seq![o@]);
    r
}

/// What handling a message gives: the messages to send, and the rows of the
/// store that changed, in order.
pub struct Reply {
    pub messages: Vec<Outgoing>,
    pub changes: Vec<StoreChange>,
}

fn no_changes() -> (r: Vec<StoreChange>)
    ensures
        change_views(r@) == Seq::<ChangeView>::empty(),
{
    let r = Vec::new();
    assert(change_views(r@) =~= Seq::<ChangeView>::empty());
    r
}

fn one_change(c: StoreChange) -> (r: Vec<StoreChange>)
    ensures
        change_views(r@) == seq![c@],
{
    let mut r = Vec::new();
    r.push(c);
    assert(change_views(r@) =~= seq![c@]);
    r
}

fn two_changes(a: StoreChange, b: StoreChange) -> (r: Vec<StoreChange>)
    ensures
        change_views(r@) == seq![a@, b@],
{
    let mut r = Vec::new();
    r.push(a);
    r.push(b);
    assert(change_views(r@) =~= seq![a@, b@]);
    r
}

proof fn lemma_apply_one(v: DbView, a: ChangeView)
    ensures
        apply_changes(v, seq![a]) == apply_change(v, a),
{
    assert(seq![a].drop_last() =~= Seq::<ChangeView>::empty());
    assert(apply_changes(v, Seq::<ChangeView>::empty()) == v);
    assert(seq![a].last() == a);
}

proof fn lemma_apply_two(v: DbView, a: ChangeView, b: ChangeView)
    ensures
        apply_changes(v, seq![a, b]) == apply_change(apply_change(v, a), b),
{
    assert(seq![a, b].drop_last() =~= seq![a]);
    lemma_apply_one(v, a);
}

/// Runs `cmd` for the sender in `ctx`, and gives the messages to send and
/// the rows that changed.
pub fn handle_command(ctx: &CommandContext, db: &mut Database, cmd: Command, descriptions: &str) -> (r: Reply)
    requires
        old(db).wf(),
    ensures
        final(db).wf(),
        handled(old(db)@, ctx@, cmd@, descriptions@, final(db)@, outgoing_views(r.messages@)),
        apply_changes(old(db)@, change_views(r.changes@)) == final(db)@,
{
    match cmd {
        Command::Start => {
            let mut welcome = concat2("Добро пожаловать, ", ctx.user.first_name.as_str());
            welcome.append(
                "! 👋\n\nЯ бот для тегов. Вы можете вступать в теги, и вас будут вызывать, когда вы понадобитесь.\n\n",
            );
            welcome.append(descriptions);
            assert(welcome@ =~= welcome_text(ctx.user.first_name@, descriptions@));
            Reply { messages: single(new_message(ctx.chat_id, welcome, ParseMode::Plain)), changes: no_changes() }
        },
        Command::Help => Reply {
            messages: single(new_message(ctx.chat_id, owned(descriptions), ParseMode::Plain)),
            changes: no_changes(),
        },
        Command::Join(arg) => {
            let tag = Tag::new(arg);
            let name = tag.to_string();
            let ghost before = db@;
            let m = handle_join(ctx, db, tag);
            let changes = two_changes(
                StoreChange::UpsertUser(copy_user(&ctx.user)),
                StoreChange::AddTag(ctx.chat_id, name, ctx.user.id),
            );
            proof {
                lemma_apply_two(before, change_views(changes@)[0], change_views(changes@)[1]);
            }
            Reply { messages: single(m), changes }
        },
        Command::Leave(arg) => {
            let tag = Tag::new(arg);
            let name = tag.to_string();
            let ghost before = db@;
            let m = handle_leave(ctx, db, tag);
            let changes = one_change(StoreChange::RemoveTag(ctx.chat_id, name, ctx.user.id));
            proof {
                lemma_apply_one(before, change_views(changes@)[0]);
            }
            Reply { messages: single(m), changes }
        },
        Command::List => Reply { messages: single(handle_list(ctx, db)), changes: no_changes() },
        Command::Call(arg) => Reply { messages: handle_call(ctx, db, Tag::new(arg)), changes: no_changes() },
        Command::Ask(arg) => Reply { messages: single(handle_ask(ctx, db, arg)), changes: no_changes() },
        Command::Mute(arg) => {
            let kind = parse_mute_type(arg.as_str());
            let ghost before = db@;
            let m = handle_mute(ctx, db, arg);
            let changes = one_change(StoreChange::AddMute(ctx.chat_id, ctx.user.id, kind));
            proof {
                lemma_apply_one(before, change_views(changes@)[0]);
            }
            Reply { messages: single(m), changes }
        },
        Command::Unmute(arg) => {
            let kind = parse_mute_type(arg.as_str());
            let ghost before = db@;
            let m = handle_unmute(ctx, db, arg);
            let changes = one_change(StoreChange::RemoveMute(ctx.chat_id, ctx.user.id, kind));
            proof {
                lemma_apply_one(before, change_views(changes@)[0]);
            }
            Reply { messages: single(m), changes }
        },
    }
}

/// What the bot knows of an incoming message.
pub struct IncomingMessage {
    pub chat_id: i64,
    pub message_id: i32,
    pub chat_title: Option<String>,
    /// Whether the chat is a private chat with the bot.
    pub chat_is_private: bool,
    /// The sender, when Telegram names one.
    pub from: Option<UserInfo>,
}

pub struct IncomingView {
    pub chat_id: i64,
    pub message_id: i32,
    pub chat_title: Option<Seq<char>>,
    pub chat_is_private: bool,
    pub from: Option<UserView>,
}

impl View for IncomingMessage {
    type V = IncomingView;

    open spec fn view(&self) -> IncomingView {
        IncomingView {
            chat_id: self.chat_id,
            message_id: self.message_id,
            chat_title: opt_text(self.chat_title),
            chat_is_private: self.chat_is_private,
            from: match self.from {
                Some(u) => Some(u@),
                None => None,
            },
        }
    }
}

/// Whether processing `cmd`, sent in `msg`, may take the store from `v` to
/// `v2` and send `out`: the sender is stored first (and, in a private chat,
/// recorded as reachable in private), then the command is handled; without
/// a sender the bot only says that it could not tell who wrote.
pub open spec fn processed(
    v: DbView,
    msg: IncomingView,
    cmd: CommandView,
    descriptions: Seq<char>,
    v2: DbView,
    out: Seq<OutgoingView>,
) -> bool {
    match msg.from {
        Some(u) => {
            let v1 = if msg.chat_is_private {
                v.register_private(u)
            } else {
                v.upsert(u)
            };
            let ctx = ContextView {
                chat_id: msg.chat_id,
                message_id: msg.message_id,
                chat_title: msg.chat_title,
                user: u,
            };
            handled(v1, ctx, cmd, descriptions, v2, out)
        },
        None => v2 == v && out == seq![
            message(msg.chat_id, "Не удалось определить пользователя"@, ParseMode::Plain),
        ],
    }
}

/// The rows that storing the sender of a message writes: the user, and in
/// a private chat the mark that the bot may write to them.
fn sender_changes(msg: &IncomingMessage, user: &UserInfo) -> (r: Vec<StoreChange>)
    requires
        msg.from == Some(*user),
    ensures
        forall|v: DbView|
            #[trigger] apply_changes(v, change_views(r@)) == if msg.chat_is_private {
                v.register_private(user@)
            } else {
                v.upsert(user@)
            },
{
    if msg.chat_is_private {
        let r = two_changes(StoreChange::UpsertUser(copy_user(user)), StoreChange::AddPrivate(user.id));
        assert forall|v: DbView| #[trigger] apply_changes(v, change_views(r@)) == v.register_private(user@) by {
            lemma_apply_two(v, change_views(r@)[0], change_views(r@)[1]);
        }
        r
    } else {
        let r = one_change(StoreChange::UpsertUser(copy_user(user)));
        assert forall|v: DbView| #[trigger] apply_changes(v, change_views(r@)) == v.upsert(user@) by {
            lemma_apply_one(v, change_views(r@)[0]);
        }
        r
    }
}

fn join_changes(first: Vec<StoreChange>, rest: Vec<StoreChange>) -> (r: Vec<StoreChange>)
    ensures
        change_views(r@) == change_views(first@) + change_views(rest@),
{
    let mut r = first;
    let mut rest = rest;
    let ghost a = r@;
    let ghost b = rest@;
    r.append(&mut rest);
    assert(change_views(r@) =~= change_views(a) + change_views(b));
    r
}

/// Stores the sender of `msg` and runs `cmd` for them.
pub fn process_command(db: &mut Database, msg: &IncomingMessage, cmd: Command, descriptions: &str) -> (r: Reply)
    requires
        old(db).wf(),
    ensures
        final(db).wf(),
        processed(old(db)@, msg@, cmd@, descriptions@, final(db)@, outgoing_views(r.messages@)),
        apply_changes(old(db)@, change_views(r.changes@)) == final(db)@,
{
    match &msg.from {
        Some(user) => {
            let ghost start = db@;
            if msg.chat_is_private {
                db.register_private_user(user);
            } else {
                db.upsert_user(user);
            }
            let ghost mid = db@;
            let title = match &msg.chat_title {
                Some(t) => Some(t.clone()),
                None => None,
            };
            let ctx = CommandContext {
                chat_id: msg.chat_id,
                message_id: msg.message_id,
                chat_title: title,
                user: copy_user(user),
            };
            let first = sender_changes(msg, user);
            let reply = handle_command(&ctx, db, cmd, descriptions);
            let ghost f = change_views(first@);
            let ghost g = change_views(reply.changes@);
            let changes = join_changes(first, reply.changes);
            proof {
                lemma_apply_changes_append(start, f, g);
                assert(apply_changes(start, f) == mid);
            }
            Reply { messages: reply.messages, changes }
        },
        None => Reply {
            messages: single(new_message(msg.chat_id, owned("Не удалось определить пользователя"), ParseMode::Plain)),
            changes: no_changes(),
        },
    }
}

/// Whether answering the plain message `msg` with text `text` may take the
/// store from `v` to `v2` and send `out`: a message naming a command (see
/// `plain_command`) is processed as that command; any other message sends
/// nothing, and in a private chat it stores its sender and records that the
/// bot may write to them in private.
pub open spec fn plain_handled(
    v: DbView,
    msg: IncomingView,
    text: Seq<char>,
    descriptions: Seq<char>,
    v2: DbView,
    out: Seq<OutgoingView>,
) -> bool {
    match plain_command(text) {
        Some(cmd) => processed(v, msg, cmd, descriptions, v2, out),
        None => {
            &&& out.len() == 0
            &&& v2 == match msg.from {
                Some(u) => if msg.chat_is_private {
                    v.register_private(u)
                } else {
                    v
                },
                None => v,
            }
        },
    }
}

/// Answers a plain message (see `plain_handled`).
pub fn handle_plain_text(db: &mut Database, msg: &IncomingMessage, text: &str, descriptions: &str) -> (r: Reply)
    requires
        old(db).wf(),
    ensures
        final(db).wf(),
        plain_handled(old(db)@, msg@, text@, descriptions@, final(db)@, outgoing_views(r.messages@)),
        apply_changes(old(db)@, change_views(r.changes@)) == final(db)@,
{
    match parse_plain_command(text) {
        Some(cmd) => process_command(db, msg, cmd, descriptions),
        None => {
            let messages: Vec<Outgoing> = Vec::new();
            assert(outgoing_views(messages@) =~= Seq::<OutgoingView>::empty());
            match &msg.from {
                Some(user) => {
                    if msg.chat_is_private {
                        db.register_private_user(user);
                        let changes = sender_changes(msg, user);
                        Reply { messages, changes }
                    } else {
                        Reply { messages, changes: no_changes() }
                    }
                },
                None => Reply { messages, changes: no_changes() },
            }
        },
    }
}

} // verus!
