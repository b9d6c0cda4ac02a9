//! The messages the bot sends, and the success and error replies.
use vstd::prelude::*;

use crate::text::{concat2, escape_markdown, markdown_escape};

verus! {

/// How Telegram reads a message's text.
#[derive(Debug, Clone, Copy, PartialEq, Eq)]
pub enum ParseMode {
    Plain,
    Html,
    MarkdownV2,
}

/// A message for the bot to send.
#[derive(Debug, Clone, PartialEq, Eq)]
pub struct Outgoing {
    /// The chat to send to.
    pub chat_id: i64,
    pub text: String,
    pub parse_mode: ParseMode,
    /// The message this one answers, if any.
    pub reply_to: Option<i32>,
    /// A message whose failure to send is ignored.
    pub best_effort: bool,
}

pub struct OutgoingView {
    pub chat_id: i64,
    pub text: Seq<char>,
    pub parse_mode: ParseMode,
    pub reply_to: Option<i32>,
    pub best_effort: bool,
}

impl View for Outgoing {
    type V = OutgoingView;

    open spec fn view(&self) -> OutgoingView {
        OutgoingView {
            chat_id: self.chat_id,
            text: self.text@,
            parse_mode: self.parse_mode,
            reply_to: self.reply_to,
            best_effort: self.best_effort,
        }
    }
}

/// A message to `chat_id` whose failure to send stops the command.
pub open spec fn message(chat_id: i64, text: Seq<char>, parse_mode: ParseMode) -> OutgoingView {
    OutgoingView { chat_id, text, parse_mode, reply_to: None, best_effort: false }
}

pub open spec fn outgoing_views(s: Seq<Outgoing>) -> Seq<OutgoingView> {
    s.map_values(|o: Outgoing| o@)
}

/// Builds the message `message(chat_id, text@, parse_mode)`.
pub fn new_message(chat_id: i64, text: String, parse_mode: ParseMode) -> (r: Outgoing)
    ensures
        r@ == message(chat_id, text@, parse_mode),
{
    Outgoing { chat_id, text, parse_mode, reply_to: None, best_effort: false }
}

/// The text of an error reply: a cross mark and the escaped message.
pub open spec fn error_text(msg: Seq<char>) -> Seq<char> {
    "❌ "@ + markdown_escape(msg)
}

/// The text of a success reply: a check mark and the escaped message.
pub open spec fn success_text(msg: Seq<char>) -> Seq<char> {
    "✅ "@ + markdown_escape(msg)
}

/// The error reply carrying `msg`, in MarkdownV2.
pub fn error_reply(chat_id: i64, msg: &str) -> (r: Outgoing)
    ensures
        r@ == message(chat_id, error_text(msg@), ParseMode::MarkdownV2),
{
    let escaped = escape_markdown(msg);
    new_message(chat_id, concat2("❌ ", escaped.as_str()), ParseMode::MarkdownV2)
}

/// The success reply carrying `msg`, in MarkdownV2.
pub fn success_reply(chat_id: i64, msg: &str) -> (r: Outgoing)
    ensures
        r@ == message(chat_id, success_text(msg@), ParseMode::MarkdownV2),
{
    let escaped = escape_markdown(msg);
    new_message(chat_id, concat2("✅ ", escaped.as_str()), ParseMode::MarkdownV2)
}

} // verus!
