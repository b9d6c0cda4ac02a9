//! The users the bot knows, and how a user is mentioned in a message.
use vstd::prelude::*;

use crate::text::{decimal, escape_html, escape_markdown, html_escape, markdown_escape, owned, push_char, push_decimal};

verus! {

/// A Telegram user id.
pub type UserId = u64;

/// A Telegram user as the bot stores it.
#[derive(Debug, Clone, PartialEq, Eq)]
pub struct UserInfo {
    pub id: UserId,
    pub username: Option<String>,
    pub first_name: String,
}

/// The value of a `UserInfo`.
pub struct UserView {
    pub id: UserId,
    pub username: Option<Seq<char>>,
    pub first_name: Seq<char>,
}

pub open spec fn opt_text(s: Option<String>) -> Option<Seq<char>> {
    match s {
        Some(t) => Some(t@),
        None => None,
    }
}

impl View for UserInfo {
    type V = UserView;

    open spec fn view(&self) -> UserView {
        UserView { id: self.id, username: opt_text(self.username), first_name: self.first_name@ }
    }
}

/// How a user is mentioned: `@username` (escaped for MarkdownV2) when there
/// is a username, else a MarkdownV2 link to the user's id labelled with the
/// escaped first name.
pub open spec fn mention_text(u: UserView) -> Seq<char> {
    match u.username {
        Some(name) => seq!['@'] + markdown_escape(name),
        None => seq!['['] + markdown_escape(u.first_name) + "](tg://user?id="@ + decimal(
            u.id as nat,
        ) + seq![')'],
    }
}

/// How a user is mentioned in an HTML message: `@username` when there is a
/// username, else a link to the user's id labelled with the first name,
/// both escaped for HTML.
pub open spec fn html_mention_text(u: UserView) -> Seq<char> {
    match u.username {
        Some(name) => seq!['@'] + html_escape(name),
        None => "<a href=\"tg://user?id="@ + decimal(u.id as nat) + "\">"@ + html_escape(u.first_name)
            + "</a>"@,
    }
}

/// A copy of `u` with the same value.
pub fn copy_user(u: &UserInfo) -> (r: UserInfo)
    ensures
        r@ == u@,
{
    let username = match &u.username {
        Some(name) => Some(name.clone()),
        None => None,
    };
    UserInfo { id: u.id, username, first_name: u.first_name.clone() }
}

impl UserInfo {
    /// The mention of this user in a message.
    pub fn mention(&self) -> (r: String)
        ensures
            r@ == mention_text(self@),
    {
        match &self.username {
            Some(username) => {
                let escaped = escape_markdown(username.as_str());
                let mut r = String::new();
                push_char(&mut r, '@');
                r.append(escaped.as_str());
                r
            },
            None => {
                let mut r = String::new();
                push_char(&mut r, '[');
                let escaped = escape_markdown(self.first_name.as_str());
                r.append(escaped.as_str());
                r.append("](tg://user?id=");
                push_decimal(&mut r, self.id);
                push_char(&mut r, ')');
                r
            },
        }
    }

    /// The mention of this user in an HTML message.
    pub fn mention_html(&self) -> (r: String)
        ensures
            r@ == html_mention_text(self@),
    {
        match &self.username {
            Some(username) => {
                let escaped = escape_html(username.as_str());
                let mut r = String::new();
                push_char(&mut r, '@');
                r.append(escaped.as_str());
                r
            },
            None => {
                let mut r = owned("<a href=\"tg://user?id=");
                push_decimal(&mut r, self.id);
                r.append("\">");
                let escaped = escape_html(self.first_name.as_str());
                r.append(escaped.as_str());
                r.append("</a>");
                r
            },
        }
    }
}

} // verus!
