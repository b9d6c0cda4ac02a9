//! `/join`: the sender joins a tag.
use vstd::prelude::*;

use crate::commands::responses::{message, new_message, Outgoing, ParseMode};
use crate::commands::{CommandContext, Tag};
use crate::db::Database;
use crate::text::{concat2, escape_markdown, markdown_escape};

verus! {

/// The answer to `/join`: whether the sender was added to the tag or was in
/// it already, with the tag name escaped for MarkdownV2.
pub open spec fn join_text(added: bool, tag: Seq<char>) -> Seq<char> {
    if added {
        "You have been added to tag '"@ + markdown_escape(tag) + "'"@
    } else {
        "You are already in tag '"@ + markdown_escape(tag) + "'"@
    }
}

/// Adds the sender to `tag` in the chat and says whether they were added.
pub fn handle_join(ctx: &CommandContext, db: &mut Database, tag: Tag) -> (r: Outgoing)
    requires
        old(db).wf(),
    ensures
        final(db).wf(),
        final(db)@ == old(db)@.join(ctx.chat_id, tag@, ctx.user@),
        r@ == message(
            ctx.chat_id,
            join_text(!old(db)@.tags.contains((ctx.chat_id, tag@, ctx.user.id)), tag@),
            ParseMode::Plain,
        ),
{
    let added = db.join_tag(ctx.chat_id, tag.to_string(), &ctx.user);
    let escaped = escape_markdown(tag.as_ref());
    let mut text = if added {
        concat2("You have been added to tag '", escaped.as_str())
    } else {
        concat2("You are already in tag '", escaped.as_str())
    };
    text.append("'");
    new_message(ctx.chat_id, text, ParseMode::Plain)
}

} // verus!
