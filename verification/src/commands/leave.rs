//! `/leave`: the sender leaves a tag.
use vstd::prelude::*;

use crate::commands::responses::{error_reply, error_text, message, success_reply, success_text, Outgoing, ParseMode};
use crate::commands::{CommandContext, Tag};
use crate::db::Database;
use crate::text::{concat2, escape_markdown, markdown_escape};

verus! {

/// The answer to `/leave`: a success reply when the sender was in the tag,
/// else an error reply; the tag name is escaped inside the message, and the
/// reply escapes the whole message once more.
pub open spec fn leave_reply(chat_id: i64, removed: bool, tag: Seq<char>) -> crate::commands::responses::OutgoingView {
    if removed {
        message(
            chat_id,
            success_text("You have been removed from tag '"@ + markdown_escape(tag) + "'"@),
            ParseMode::MarkdownV2,
        )
    } else {
        message(
            chat_id,
            error_text("You are not in tag '"@ + markdown_escape(tag) + "' or it doesn't exist"@),
            ParseMode::MarkdownV2,
        )
    }
}

/// Removes the sender from `tag` in the chat and says whether they were in it.
pub fn handle_leave(ctx: &CommandContext, db: &mut Database, tag: Tag) -> (r: Outgoing)
    requires
        old(db).wf(),
    ensures
        final(db).wf(),
        final(db)@ == old(db)@.leave(ctx.chat_id, tag@, ctx.user.id),
        r@ == leave_reply(ctx.chat_id, old(db)@.tags.contains((ctx.chat_id, tag@, ctx.user.id)), tag@),
{
    let removed = db.leave_tag(ctx.chat_id, tag.to_string(), ctx.user.id);
    let escaped = escape_markdown(tag.as_ref());
    if removed {
        let mut msg = concat2("You have been removed from tag '", escaped.as_str());
        msg.append("'");
        success_reply(ctx.chat_id, msg.as_str())
    } else {
        let mut msg = concat2("You are not in tag '", escaped.as_str());
        msg.append("' or it doesn't exist");
        error_reply(ctx.chat_id, msg.as_str())
    }
}

} // verus!
