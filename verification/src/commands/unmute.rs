//! `/unmute`: the sender is called in the chat again.
use vstd::prelude::*;

use crate::commands::mute::{mute_kind, parse_mute_type};
use crate::commands::responses::{message, new_message, Outgoing, ParseMode};
use crate::commands::CommandContext;
use crate::db::Database;
use crate::text::{owned, same_text};

verus! {

/// The answer to `/unmute`.
pub open spec fn unmute_text(removed: bool, mute_type: Seq<char>) -> Seq<char> {
    if !removed {
        "You were not muted for this anyway"@
    } else if mute_type == "ask"@ {
        "You have been unmuted for the 'ask' command and can be mentioned by it again"@
    } else {
        "You have been unmuted and will be called in group mentions again"@
    }
}

/// Lifts the sender's mute in the chat for the mute type `arg` names, and
/// says whether they were muted for it.
pub fn handle_unmute(ctx: &CommandContext, db: &mut Database, arg: String) -> (r: Outgoing)
    requires
        old(db).wf(),
    ensures
        final(db).wf(),
        final(db)@ == old(db)@.unmute(ctx.chat_id, ctx.user.id, mute_kind(arg@)),
        r@ == message(
            ctx.chat_id,
            unmute_text(old(db)@.mutes.contains((ctx.chat_id, ctx.user.id, mute_kind(arg@))), mute_kind(arg@)),
            ParseMode::Plain,
        ),
{
    let mute_type = parse_mute_type(arg.as_str());
    let is_ask = same_text(mute_type.as_str(), "ask");
    let removed = db.unmute_user(ctx.chat_id, ctx.user.id, mute_type);
    let text = if !removed {
        owned("You were not muted for this anyway")
    } else if is_ask {
        owned("You have been unmuted for the 'ask' command and can be mentioned by it again")
    } else {
        owned("You have been unmuted and will be called in group mentions again")
    };
    new_message(ctx.chat_id, text, ParseMode::Plain)
}

} // verus!
