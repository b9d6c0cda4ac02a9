//! `/mute`: the sender stops being called in the chat.
use vstd::prelude::*;

use crate::commands::responses::{message, new_message, Outgoing, ParseMode};
use crate::commands::CommandContext;
use crate::db::Database;
use crate::text::{ascii_lowercase, is_ascii_text, lowercase, owned, same_text, to_lowercase, trim, trimmed};

verus! {

/// The mute type that an already trimmed and lower-cased argument names:
/// `ask` for `ask`, else `all`.
pub open spec fn mute_alias(t: Seq<char>) -> Seq<char> {
    if t == "ask"@ {
        "ask"@
    } else {
        "all"@
    }
}

/// The mute type an argument names: `ask` when it reads `ask` (ignoring
/// case and surrounding whitespace), else `all`.
pub open spec fn mute_kind(arg: Seq<char>) -> Seq<char> {
    mute_alias(lowercase(trimmed(arg)))
}

/// The mute type that the already trimmed and lower-cased argument `t`
/// names (see `mute_alias`).
pub fn mute_type_from_lowered(t: &str) -> (r: String)
    ensures
        r@ == mute_alias(t@),
{
    if same_text(t, "ask") {
        owned("ask")
    } else {
        owned("all")
    }
}

/// The mute type that `arg` names (see `mute_kind`).
pub fn parse_mute_type(arg: &str) -> (r: String)
    ensures
        r@ == mute_kind(arg@),
        is_ascii_text(trimmed(arg@)) ==> r@ == mute_alias(ascii_lowercase(trimmed(arg@))),
{
    let lowered = to_lowercase(trim(arg));
    mute_type_from_lowered(lowered.as_str())
}

/// The answer to `/mute`.
pub open spec fn mute_text(added: bool, mute_type: Seq<char>) -> Seq<char> {
    if !added {
        "You are already muted for this"@
    } else if mute_type == "ask"@ {
        "You have been muted for the 'ask' command and won't be mentioned by it"@
    } else {
        "You have been muted and won't be called in group mentions"@
    }
}

/// Mutes the sender in the chat for the mute type `arg` names, and says
/// whether they were muted for it already.
pub fn handle_mute(ctx: &CommandContext, db: &mut Database, arg: String) -> (r: Outgoing)
    requires
        old(db).wf(),
    ensures
        final(db).wf(),
        final(db)@ == old(db)@.mute(ctx.chat_id, ctx.user.id, mute_kind(arg@)),
        r@ == message(
            ctx.chat_id,
            mute_text(!old(db)@.mutes.contains((ctx.chat_id, ctx.user.id, mute_kind(arg@))), mute_kind(arg@)),
            ParseMode::Plain,
        ),
{
    let mute_type = parse_mute_type(arg.as_str());
    let is_ask = same_text(mute_type.as_str(), "ask");
    let added = db.mute_user(ctx.chat_id, ctx.user.id, mute_type);
    let text = if !added {
        owned("You are already muted for this")
    } else if is_ask {
        owned("You have been muted for the 'ask' command and won't be mentioned by it")
    } else {
        owned("You have been muted and won't be called in group mentions")
    };
    new_message(ctx.chat_id, text, ParseMode::Plain)
}

} // verus!
