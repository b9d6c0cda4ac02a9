//! `/ask`: pick one member of a tag at random.
use vstd::prelude::*;

use rand::seq::SliceRandom;

use crate::commands::responses::{error_reply, error_text, message, Outgoing, OutgoingView, ParseMode};
use crate::commands::{split_first_word, split_head, tag_text, CommandContext, ContextView, Tag};
use crate::db::{everyone_tag, tag_user_views, Database, DbView, TagUserInfo};
use crate::models::{mention_text, UserView};
use crate::text::{ascii_lowercase, concat2, is_ascii_text, owned, trim, trim_end, trim_start, trimmed};

verus! {

/// `SliceRandom::choose` with the thread's random generator: rand's
/// documentation says it returns one element of the slice, or `None` when
/// the slice is empty. Which element comes back is left open.
#[verifier::external_body]
fn choose_random<'a, T>(items: &'a [T]) -> (r: Option<&'a T>)
    ensures
        r is Some <==> items@.len() > 0,
        r matches Some(x) ==> items@.contains(*x),
{
    items.choose(&mut rand::thread_rng())
}

/// The mute type that keeps a user out of `/ask`.
pub open spec fn mute_ask() -> Seq<char> {
    "ask"@
}

/// Whether the random pick among members of `tag` can fall on someone.
pub open spec fn has_candidates(v: DbView, chat: i64, tag: Seq<char>) -> bool {
    exists|u: u64| v.called(chat, tag, Some(mute_ask()), u)
}

/// The tag `/ask` picks from: the tag named by the first word of the
/// (trimmed) input when that tag has candidates, else the tag that `all`
/// names, the one for everybody.
pub open spec fn ask_tag(v: DbView, chat: i64, input: Seq<char>) -> Seq<char> {
    let t = trimmed(input);
    let potential = tag_text(split_head(t));
    if t.len() > 0 && has_candidates(v, chat, potential) {
        potential
    } else {
        everyone_tag()
    }
}

/// The reply naming the picked user, as an answer to the command's message.
pub open spec fn ask_pick_reply(ctx: ContextView, picked: UserView) -> OutgoingView {
    OutgoingView {
        chat_id: ctx.chat_id,
        text: "It's "@ + mention_text(picked) + "!"@,
        parse_mode: ParseMode::MarkdownV2,
        reply_to: Some(ctx.message_id),
        best_effort: false,
    }
}

/// The reply when nobody can be picked.
pub open spec fn ask_empty_reply(chat_id: i64, tag: Seq<char>) -> OutgoingView {
    message(chat_id, error_text("No users in tag '"@ + tag + "'"@), ParseMode::MarkdownV2)
}

/// What `/ask` may answer: when the tag it picks from has candidates, the
/// reply naming one of them; else the error that the tag has no users.
pub open spec fn ask_outcome(v: DbView, ctx: ContextView, input: Seq<char>, r: OutgoingView) -> bool {
    let tag = ask_tag(v, ctx.chat_id, input);
    if has_candidates(v, ctx.chat_id, tag) {
        exists|u: u64| v.called(ctx.chat_id, tag, Some(mute_ask()), u) && r == ask_pick_reply(ctx, v.users[u])
    } else {
        r == ask_empty_reply(ctx.chat_id, tag)
    }
}

/// The reply naming `picked`.
pub fn pick_reply(ctx: &CommandContext, picked: &TagUserInfo) -> (r: Outgoing)
    ensures
        r@ == ask_pick_reply(ctx@, picked.info@),
{
    let mention = picked.info.mention();
    let mut text = concat2("It's ", mention.as_str());
    text.append("!");
    Outgoing {
        chat_id: ctx.chat_id,
        text,
        parse_mode: ParseMode::MarkdownV2,
        reply_to: Some(ctx.message_id),
        best_effort: false,
    }
}

fn candidates(db: &Database, chat_id: i64, tag: &Tag) -> (r: Vec<TagUserInfo>)
    requires
        db.wf(),
    ensures
        db@.is_call_list(chat_id, tag@, Some(mute_ask()), tag_user_views(r@)),
        r@.len() > 0 <==> has_candidates(db@, chat_id, tag@),
{
    let r = db.get_tag_users(chat_id, tag.to_string(), Some(owned("ask")));
    let ghost s = tag_user_views(r@);
    if r.len() > 0 {
        assert(db@.called(chat_id, tag@, Some(mute_ask()), s[0].info.id));
    } else {
        assert forall|u: u64| !db@.called(chat_id, tag@, Some(mute_ask()), u) by {
            if db@.called(chat_id, tag@, Some(mute_ask()), u) {
                let k = choose|k: int| 0 <= k < s.len() && (#[trigger] s[k]).info.id == u;
            }
        }
    }
    r
}

/// Picks a random member of the tag named by the first word of `input`
/// (or of the tag `all`) who is not muted in the chat, for every call or for
/// `/ask`, and names them.
pub fn handle_ask(ctx: &CommandContext, db: &Database, input: String) -> (r: Outgoing)
    requires
        db.wf(),
    ensures
        ask_outcome(db@, ctx@, input@, r@),
{
    let text = trim(input.as_str());
    let default_tag = Tag::new(owned("all"));
    proof {
        reveal_strlit("all");
        reveal_strlit("алл");
        let a = "all"@;
        assert(trim_start(a) == a);
        assert(trim_end(a) == a);
        assert(is_ascii_text(a));
        assert(ascii_lowercase(a) =~= a);
    }
    let (tag, users) = if text.unicode_len() > 0 {
        let (first, _rest) = split_first_word(text);
        let potential = Tag::new(owned(first));
        let users = candidates(db, ctx.chat_id, &potential);
        if users.len() > 0 {
            (potential, users)
        } else {
            let users = candidates(db, ctx.chat_id, &default_tag);
            (default_tag, users)
        }
    } else {
        let users = candidates(db, ctx.chat_id, &default_tag);
        (default_tag, users)
    };
    assert(tag@ == ask_tag(db@, ctx.chat_id, input@));
    match choose_random(users.as_slice()) {
        None => {
            let mut msg = concat2("No users in tag '", tag.as_ref());
            msg.append("'");
            error_reply(ctx.chat_id, msg.as_str())
        },
        Some(picked) => {
            proof {
                let s = tag_user_views(users@);
                let k = choose|k: int| 0 <= k < users@.len() && users@[k] == *picked;
                assert(s[k].info.id == picked.info.id);
            }
            pick_reply(ctx, picked)
        },
    }
}

} // verus!
