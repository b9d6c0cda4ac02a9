//! `/call`: mention every member of a tag, and notify in private those who
//! talk to the bot privately.
use vstd::prelude::*;

use crate::commands::responses::{message, new_message, outgoing_views, Outgoing, OutgoingView, ParseMode};
use crate::commands::{CommandContext, ContextView, Tag};
use crate::db::{tag_user_views, Database, DbView, TagUserInfo, TagUserView};
use crate::models::html_mention_text;
use crate::text::{concat2, escape_html, html_escape, owned, push_char};

verus! {

/// The HTML mentions of the users in `s`, separated by spaces.
pub open spec fn mentions(s: Seq<TagUserView>) -> Seq<char>
    decreases s.len(),
{
    if s.len() == 0 {
        Seq::empty()
    } else if s.len() == 1 {
        html_mention_text(s[0].info)
    } else {
        mentions(s.drop_last()) + seq![' '] + html_mention_text(s.last().info)
    }
}

/// The name of the chat in a private notification.
pub open spec fn group_name(ctx: ContextView) -> Seq<char> {
    match ctx.chat_title {
        Some(t) => t,
        None => "этой группе"@,
    }
}

/// The private notification of a call of `tag` by `caller` in `group`.
pub open spec fn dm_text(caller: Seq<char>, group: Seq<char>, tag: Seq<char>) -> Seq<char> {
    "🔔 Вас вызвал/а "@ + html_escape(caller) + " в группе "@ + html_escape(group) + " по тегу '"@ + tag
        + "'!"@
}

/// A private notification with text `text` for each user of `s` who talks
/// to the bot privately, in the order of `s`; their failures are ignored.
pub open spec fn dm_messages(s: Seq<TagUserView>, text: Seq<char>) -> Seq<OutgoingView>
    decreases s.len(),
{
    if s.len() == 0 {
        Seq::empty()
    } else {
        let prev = dm_messages(s.drop_last(), text);
        if s.last().is_private {
            prev.push(
                OutgoingView {
                    chat_id: s.last().info.id as i64,
                    text,
                    parse_mode: ParseMode::Plain,
                    reply_to: None,
                    best_effort: true,
                },
            )
        } else {
            prev
        }
    }
}

/// What `/call` sends when the call reaches the users `s`: a notice that
/// the tag is empty, or the message that mentions everyone (in HTML)
/// followed by the private notifications.
pub open spec fn call_replies(ctx: ContextView, tag: Seq<char>, s: Seq<TagUserView>) -> Seq<OutgoingView> {
    if s.len() == 0 {
        seq![message(ctx.chat_id, "В теге '"@ + html_escape(tag) + "' нет пользователей"@, ParseMode::Plain)]
    } else {
        seq![message(ctx.chat_id, "Вызываем тег '"@ + html_escape(tag) + "': "@ + mentions(s), ParseMode::Html)]
            + dm_messages(s, dm_text(ctx.user.first_name, group_name(ctx), tag))
    }
}

/// Whether `out` is what `/call` of `tag` sends in context `ctx` with the
/// store `v`.
pub open spec fn call_outcome(v: DbView, ctx: ContextView, tag: Seq<char>, out: Seq<OutgoingView>) -> bool {
    exists|s: Seq<TagUserView>| #[trigger] v.is_call_list(ctx.chat_id, tag, None, s) && out == call_replies(ctx, tag, s)
}

fn join_mentions(users: &Vec<TagUserInfo>) -> (r: String)
    ensures
        r@ == mentions(tag_user_views(users@)),
{
    let ghost s = tag_user_views(users@);
    let mut r = String::new();
    let mut i: usize = 0;
    while i < users.len()
        invariant
            s == tag_user_views(users@),
            i <= users@.len(),
            r@ == mentions(s.take(i as int)),
        decreases users@.len() - i,
    {
        let ghost prev = r@;
        if i > 0 {
            push_char(&mut r, ' ');
        }
        let m = users[i].info.mention_html();
        r.append(m.as_str());
        proof {
            let t = s.take(i + 1);
            assert(t.drop_last() =~= s.take(i as int));
            if i == 0 {
                assert(r@ =~= html_mention_text(s[0].info));
            } else {
                assert(r@ =~= prev + seq![' '] + html_mention_text(s[i as int].info));
            }
        }
        i = i + 1;
    }
    assert(s.take(users@.len() as int) =~= s);
    r
}

fn push_dms(out: &mut Vec<Outgoing>, users: &Vec<TagUserInfo>, text: &String)
    ensures
        outgoing_views(final(out)@) == outgoing_views(old(out)@) + dm_messages(tag_user_views(users@), text@),
{
    let ghost s = tag_user_views(users@);
    let ghost start = outgoing_views(out@);
    let mut i: usize = 0;
    while i < users.len()
        invariant
            s == tag_user_views(users@),
            i <= users@.len(),
            outgoing_views(out@) == start + dm_messages(s.take(i as int), text@),
        decreases users@.len() - i,
    {
        let ghost prev = out@;
        proof {
            assert(s.take(i + 1).drop_last() =~= s.take(i as int));
        }
        if users[i].is_private {
            out.push(
                Outgoing {
                    chat_id: users[i].info.id as i64,
                    text: text.clone(),
                    parse_mode: ParseMode::Plain,
                    reply_to: None,
                    best_effort: true,
                },
            );
            assert(outgoing_views(out@) =~= outgoing_views(prev).push(out@.last()@));
        }
        i = i + 1;
    }
    assert(s.take(users@.len() as int) =~= s);
}

/// Calls the members of `tag` that are not muted in the chat.
pub fn handle_call(ctx: &CommandContext, db: &Database, tag: Tag) -> (r: Vec<Outgoing>)
    requires
        db.wf(),
    ensures
        call_outcome(db@, ctx@, tag@, outgoing_views(r@)),
{
    let users = db.get_tag_users(ctx.chat_id, tag.to_string(), None);
    let ghost s = tag_user_views(users@);
    let escaped_tag = escape_html(tag.as_ref());
    let mut out: Vec<Outgoing> = Vec::new();
    if users.len() == 0 {
        let mut text = concat2("В теге '", escaped_tag.as_str());
        text.append("' нет пользователей");
        out.push(new_message(ctx.chat_id, text, ParseMode::Plain));
        assert(outgoing_views(out@) =~= call_replies(ctx@, tag@, s));
        assert(db@.is_call_list(ctx.chat_id, tag@, None, s));
        return out;
    }
    let mut text = concat2("Вызываем тег '", escaped_tag.as_str());
    text.append("': ");
    let joined = join_mentions(&users);
    text.append(joined.as_str());
    out.push(new_message(ctx.chat_id, text, ParseMode::Html));
    let group = match &ctx.chat_title {
        Some(t) => t.clone(),
        None => owned("этой группе"),
    };
    let caller = escape_html(ctx.user.first_name.as_str());
    let group_escaped = escape_html(group.as_str());
    let mut dm = concat2("🔔 Вас вызвал/а ", caller.as_str());
    dm.append(" в группе ");
    dm.append(group_escaped.as_str());
    dm.append(" по тегу '");
    dm.append(tag.as_ref());
    dm.append("'!");
    let ghost first = outgoing_views(out@);
    push_dms(&mut out, &users, &dm);
    assert(outgoing_views(out@) =~= call_replies(ctx@, tag@, s));
    assert(db@.is_call_list(ctx.chat_id, tag@, None, s));
    out
}

} // verus!
