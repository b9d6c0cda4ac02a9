//! `/list`: the tags of the chat.
use vstd::prelude::*;

use crate::commands::responses::{message, new_message, Outgoing, OutgoingView, ParseMode};
use crate::commands::CommandContext;
use crate::db::{listing_view, Database, DbView};
use crate::text::{decimal, escape_html, html_escape, owned, push_char, push_decimal};

verus! {

/// One line of the tag list: a bullet, the tag escaped for HTML, and its
/// number of members.
pub open spec fn tag_line(e: (Seq<char>, nat)) -> Seq<char> {
    "• "@ + html_escape(e.0) + " ("@ + decimal(e.1) + " уч.)"@
}

/// The lines of the tag list, separated by line breaks.
pub open spec fn tag_lines(s: Seq<(Seq<char>, nat)>) -> Seq<char>
    decreases s.len(),
{
    if s.len() == 0 {
        Seq::empty()
    } else if s.len() == 1 {
        tag_line(s[0])
    } else {
        tag_lines(s.drop_last()) + seq!['\n'] + tag_line(s.last())
    }
}

/// The answer to `/list` for the listing `s` of the chat's tags.
pub open spec fn list_reply(chat_id: i64, s: Seq<(Seq<char>, nat)>) -> OutgoingView {
    if s.len() == 0 {
        message(chat_id, "В этой группе пока нет тегов."@, ParseMode::Plain)
    } else {
        message(chat_id, "Теги в этой группе:"@ + seq!['\n'] + tag_lines(s), ParseMode::Html)
    }
}

/// Whether `r` is what `/list` answers in chat `chat_id` with the store `v`.
pub open spec fn list_outcome(v: DbView, chat_id: i64, r: OutgoingView) -> bool {
    exists|s: Seq<(Seq<char>, nat)>| #[trigger] v.is_tag_listing(chat_id, s) && r == list_reply(chat_id, s)
}

/// Lists the chat's tags with their numbers of members.
pub fn handle_list(ctx: &CommandContext, db: &Database) -> (r: Outgoing)
    requires
        db.wf(),
    ensures
        list_outcome(db@, ctx.chat_id, r@),
{
    let tags = db.list_tags(ctx.chat_id);
    let ghost s = listing_view(tags@);
    if tags.len() == 0 {
        let r = new_message(ctx.chat_id, owned("В этой группе пока нет тегов."), ParseMode::Plain);
        assert(r@ == list_reply(ctx.chat_id, s));
        return r;
    }
    let mut lines = String::new();
    let mut i: usize = 0;
    while i < tags.len()
        invariant
            s == listing_view(tags@),
            i <= tags@.len(),
            lines@ == tag_lines(s.take(i as int)),
        decreases tags@.len() - i,
    {
        let ghost prev = lines@;
        if i > 0 {
            push_char(&mut lines, '\n');
        }
        lines.append("• ");
        let escaped = escape_html(tags[i].0.as_str());
        lines.append(escaped.as_str());
        lines.append(" (");
        push_decimal(&mut lines, tags[i].1 as u64);
        lines.append(" уч.)");
        proof {
            let t = s.take(i + 1);
            assert(t.drop_last() =~= s.take(i as int));
            assert(t.last() == s[i as int]);
            if i == 0 {
                assert(lines@ =~= tag_line(s[0]));
            } else {
                assert(lines@ =~= prev + seq!['\n'] + tag_line(s[i as int]));
            }
        }
        i = i + 1;
    }
    assert(s.take(tags@.len() as int) =~= s);
    let mut text = owned("Теги в этой группе:");
    push_char(&mut text, '\n');
    text.append(lines.as_str());
    let r = new_message(ctx.chat_id, text, ParseMode::Html);
    assert(r@.text =~= list_reply(ctx.chat_id, s).text);
    r
}

} // verus!
