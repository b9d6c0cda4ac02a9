//! Properties of the bot that hold across operations and commands.
use vstd::prelude::*;

use crate::commands::ask::{ask_outcome, ask_tag, has_candidates, mute_ask};
use crate::commands::list::{list_reply, tag_line, tag_lines};
use crate::commands::call::{call_outcome, call_replies, dm_messages, dm_text, group_name, mentions};
use crate::commands::responses::{OutgoingView, ParseMode};
use crate::commands::mute::{mute_alias, mute_kind};
use crate::commands::{handled, lemma_first_space_unique, split_head, split_tail, normalized_word, plain_command, plain_handled, tag_alias, word_alias, processed, tag_text, CommandView, ContextView, IncomingView};
use crate::db::{apply_changes, everyone_tag, text_lt, ChangeView, DbView, TagUserView, lemma_text_lt_asymmetric, lemma_text_lt_irreflexive, lemma_text_lt_total, mute_all};
use crate::models::{html_mention_text, mention_text, UserView};
use crate::text::{ascii_lower, ascii_lowercase, decimal, digit_char, is_markdown_special, markdown_escape, html_escape, is_ascii_text, is_white_space, trim_end, trim_start, trimmed};

verus! {

// ---------------------------------------------------------------------------
// The store
// ---------------------------------------------------------------------------

/// Leaving a tag right after joining it takes the user out of it again: the
/// memberships are as before the join, when the user was not in the tag.
pub proof fn lemma_join_then_leave(v: DbView, chat: i64, tag: Seq<char>, user: UserView)
    requires
        !v.tags.contains((chat, tag, user.id)),
    ensures
        v.join(chat, tag, user).leave(chat, tag, user.id).tags == v.tags,
        v.join(chat, tag, user).tags.contains((chat, tag, user.id)),
{
    assert(v.join(chat, tag, user).leave(chat, tag, user.id).tags =~= v.tags);
}

/// Joining twice is joining once: the second join finds the user in the tag
/// (and so answers that they are in it already) and changes nothing.
pub proof fn lemma_join_idempotent(v: DbView, chat: i64, tag: Seq<char>, user: UserView)
    ensures
        v.join(chat, tag, user).tags.contains((chat, tag, user.id)),
        v.join(chat, tag, user).join(chat, tag, user) == v.join(chat, tag, user),
{
    assert(v.join(chat, tag, user).join(chat, tag, user).users =~= v.join(chat, tag, user).users);
    assert(v.join(chat, tag, user).join(chat, tag, user).tags =~= v.join(chat, tag, user).tags);
}

/// After leaving a tag the user is not in it, so leaving again reports that
/// they were not in it.
pub proof fn lemma_leave_then_leave(v: DbView, chat: i64, tag: Seq<char>, user: u64)
    ensures
        !v.leave(chat, tag, user).tags.contains((chat, tag, user)),
        v.leave(chat, tag, user).leave(chat, tag, user) == v.leave(chat, tag, user),
{
    assert(v.leave(chat, tag, user).leave(chat, tag, user).tags =~= v.leave(chat, tag, user).tags);
}

/// Unmuting right after muting lifts the mute again: the mutes are as before
/// the mute, when the user was not muted for that type.
pub proof fn lemma_mute_then_unmute(v: DbView, chat: i64, user: u64, mute_type: Seq<char>)
    requires
        !v.mutes.contains((chat, user, mute_type)),
    ensures
        v.mute(chat, user, mute_type).mutes.contains((chat, user, mute_type)),
        v.mute(chat, user, mute_type).unmute(chat, user, mute_type).mutes == v.mutes,
{
    assert(v.mute(chat, user, mute_type).unmute(chat, user, mute_type).mutes =~= v.mutes);
}

/// A user who joins a tag is reached by the next call of that tag, unless
/// the tag is the one for everybody and the user is muted in that chat, and
/// is mentioned as they were when they joined.
pub proof fn lemma_joined_user_is_called(v: DbView, chat: i64, tag: Seq<char>, user: UserView)
    ensures
        v.join(chat, tag, user).called(chat, tag, None, user.id) == !(tag == everyone_tag()
            && v.mutes.contains((chat, user.id, mute_all()))),
        v.join(chat, tag, user).users[user.id] == user,
{
}

/// A muted user is left out of every call of the tag for everybody in that
/// chat, with or without a mute filter.
pub proof fn lemma_muted_user_not_called_by_everyone_tag(
    v: DbView,
    chat: i64,
    filter: Option<Seq<char>>,
    user: u64,
)
    requires
        v.mutes.contains((chat, user, mute_all())),
    ensures
        !v.called(chat, everyone_tag(), filter, user),
{
}

/// A call of a named tag without a mute filter reaches every known member,
/// muted or not.
pub proof fn lemma_named_tag_reaches_all_members(v: DbView, chat: i64, tag: Seq<char>, user: u64)
    requires
        tag != everyone_tag(),
        v.users.contains_key(user),
        v.tags.contains((chat, tag, user)),
    ensures
        v.called(chat, tag, None, user),
{
}

/// The random pick of `/ask` only falls on users whom a call of the same
/// tag would reach.
pub proof fn lemma_ask_candidates_are_called(v: DbView, chat: i64, tag: Seq<char>, user: u64)
    requires
        v.called(chat, tag, Some(mute_ask()), user),
    ensures
        v.called(chat, tag, None, user),
{
}

/// A call with a mute filter reaches no one whom the same call without a
/// filter would leave out.
pub proof fn lemma_filtered_call_within_call(v: DbView, chat: i64, tag: Seq<char>, m: Seq<char>, user: u64)
    requires
        v.called(chat, tag, Some(m), user),
    ensures
        v.called(chat, tag, None, user),
{
}

/// A user muted for `all`, or for the filter's own type, in a chat is left
/// out of every filtered call there, whatever the tag.
pub proof fn lemma_filtered_call_leaves_out_muted(v: DbView, chat: i64, tag: Seq<char>, m: Seq<char>, user: u64)
    requires
        v.mutes.contains((chat, user, mute_all())) || v.mutes.contains((chat, user, m)),
    ensures
        !v.called(chat, tag, Some(m), user),
{
}

/// Every user in the list of a filtered call is in the list of the same
/// call without a filter.
pub proof fn lemma_filtered_list_within_list(
    v: DbView,
    chat: i64,
    tag: Seq<char>,
    m: Seq<char>,
    filtered: Seq<TagUserView>,
    all: Seq<TagUserView>,
)
    requires
        v.is_call_list(chat, tag, Some(m), filtered),
        v.is_call_list(chat, tag, None, all),
    ensures
        forall|k: int|
            0 <= k < filtered.len() ==> exists|l: int| 0 <= l < all.len() && (#[trigger] all[l]).info.id == (#[trigger] filtered[k]).info.id,
{
    assert forall|k: int| 0 <= k < filtered.len() implies exists|l: int|
        0 <= l < all.len() && (#[trigger] all[l]).info.id == (#[trigger] filtered[k]).info.id by {
        let id = filtered[k].info.id;
        assert(v.called(chat, tag, Some(m), id));
        assert(v.called(chat, tag, None, id));
    }
}

/// Whether two stores hold the same memberships and mutes in `chat`.
pub open spec fn same_rows_in(v: DbView, w: DbView, chat: i64) -> bool {
    &&& forall|t: Seq<char>, u: u64| #[trigger] v.tags.contains((chat, t, u)) == w.tags.contains((chat, t, u))
    &&& forall|u: u64, m: Seq<char>| #[trigger] v.mutes.contains((chat, u, m)) == w.mutes.contains((chat, u, m))
}

/// Whether a row change leaves the memberships and mutes of `chat` alone:
/// it is a user row, a private registration, or a row of another chat.
pub open spec fn change_elsewhere(c: ChangeView, chat: i64) -> bool {
    match c {
        ChangeView::AddTag(ch, _, _) => ch != chat,
        ChangeView::RemoveTag(ch, _, _) => ch != chat,
        ChangeView::AddMute(ch, _, _) => ch != chat,
        ChangeView::RemoveMute(ch, _, _) => ch != chat,
        _ => true,
    }
}

/// Changes that touch only other chats, user rows and private
/// registrations keep the memberships and mutes of `chat`.
pub proof fn lemma_changes_elsewhere_keep_rows(v: DbView, cs: Seq<ChangeView>, chat: i64)
    requires
        forall|i: int| 0 <= i < cs.len() ==> change_elsewhere(#[trigger] cs[i], chat),
    ensures
        same_rows_in(v, apply_changes(v, cs), chat),
    decreases cs.len(),
{
    if cs.len() > 0 {
        let init = cs.drop_last();
        assert forall|i: int| 0 <= i < init.len() implies change_elsewhere(#[trigger] init[i], chat) by {
            assert(init[i] == cs[i]);
        }
        lemma_changes_elsewhere_keep_rows(v, init, chat);
        assert(change_elsewhere(cs[cs.len() - 1], chat));
    }
}

proof fn lemma_tag_listing_transfer(v: DbView, w: DbView, chat: i64, s: Seq<(Seq<char>, nat)>)
    requires
        same_rows_in(v, w, chat),
        v.is_tag_listing(chat, s),
    ensures
        w.is_tag_listing(chat, s),
{
    assert forall|t: Seq<char>| #[trigger] v.members(chat, t) == w.members(chat, t) by {
        assert(v.members(chat, t) =~= w.members(chat, t));
    }
    assert forall|t: Seq<char>| #[trigger] v.tag_exists(chat, t) == w.tag_exists(chat, t) by {
        if v.tag_exists(chat, t) {
            let u = choose|u: u64| v.tags.contains((chat, t, u));
            assert(w.tags.contains((chat, t, u)));
        }
        if w.tag_exists(chat, t) {
            let u = choose|u: u64| w.tags.contains((chat, t, u));
            assert(v.tags.contains((chat, t, u)));
        }
    }
    assert forall|k: int| 0 <= k < s.len() implies {
        &&& w.tag_exists(chat, (#[trigger] s[k]).0)
        &&& w.members(chat, s[k].0).finite()
        &&& s[k].1 == w.members(chat, s[k].0).len()
        &&& s[k].1 >= 1
    } by {
        assert(v.members(chat, s[k].0) == w.members(chat, s[k].0));
        assert(v.tag_exists(chat, s[k].0));
    }
    assert forall|t: Seq<char>| w.tag_exists(chat, t) implies exists|k: int| 0 <= k < s.len() && (#[trigger] s[k]).0 == t by {
        assert(v.tag_exists(chat, t));
    }
}

/// The listing of a chat's tags depends only on that chat's memberships.
pub proof fn lemma_tag_listing_local(v: DbView, w: DbView, chat: i64, s: Seq<(Seq<char>, nat)>)
    requires
        same_rows_in(v, w, chat),
    ensures
        v.is_tag_listing(chat, s) == w.is_tag_listing(chat, s),
{
    if v.is_tag_listing(chat, s) {
        lemma_tag_listing_transfer(v, w, chat, s);
    }
    if w.is_tag_listing(chat, s) {
        lemma_tag_listing_transfer(w, v, chat, s);
    }
}

/// Each chat keeps its own tag listing: after any sequence of changes in
/// other chats, and of user rows and private registrations, a chat's tags
/// are listed as before.
pub proof fn lemma_tag_listing_kept_by_other_chats(v: DbView, cs: Seq<ChangeView>, chat: i64, s: Seq<(Seq<char>, nat)>)
    requires
        forall|i: int| 0 <= i < cs.len() ==> change_elsewhere(#[trigger] cs[i], chat),
    ensures
        v.is_tag_listing(chat, s) == apply_changes(v, cs).is_tag_listing(chat, s),
{
    lemma_changes_elsewhere_keep_rows(v, cs, chat);
    lemma_tag_listing_local(v, apply_changes(v, cs), chat, s);
}

proof fn lemma_call_list_transfer(
    v: DbView,
    w: DbView,
    chat: i64,
    tag: Seq<char>,
    filter: Option<Seq<char>>,
    s: Seq<TagUserView>,
)
    requires
        same_rows_in(v, w, chat),
        v.users == w.users,
        v.private == w.private,
        v.is_call_list(chat, tag, filter, s),
    ensures
        w.is_call_list(chat, tag, filter, s),
{
    assert forall|u: u64| #[trigger] v.called(chat, tag, filter, u) == w.called(chat, tag, filter, u) by {
        assert(v.tags.contains((chat, tag, u)) == w.tags.contains((chat, tag, u)));
        assert(v.mutes.contains((chat, u, mute_all())) == w.mutes.contains((chat, u, mute_all())));
        if let Some(m) = filter {
            assert(v.mutes.contains((chat, u, m)) == w.mutes.contains((chat, u, m)));
        }
    }
    assert forall|k: int| 0 <= k < s.len() implies {
        let id = (#[trigger] s[k]).info.id;
        &&& w.called(chat, tag, filter, id)
        &&& s[k].info == w.users[id]
        &&& s[k].is_private == w.private.contains(id)
    } by {
        assert(v.called(chat, tag, filter, s[k].info.id));
    }
    assert forall|u: u64| w.called(chat, tag, filter, u) implies exists|k: int| 0 <= k < s.len() && (#[trigger] s[k]).info.id == u by {
        assert(v.called(chat, tag, filter, u));
    }
}

/// What a call in a chat reaches depends only on that chat's memberships
/// and mutes and on the user rows and private registrations: stores that
/// agree on these give the same call list.
pub proof fn lemma_call_list_local(
    v: DbView,
    w: DbView,
    chat: i64,
    tag: Seq<char>,
    filter: Option<Seq<char>>,
    s: Seq<TagUserView>,
)
    requires
        same_rows_in(v, w, chat),
        v.users == w.users,
        v.private == w.private,
    ensures
        v.is_call_list(chat, tag, filter, s) == w.is_call_list(chat, tag, filter, s),
{
    if v.is_call_list(chat, tag, filter, s) {
        lemma_call_list_transfer(v, w, chat, tag, filter, s);
    }
    if w.is_call_list(chat, tag, filter, s) {
        lemma_call_list_transfer(w, v, chat, tag, filter, s);
    }
}

/// Every operation of the store is a short list of row changes: joining is
/// a user row and a membership, registering is a user row and a private
/// registration, and leaving, muting and unmuting are one row each.
pub proof fn lemma_operations_are_changes(v: DbView, chat: i64, tag: Seq<char>, user: UserView, m: Seq<char>)
    ensures
        v.join(chat, tag, user) == apply_changes(v, seq![ChangeView::UpsertUser(user), ChangeView::AddTag(chat, tag, user.id)]),
        v.register_private(user) == apply_changes(v, seq![ChangeView::UpsertUser(user), ChangeView::AddPrivate(user.id)]),
        v.upsert(user) == apply_changes(v, seq![ChangeView::UpsertUser(user)]),
        v.leave(chat, tag, user.id) == apply_changes(v, seq![ChangeView::RemoveTag(chat, tag, user.id)]),
        v.mute(chat, user.id, m) == apply_changes(v, seq![ChangeView::AddMute(chat, user.id, m)]),
        v.unmute(chat, user.id, m) == apply_changes(v, seq![ChangeView::RemoveMute(chat, user.id, m)]),
{
    reveal_with_fuel(apply_changes, 3);
    let j = seq![ChangeView::UpsertUser(user), ChangeView::AddTag(chat, tag, user.id)];
    assert(j.drop_last() =~= seq![ChangeView::UpsertUser(user)]);
    assert(apply_changes(v, j).tags =~= v.join(chat, tag, user).tags);
    let p = seq![ChangeView::UpsertUser(user), ChangeView::AddPrivate(user.id)];
    assert(p.drop_last() =~= seq![ChangeView::UpsertUser(user)]);
    assert(apply_changes(v, p).private =~= v.register_private(user).private);
    assert(seq![ChangeView::UpsertUser(user)].drop_last() =~= Seq::<ChangeView>::empty());
    assert(seq![ChangeView::RemoveTag(chat, tag, user.id)].drop_last() =~= Seq::<ChangeView>::empty());
    assert(seq![ChangeView::AddMute(chat, user.id, m)].drop_last() =~= Seq::<ChangeView>::empty());
    assert(seq![ChangeView::RemoveMute(chat, user.id, m)].drop_last() =~= Seq::<ChangeView>::empty());
}

/// Each chat keeps its own tags and mutes: joining, leaving, muting and
/// unmuting in one chat change nothing in another.
pub proof fn lemma_chats_are_separate(
    v: DbView,
    chat: i64,
    other: i64,
    tag: Seq<char>,
    user: UserView,
    mute_type: Seq<char>,
    t: Seq<char>,
    u: u64,
    m: Seq<char>,
)
    requires
        chat != other,
    ensures
        v.join(chat, tag, user).tags.contains((other, t, u)) == v.tags.contains((other, t, u)),
        v.leave(chat, tag, user.id).tags.contains((other, t, u)) == v.tags.contains((other, t, u)),
        v.mute(chat, user.id, mute_type).mutes.contains((other, u, m)) == v.mutes.contains((other, u, m)),
        v.unmute(chat, user.id, mute_type).mutes.contains((other, u, m)) == v.mutes.contains((other, u, m)),
{
}

/// The listing of a chat's tags is determined by the store: two listings
/// that meet `is_tag_listing` are the same.
pub proof fn lemma_tag_listing_unique(v: DbView, chat: i64, s1: Seq<(Seq<char>, nat)>, s2: Seq<(Seq<char>, nat)>)
    requires
        v.is_tag_listing(chat, s1),
        v.is_tag_listing(chat, s2),
    ensures
        s1 == s2,
    decreases s1.len() + s2.len(),
{
    if s1.len() == 0 || s2.len() == 0 {
        if s1.len() > 0 {
            assert(v.tag_exists(chat, s1[0].0));
            let k = choose|k: int| 0 <= k < s2.len() && (#[trigger] s2[k]).0 == s1[0].0;
        }
        if s2.len() > 0 {
            assert(v.tag_exists(chat, s2[0].0));
            let k = choose|k: int| 0 <= k < s1.len() && (#[trigger] s1[k]).0 == s2[0].0;
        }
        assert(s1 =~= s2);
    } else {
        // The first entries hold the least tag name, so they agree.
        let a = s1[0].0;
        let b = s2[0].0;
        assert(v.tag_exists(chat, a));
        assert(v.tag_exists(chat, b));
        let ka = choose|k: int| 0 <= k < s2.len() && (#[trigger] s2[k]).0 == a;
        let kb = choose|k: int| 0 <= k < s1.len() && (#[trigger] s1[k]).0 == b;
        if a != b {
            lemma_text_lt_total(a, b);
            if text_lt(a, b) {
                // b is the least name of s2, yet a (in s2) is below it.
                assert(ka > 0);
                assert(text_lt(s2[0].0, s2[ka].0));
                lemma_text_lt_asymmetric(a, b);
            } else {
                assert(kb > 0);
                assert(text_lt(s1[0].0, s1[kb].0));
                lemma_text_lt_asymmetric(b, a);
            }
        }
        assert(s1[0] == s2[0]);
        // The rest are listings of the store without that tag.
        let w = DbView { tags: v.tags.filter(|r: (i64, Seq<char>, u64)| r.0 != chat || r.1 != a), ..v };
        lemma_listing_rest(v, w, chat, a, s1);
        lemma_listing_rest(v, w, chat, a, s2);
        lemma_tag_listing_unique(w, chat, s1.drop_first(), s2.drop_first());
        assert(s1 =~= seq![s1[0]] + s1.drop_first());
        assert(s2 =~= seq![s2[0]] + s2.drop_first());
    }
}

proof fn lemma_listing_rest(v: DbView, w: DbView, chat: i64, a: Seq<char>, s: Seq<(Seq<char>, nat)>)
    requires
        v.is_tag_listing(chat, s),
        s.len() > 0,
        s[0].0 == a,
        w == (DbView { tags: v.tags.filter(|r: (i64, Seq<char>, u64)| r.0 != chat || r.1 != a), ..v }),
    ensures
        w.is_tag_listing(chat, s.drop_first()),
{
    let r = s.drop_first();
    assert forall|k: int| 0 <= k < r.len() implies {
        &&& w.tag_exists(chat, (#[trigger] r[k]).0)
        &&& w.members(chat, r[k].0).finite()
        &&& r[k].1 == w.members(chat, r[k].0).len()
        &&& r[k].1 >= 1
    } by {
        assert(r[k] == s[k + 1]);
        assert(text_lt(s[0].0, s[k + 1].0));
        lemma_text_lt_irreflexive(a);
        assert(r[k].0 != a);
        let u = choose|u: u64| v.tags.contains((chat, r[k].0, u));
        assert(w.tags.contains((chat, r[k].0, u)));
        assert(w.members(chat, r[k].0) =~= v.members(chat, r[k].0));
    }
    assert forall|t: Seq<char>| w.tag_exists(chat, t) implies exists|k: int| 0 <= k < r.len() && (#[trigger] r[k]).0 == t by {
        let u = choose|u: u64| w.tags.contains((chat, t, u));
        assert(v.tags.contains((chat, t, u)));
        assert(t != a);
        assert(v.tag_exists(chat, t));
        let k = choose|k: int| 0 <= k < s.len() && (#[trigger] s[k]).0 == t;
        assert(k != 0);
        assert(r[k - 1] == s[k]);
    }
    assert forall|x: int, y: int| 0 <= x < y < r.len() implies text_lt(r[x].0, r[y].0) by {
        assert(r[x] == s[x + 1]);
        assert(r[y] == s[y + 1]);
    }
}

/// What a call reaches is determined by the store: two lists that meet
/// `is_call_list` are the same.
pub proof fn lemma_call_list_unique(
    v: DbView,
    chat: i64,
    tag: Seq<char>,
    filter: Option<Seq<char>>,
    s1: Seq<TagUserView>,
    s2: Seq<TagUserView>,
)
    requires
        v.is_call_list(chat, tag, filter, s1),
        v.is_call_list(chat, tag, filter, s2),
    ensures
        s1 == s2,
    decreases s1.len() + s2.len(),
{
    if s1.len() == 0 || s2.len() == 0 {
        if s1.len() > 0 {
            let k = choose|k: int| 0 <= k < s2.len() && (#[trigger] s2[k]).info.id == s1[0].info.id;
        }
        if s2.len() > 0 {
            let k = choose|k: int| 0 <= k < s1.len() && (#[trigger] s1[k]).info.id == s2[0].info.id;
        }
        assert(s1 =~= s2);
    } else {
        let a = s1[0].info.id;
        let b = s2[0].info.id;
        let ka = choose|k: int| 0 <= k < s2.len() && (#[trigger] s2[k]).info.id == a;
        let kb = choose|k: int| 0 <= k < s1.len() && (#[trigger] s1[k]).info.id == b;
        if a < b {
            assert(ka > 0);
        } else if b < a {
            assert(kb > 0);
        }
        assert(s1[0] == s2[0]);
        let w = DbView { tags: v.tags.remove((chat, tag, a)), ..v };
        lemma_call_list_rest(v, w, chat, tag, filter, s1);
        lemma_call_list_rest(v, w, chat, tag, filter, s2);
        lemma_call_list_unique(w, chat, tag, filter, s1.drop_first(), s2.drop_first());
        assert(s1 =~= seq![s1[0]] + s1.drop_first());
        assert(s2 =~= seq![s2[0]] + s2.drop_first());
    }
}

proof fn lemma_call_list_rest(
    v: DbView,
    w: DbView,
    chat: i64,
    tag: Seq<char>,
    filter: Option<Seq<char>>,
    s: Seq<TagUserView>,
)
    requires
        v.is_call_list(chat, tag, filter, s),
        s.len() > 0,
        w == (DbView { tags: v.tags.remove((chat, tag, s[0].info.id)), ..v }),
    ensures
        w.is_call_list(chat, tag, filter, s.drop_first()),
{
    let r = s.drop_first();
    let a = s[0].info.id;
    assert forall|k: int| 0 <= k < r.len() implies {
        let id = (#[trigger] r[k]).info.id;
        &&& w.called(chat, tag, filter, id)
        &&& r[k].info == w.users[id]
        &&& r[k].is_private == w.private.contains(id)
    } by {
        assert(r[k] == s[k + 1]);
        assert(s[0].info.id < s[k + 1].info.id);
    }
    assert forall|u: u64| w.called(chat, tag, filter, u) implies exists|k: int| 0 <= k < r.len() && (#[trigger] r[k]).info.id == u by {
        assert(v.called(chat, tag, filter, u));
        assert(u != a);
        let k = choose|k: int| 0 <= k < s.len() && (#[trigger] s[k]).info.id == u;
        assert(k != 0);
        assert(r[k - 1] == s[k]);
    }
    assert forall|x: int, y: int| 0 <= x < y < r.len() implies r[x].info.id < r[y].info.id by {
        assert(r[x] == s[x + 1]);
        assert(r[y] == s[y + 1]);
    }
}

// ---------------------------------------------------------------------------
// Commands
// ---------------------------------------------------------------------------

/// Users can only add or remove themselves: whatever command a user sends,
/// the tags and mutes of every other user stay as they were.
pub proof fn lemma_commands_touch_only_sender(
    v: DbView,
    ctx: ContextView,
    cmd: CommandView,
    descriptions: Seq<char>,
    v2: DbView,
    out: Seq<OutgoingView>,
    chat: i64,
    tag: Seq<char>,
    user: u64,
    mute_type: Seq<char>,
)
    requires
        handled(v, ctx, cmd, descriptions, v2, out),
        user != ctx.user.id,
    ensures
        v2.tags.contains((chat, tag, user)) == v.tags.contains((chat, tag, user)),
        v2.mutes.contains((chat, user, mute_type)) == v.mutes.contains((chat, user, mute_type)),
        v2.private == v.private,
{
}

/// Whoever sends a command in a private chat with the bot can be notified
/// in private afterwards.
pub proof fn lemma_private_command_registers(
    v: DbView,
    msg: IncomingView,
    cmd: CommandView,
    descriptions: Seq<char>,
    v2: DbView,
    out: Seq<OutgoingView>,
)
    requires
        processed(v, msg, cmd, descriptions, v2, out),
        msg.chat_is_private,
        msg.from is Some,
    ensures
        v2.private.contains(msg.from->0.id),
{
}

/// Whoever writes anything to the bot in a private chat (a command or not)
/// can be notified in private afterwards.
pub proof fn lemma_private_message_registers(
    v: DbView,
    msg: IncomingView,
    text: Seq<char>,
    descriptions: Seq<char>,
    v2: DbView,
    out: Seq<OutgoingView>,
)
    requires
        plain_handled(v, msg, text, descriptions, v2, out),
        msg.chat_is_private,
        msg.from is Some,
    ensures
        v2.private.contains(msg.from->0.id),
{
    if let Some(cmd) = plain_command(text) {
        lemma_private_command_registers(v, msg, cmd, descriptions, v2, out);
    }
}

/// The private notifications of a call go to users the call reaches and who
/// talk to the bot privately, each failing without stopping the call.
pub proof fn lemma_call_notifies_private_members(
    v: DbView,
    ctx: ContextView,
    tag: Seq<char>,
    s: Seq<TagUserView>,
    i: int,
)
    requires
        v.is_call_list(ctx.chat_id, tag, None, s),
        s.len() > 0,
        1 <= i < call_replies(ctx, tag, s).len(),
    ensures
        call_replies(ctx, tag, s)[i].best_effort,
        exists|k: int|
            0 <= k < s.len() && v.called(ctx.chat_id, tag, None, (#[trigger] s[k]).info.id) && s[k].is_private
                && call_replies(ctx, tag, s)[i].chat_id == s[k].info.id as i64,
{
    let text = dm_text(ctx.user.first_name, group_name(ctx), tag);
    assert(call_replies(ctx, tag, s)[i] == dm_messages(s, text)[i - 1]);
    lemma_dm_messages_targets(s, text, i - 1);
}

/// A call sends its group message to the chat it was made in, and then one
/// private notification to each user it reaches who talks to the bot
/// privately, and no other message: every reached private user is
/// notified, and there are exactly as many notifications as such users.
pub proof fn lemma_call_notifies_every_private_member(
    v: DbView,
    ctx: ContextView,
    tag: Seq<char>,
    out: Seq<OutgoingView>,
    u: u64,
)
    requires
        call_outcome(v, ctx, tag, out),
        v.called(ctx.chat_id, tag, None, u),
        v.private.contains(u),
    ensures
        out.len() >= 1,
        out[0].chat_id == ctx.chat_id,
        out[0].parse_mode == ParseMode::Html,
        exists|j: int|
            1 <= j < out.len() && #[trigger] out[j].chat_id == u as i64 && out[j].best_effort
                && out[j].text == dm_text(ctx.user.first_name, group_name(ctx), tag),
        exists|s: Seq<TagUserView>|
            #[trigger] v.is_call_list(ctx.chat_id, tag, None, s) && out.len() == 1 + private_members(s).len(),
{
    let s = choose|s: Seq<TagUserView>| #[trigger] v.is_call_list(ctx.chat_id, tag, None, s) && out == call_replies(ctx, tag, s);
    let k = choose|k: int| 0 <= k < s.len() && (#[trigger] s[k]).info.id == u;
    assert(s.len() > 0);
    let text = dm_text(ctx.user.first_name, group_name(ctx), tag);
    lemma_dm_messages_exact(s, text);
    assert(s[k].is_private);
    let d = dm_messages(s, text);
    let j = choose|j: int| 0 <= j < d.len() && #[trigger] d[j] == notification(s[k], text);
    assert(out[j + 1] == d[j]);
    assert(out[j + 1].chat_id == u as i64 && out[j + 1].best_effort && out[j + 1].text == text);
}

/// The users of a call list who talk to the bot privately, in list order.
pub open spec fn private_members(s: Seq<TagUserView>) -> Seq<TagUserView> {
    s.filter(|u: TagUserView| u.is_private)
}

/// The private notification with text `text` that goes to `u`.
pub open spec fn notification(u: TagUserView, text: Seq<char>) -> OutgoingView {
    OutgoingView {
        chat_id: u.info.id as i64,
        text,
        parse_mode: ParseMode::Plain,
        reply_to: None,
        best_effort: true,
    }
}

/// The private notifications of a call are exactly one for each user of
/// the call list who talks to the bot privately, in the list's order: as
/// many as there are such users, and each such user gets one.
pub proof fn lemma_dm_messages_exact(s: Seq<TagUserView>, text: Seq<char>)
    ensures
        dm_messages(s, text).len() == private_members(s).len(),
        forall|j: int|
            0 <= j < dm_messages(s, text).len() ==> #[trigger] dm_messages(s, text)[j] == notification(
                private_members(s)[j],
                text,
            ),
        forall|k: int|
            0 <= k < s.len() && (#[trigger] s[k]).is_private ==> exists|j: int|
                0 <= j < dm_messages(s, text).len() && #[trigger] dm_messages(s, text)[j] == notification(s[k], text),
    decreases s.len(),
{
    if s.len() > 0 {
        let init = s.drop_last();
        lemma_dm_messages_exact(init, text);
        let d = dm_messages(s, text);
        let di = dm_messages(init, text);
        reveal(Seq::filter);
        assert(private_members(s) == if s.last().is_private {
            private_members(init).push(s.last())
        } else {
            private_members(init)
        });
        assert forall|k: int| 0 <= k < s.len() && (#[trigger] s[k]).is_private implies exists|j: int|
            0 <= j < d.len() && #[trigger] d[j] == notification(s[k], text) by {
            if k < s.len() - 1 {
                assert(s[k] == init[k]);
                let j = choose|j: int| 0 <= j < di.len() && #[trigger] di[j] == notification(init[k], text);
                assert(d[j] == di[j]);
            } else {
                assert(d[d.len() - 1] == notification(s[k], text));
            }
        }
    }
}

proof fn lemma_dm_messages_targets(s: Seq<TagUserView>, text: Seq<char>, j: int)
    requires
        0 <= j < dm_messages(s, text).len(),
    ensures
        dm_messages(s, text)[j].best_effort,
        exists|k: int|
            0 <= k < s.len() && (#[trigger] s[k]).is_private && dm_messages(s, text)[j].chat_id == s[k].info.id
                as i64,
    decreases s.len(),
{
    let prev = dm_messages(s.drop_last(), text);
    if j < prev.len() {
        lemma_dm_messages_targets(s.drop_last(), text, j);
        let k = choose|k: int|
            0 <= k < s.drop_last().len() && (#[trigger] s.drop_last()[k]).is_private && prev[j].chat_id
                == s.drop_last()[k].info.id as i64;
        assert(s[k] == s.drop_last()[k]);
    } else {
        assert(s[s.len() - 1] == s.last());
    }
}

// ---------------------------------------------------------------------------
// Text
// ---------------------------------------------------------------------------

/// A tag name is never empty: the empty name stands for `алл`.
pub proof fn lemma_tag_never_empty(raw: Seq<char>)
    ensures
        tag_text(raw).len() > 0,
{
    reveal_strlit("алл");
    assert(everyone_tag().len() == 3);
}

/// Mapping Russian command words is idempotent, and it gives `call`,
/// `leave`, `join`, `list` or `help` exactly for that word or one of its
/// Russian spellings; every other word is left as it is.
pub proof fn lemma_word_alias(w: Seq<char>)
    ensures
        word_alias(word_alias(w)) == word_alias(w),
        (word_alias(w) == "call"@) == (w == "call"@ || w == "калл"@ || w == "колл"@),
        (word_alias(w) == "leave"@) == (w == "leave"@ || w == "лив"@),
        (word_alias(w) == "join"@) == (w == "join"@ || w == "джоин"@ || w == "жоин"@),
        (word_alias(w) == "list"@) == (w == "list"@ || w == "лист"@),
        (word_alias(w) == "help"@) == (w == "help"@ || w == "хелп"@ || w == "помощь"@),
        word_alias(w) == "call"@ || word_alias(w) == "leave"@ || word_alias(w) == "join"@
            || word_alias(w) == "list"@ || word_alias(w) == "help"@ || word_alias(w) == w,
{
    reveal_strlit("call");
    reveal_strlit("leave");
    reveal_strlit("join");
    reveal_strlit("list");
    reveal_strlit("help");
    reveal_strlit("калл");
    reveal_strlit("колл");
    reveal_strlit("лив");
    reveal_strlit("джоин");
    reveal_strlit("жоин");
    reveal_strlit("лист");
    reveal_strlit("хелп");
    reveal_strlit("помощь");
    assert("call"@.len() != "leave"@.len());
    assert("call"@[0] != "join"@[0]);
    assert("call"@[0] != "list"@[0]);
    assert("call"@[0] != "help"@[0]);
    assert("call"@[0] != "калл"@[0]);
    assert("call"@[0] != "колл"@[0]);
    assert("call"@.len() != "лив"@.len());
    assert("call"@.len() != "джоин"@.len());
    assert("call"@[0] != "жоин"@[0]);
    assert("call"@[0] != "лист"@[0]);
    assert("call"@[0] != "хелп"@[0]);
    assert("call"@.len() != "помощь"@.len());
    assert("leave"@.len() != "join"@.len());
    assert("leave"@.len() != "list"@.len());
    assert("leave"@.len() != "help"@.len());
    assert("leave"@.len() != "калл"@.len());
    assert("leave"@.len() != "колл"@.len());
    assert("leave"@.len() != "лив"@.len());
    assert("leave"@[0] != "джоин"@[0]);
    assert("leave"@.len() != "жоин"@.len());
    assert("leave"@.len() != "лист"@.len());
    assert("leave"@.len() != "хелп"@.len());
    assert("leave"@.len() != "помощь"@.len());
    assert("join"@[0] != "list"@[0]);
    assert("join"@[0] != "help"@[0]);
    assert("join"@[0] != "калл"@[0]);
    assert("join"@[0] != "колл"@[0]);
    assert("join"@.len() != "лив"@.len());
    assert("join"@.len() != "джоин"@.len());
    assert("join"@[0] != "жоин"@[0]);
    assert("join"@[0] != "лист"@[0]);
    assert("join"@[0] != "хелп"@[0]);
    assert("join"@.len() != "помощь"@.len());
    assert("list"@[0] != "help"@[0]);
    assert("list"@[0] != "калл"@[0]);
    assert("list"@[0] != "колл"@[0]);
    assert("list"@.len() != "лив"@.len());
    assert("list"@.len() != "джоин"@.len());
    assert("list"@[0] != "жоин"@[0]);
    assert("list"@[0] != "лист"@[0]);
    assert("list"@[0] != "хелп"@[0]);
    assert("list"@.len() != "помощь"@.len());
    assert("help"@[0] != "калл"@[0]);
    assert("help"@[0] != "колл"@[0]);
    assert("help"@.len() != "лив"@.len());
    assert("help"@.len() != "джоин"@.len());
    assert("help"@[0] != "жоин"@[0]);
    assert("help"@[0] != "лист"@[0]);
    assert("help"@[0] != "хелп"@[0]);
    assert("help"@.len() != "помощь"@.len());
    assert("калл"@[1] != "колл"@[1]);
    assert("калл"@.len() != "лив"@.len());
    assert("калл"@.len() != "джоин"@.len());
    assert("калл"@[0] != "жоин"@[0]);
    assert("калл"@[0] != "лист"@[0]);
    assert("калл"@[0] != "хелп"@[0]);
    assert("калл"@.len() != "помощь"@.len());
    assert("колл"@.len() != "лив"@.len());
    assert("колл"@.len() != "джоин"@.len());
    assert("колл"@[0] != "жоин"@[0]);
    assert("колл"@[0] != "лист"@[0]);
    assert("колл"@[0] != "хелп"@[0]);
    assert("колл"@.len() != "помощь"@.len());
    assert("лив"@.len() != "джоин"@.len());
    assert("лив"@.len() != "жоин"@.len());
    assert("лив"@.len() != "лист"@.len());
    assert("лив"@.len() != "хелп"@.len());
    assert("лив"@.len() != "помощь"@.len());
    assert("джоин"@.len() != "жоин"@.len());
    assert("джоин"@.len() != "лист"@.len());
    assert("джоин"@.len() != "хелп"@.len());
    assert("джоин"@.len() != "помощь"@.len());
    assert("жоин"@[0] != "лист"@[0]);
    assert("жоин"@[0] != "хелп"@[0]);
    assert("жоин"@.len() != "помощь"@.len());
    assert("лист"@[0] != "хелп"@[0]);
    assert("лист"@.len() != "помощь"@.len());
    assert("хелп"@.len() != "помощь"@.len());
}

/// Reading a tag name twice reads it once, and the tag is never empty.
pub proof fn lemma_tag_alias(t: Seq<char>)
    ensures
        tag_alias(tag_alias(t)) == tag_alias(t),
        tag_alias(t).len() > 0,
{
    reveal_strlit("алл");
    reveal_strlit("all");
    reveal_strlit("все");
    reveal_strlit("всё");
}

/// A mute type is `ask` or `all`, and reading it again gives it back.
pub proof fn lemma_mute_alias(t: Seq<char>)
    ensures
        mute_alias(mute_alias(t)) == mute_alias(t),
        mute_alias(t) == "ask"@ || mute_alias(t) == "all"@,
{
    reveal_strlit("ask");
    reveal_strlit("all");
}

/// Whether `s` neither starts nor ends with whitespace.
pub open spec fn edges_clean(s: Seq<char>) -> bool {
    s.len() == 0 || (!is_white_space(s[0]) && !is_white_space(s.last()))
}

proof fn lemma_clean_is_trimmed(s: Seq<char>)
    requires
        edges_clean(s),
    ensures
        trimmed(s) == s,
{
}

proof fn lemma_trim_start_clean(s: Seq<char>)
    ensures
        trim_start(s).len() == 0 || !is_white_space(trim_start(s)[0]),
    decreases s.len(),
{
    if s.len() > 0 && is_white_space(s[0]) {
        lemma_trim_start_clean(s.drop_first());
    }
}

proof fn lemma_trim_end_prefix(s: Seq<char>)
    ensures
        trim_end(s).len() <= s.len(),
        trim_end(s) == s.subrange(0, trim_end(s).len() as int),
        trim_end(s).len() == 0 || !is_white_space(trim_end(s).last()),
    decreases s.len(),
{
    if s.len() > 0 && is_white_space(s.last()) {
        let d = s.drop_last();
        lemma_trim_end_prefix(d);
        let t = trim_end(d);
        assert(d.subrange(0, t.len() as int) =~= s.subrange(0, t.len() as int));
    } else {
        assert(s.subrange(0, s.len() as int) =~= s);
    }
}

/// Trimmed text neither starts nor ends with whitespace, so trimming it
/// again leaves it as it is.
pub proof fn lemma_trimmed_is_clean(s: Seq<char>)
    ensures
        edges_clean(trimmed(s)),
        trimmed(trimmed(s)) == trimmed(s),
{
    lemma_trim_start_clean(s);
    let t = trim_start(s);
    lemma_trim_end_prefix(t);
    let e = trim_end(t);
    if e.len() > 0 {
        assert(e[0] == t[0]);
    }
    lemma_clean_is_trimmed(e);
}

proof fn lemma_ascii_lower_char(c: char)
    requires
        (c as u32) < 128,
    ensures
        (ascii_lower(c) as u32) < 128,
        ascii_lower(ascii_lower(c)) == ascii_lower(c),
        is_white_space(ascii_lower(c)) == is_white_space(c),
{
}

/// ASCII lower-casing keeps ASCII text ASCII, keeps its length and its
/// edges, and lower-casing twice is lower-casing once.
pub proof fn lemma_ascii_lowercase(s: Seq<char>)
    requires
        is_ascii_text(s),
    ensures
        is_ascii_text(ascii_lowercase(s)),
        ascii_lowercase(s).len() == s.len(),
        ascii_lowercase(ascii_lowercase(s)) == ascii_lowercase(s),
        edges_clean(s) ==> edges_clean(ascii_lowercase(s)),
{
    let l = ascii_lowercase(s);
    assert forall|i: int| 0 <= i < s.len() implies (#[trigger] l[i] as u32) < 128 && ascii_lower(l[i]) == l[i]
        && is_white_space(l[i]) == is_white_space(s[i]) by {
        assert((s[i] as u32) < 128);
        lemma_ascii_lower_char(s[i]);
    }
    assert(ascii_lowercase(l) =~= l);
    if s.len() > 0 {
        assert(l.last() == l[s.len() - 1]);
    }
}

/// A tag argument whose trimmed text is ASCII names, by the contract of
/// `Tag::new`, the tag `tag_alias(ascii_lowercase(trimmed(raw)))`. Unless
/// that is the tag for everybody, it is already in normal form: not empty,
/// without whitespace at its edges, ASCII and its own lower case, and read
/// again as an argument it names itself.
pub proof fn lemma_ascii_tag_is_normal(raw: Seq<char>)
    requires
        is_ascii_text(trimmed(raw)),
        tag_alias(ascii_lowercase(trimmed(raw))) != everyone_tag(),
    ensures
        ({
            let t = tag_alias(ascii_lowercase(trimmed(raw)));
            &&& t.len() > 0
            &&& edges_clean(t)
            &&& trimmed(t) == t
            &&& is_ascii_text(t)
            &&& ascii_lowercase(t) == t
            &&& tag_alias(ascii_lowercase(trimmed(t))) == t
        }),
{
    let tr = trimmed(raw);
    lemma_trimmed_is_clean(raw);
    lemma_ascii_lowercase(tr);
    let l = ascii_lowercase(tr);
    assert(tag_alias(l) == l);
    lemma_clean_is_trimmed(l);
}

/// A command word whose trimmed text is ASCII is, by the contract of
/// `normalize_word`, its ASCII lower case (the Russian spellings are not
/// ASCII); that word is in normal form, and normalizing it again gives it
/// back.
pub proof fn lemma_ascii_word_is_normal(word: Seq<char>)
    requires
        is_ascii_text(trimmed(word)),
    ensures
        ({
            let w = word_alias(ascii_lowercase(trimmed(word)));
            &&& w == ascii_lowercase(trimmed(word))
            &&& edges_clean(w)
            &&& trimmed(w) == w
            &&& is_ascii_text(w)
            &&& word_alias(ascii_lowercase(trimmed(w))) == w
        }),
{
    let tr = trimmed(word);
    lemma_trimmed_is_clean(word);
    lemma_ascii_lowercase(tr);
    let l = ascii_lowercase(tr);
    lemma_clean_is_trimmed(l);
    lemma_ascii_not_russian_word(l);
}

proof fn lemma_ascii_not_russian_word(l: Seq<char>)
    requires
        is_ascii_text(l),
    ensures
        word_alias(l) == l,
{
    reveal_strlit("калл");
    reveal_strlit("колл");
    reveal_strlit("лив");
    reveal_strlit("джоин");
    reveal_strlit("жоин");
    reveal_strlit("лист");
    reveal_strlit("хелп");
    reveal_strlit("помощь");
    if l.len() > 0 {
        assert((l[0] as u32) < 128);
    }
    assert(l != "калл"@ && l != "колл"@ && l != "лив"@ && l != "джоин"@ && l != "жоин"@ && l != "лист"@
        && l != "хелп"@ && l != "помощь"@) by {
        if l.len() > 0 {
            assert((l[0] as u32) < 128);
            assert(('к' as u32) >= 128);
        }
    }
}

/// A blank tag argument (or none) names the tag for everybody, `алл`: its
/// trimmed text is empty, hence ASCII, and `Tag::new` gives
/// `tag_alias` of it.
pub proof fn lemma_blank_tag_is_default(raw: Seq<char>)
    requires
        forall|i: int| 0 <= i < raw.len() ==> is_white_space(#[trigger] raw[i]),
    ensures
        is_ascii_text(trimmed(raw)),
        tag_alias(ascii_lowercase(trimmed(raw))) == everyone_tag(),
{
    lemma_trim_start_blank(raw);
    assert(ascii_lowercase(trimmed(raw)) =~= Seq::<char>::empty());
}

/// A blank tag argument (nothing but whitespace) names the same tag as no
/// argument at all.
pub proof fn lemma_blank_tag_is_no_tag(raw: Seq<char>)
    requires
        forall|i: int| 0 <= i < raw.len() ==> is_white_space(#[trigger] raw[i]),
    ensures
        tag_text(raw) == tag_text(Seq::empty()),
{
    lemma_trim_start_blank(raw);
    assert(trimmed(Seq::<char>::empty()) =~= Seq::<char>::empty());
}

proof fn lemma_trim_start_blank(s: Seq<char>)
    requires
        forall|i: int| 0 <= i < s.len() ==> is_white_space(#[trigger] s[i]),
    ensures
        trim_start(s) == Seq::<char>::empty(),
        trimmed(s) == Seq::<char>::empty(),
    decreases s.len(),
{
    if s.len() > 0 {
        assert(is_white_space(s[0]));
        let t = s.drop_first();
        assert forall|i: int| 0 <= i < t.len() implies is_white_space(#[trigger] t[i]) by {
            assert(t[i] == s[i + 1]);
        }
        lemma_trim_start_blank(t);
    } else {
        assert(s =~= Seq::<char>::empty());
    }
    assert(trim_end(Seq::<char>::empty()) == Seq::<char>::empty());
}

/// Text escaped for HTML holds no `<` or `>`, so it cannot open or close a
/// tag.
pub proof fn lemma_html_escape_no_angle(s: Seq<char>, i: int)
    requires
        0 <= i < html_escape(s).len(),
    ensures
        html_escape(s)[i] != '<',
        html_escape(s)[i] != '>',
    decreases s.len(),
{
    if s.len() > 0 {
        let prev = html_escape(s.drop_last());
        if i < prev.len() {
            lemma_html_escape_no_angle(s.drop_last(), i);
        }
    }
}

} // verus!

verus! {

// ---------------------------------------------------------------------------
// Who a call reaches, on the tables
// ---------------------------------------------------------------------------

/// The store `v` with the private registrations `p` in place of its own.
pub open spec fn with_private(v: DbView, p: Set<u64>) -> DbView {
    DbView { private: p, ..v }
}

/// Who a call reaches, stated on the tables: a known user who is a member
/// of the tag in the chat, unless the user is muted for `all` in that chat
/// and the tag is the one for everybody or the call has a mute filter, or
/// the user is muted for the filter's own type. Whether the user talks to
/// the bot privately plays no part.
pub proof fn lemma_called_exactly(v: DbView, chat: i64, tag: Seq<char>, filter: Option<Seq<char>>, user: u64)
    ensures
        v.called(chat, tag, filter, user) == (v.users.contains_key(user) && v.tags.contains((chat, tag, user))
            && !((tag == "алл"@ || filter is Some) && v.mutes.contains((chat, user, "all"@)))
            && !(filter matches Some(m) && v.mutes.contains((chat, user, m)))),
        forall|p: Set<u64>| #[trigger] with_private(v, p).called(chat, tag, filter, user) == v.called(chat, tag, filter, user),
{
}

/// A filtered call reaches every known member of the tag in the chat who
/// has neither a mute for `all` nor one of the filter's type there.
pub proof fn lemma_filtered_call_reaches_unmuted(v: DbView, chat: i64, tag: Seq<char>, m: Seq<char>, user: u64)
    requires
        v.users.contains_key(user),
        v.tags.contains((chat, tag, user)),
        !v.mutes.contains((chat, user, "all"@)),
        !v.mutes.contains((chat, user, m)),
    ensures
        v.called(chat, tag, Some(m), user),
{
}

// ---------------------------------------------------------------------------
// Where replies go
// ---------------------------------------------------------------------------

/// Every command answers in the chat it came from: its first message goes
/// there, and so does every message whose failure stops the command. Only
/// `/call` sends more than one message; its others are the private
/// notifications, whose failures are ignored.
pub proof fn lemma_replies_go_to_the_chat(
    v: DbView,
    ctx: ContextView,
    cmd: CommandView,
    descriptions: Seq<char>,
    v2: DbView,
    out: Seq<OutgoingView>,
)
    requires
        handled(v, ctx, cmd, descriptions, v2, out),
    ensures
        out.len() >= 1,
        out[0].chat_id == ctx.chat_id,
        !out[0].best_effort,
        forall|i: int| 0 <= i < out.len() && !(#[trigger] out[i]).best_effort ==> out[i].chat_id == ctx.chat_id,
        !(cmd is Call) ==> out.len() == 1,
{
    match cmd {
        CommandView::Call(a) => {
            let tag = tag_text(a);
            let s = choose|s: Seq<TagUserView>| #[trigger] v.is_call_list(ctx.chat_id, tag, None, s) && out == call_replies(ctx, tag, s);
            if s.len() > 0 {
                let text = dm_text(ctx.user.first_name, group_name(ctx), tag);
                lemma_dm_messages_exact(s, text);
                let d = dm_messages(s, text);
                assert forall|i: int| 1 <= i < out.len() implies (#[trigger] out[i]).best_effort by {
                    assert(out[i] == d[i - 1]);
                }
            }
        },
        CommandView::List => {
            let s = choose|s: Seq<(Seq<char>, nat)>| #[trigger] v.is_tag_listing(ctx.chat_id, s) && out[0] == list_reply(ctx.chat_id, s);
        },
        CommandView::Ask(a) => {
            lemma_ask_answers_in_the_chat(v, ctx, a, out[0]);
        },
        _ => {},
    }
}

/// `/ask` answers in the chat it came from. When the tag it picks from has
/// someone to pick, the answer replies to the command's message and names
/// a known member of that tag who is muted there neither for `ask` nor for
/// `all`.
pub proof fn lemma_ask_answers_in_the_chat(v: DbView, ctx: ContextView, input: Seq<char>, r: OutgoingView)
    requires
        ask_outcome(v, ctx, input, r),
    ensures
        r.chat_id == ctx.chat_id,
        !r.best_effort,
        has_candidates(v, ctx.chat_id, ask_tag(v, ctx.chat_id, input)) ==> {
            &&& r.reply_to == Some(ctx.message_id)
            &&& exists|u: u64|
                {
                    &&& v.users.contains_key(u)
                    &&& v.tags.contains((ctx.chat_id, ask_tag(v, ctx.chat_id, input), u))
                    &&& !v.mutes.contains((ctx.chat_id, u, "ask"@))
                    &&& !v.mutes.contains((ctx.chat_id, u, "all"@))
                    &&& r.text == "It's "@ + mention_text(#[trigger] v.users[u]) + "!"@
                }
        },
{
    let tag = ask_tag(v, ctx.chat_id, input);
    if has_candidates(v, ctx.chat_id, tag) {
        let u = choose|u: u64| v.called(ctx.chat_id, tag, Some(mute_ask()), u) && r == crate::commands::ask::ask_pick_reply(ctx, v.users[u]);
        assert(v.users.contains_key(u));
    }
}

// ---------------------------------------------------------------------------
// Plain commands
// ---------------------------------------------------------------------------

/// A plain message made of a word, a space and the rest names the command
/// that the normalized word names, with the rest as its argument (`list`
/// and `help` take none); a word that names no command gives no command.
pub proof fn lemma_plain_command_with_argument(w: Seq<char>, rest: Seq<char>)
    requires
        !w.contains(' '),
    ensures
        ({
            let text = w + seq![' '] + rest;
            let n = normalized_word(w);
            &&& n == "ask"@ ==> plain_command(text) == Some(CommandView::Ask(rest))
            &&& n == "call"@ ==> plain_command(text) == Some(CommandView::Call(rest))
            &&& n == "join"@ ==> plain_command(text) == Some(CommandView::Join(rest))
            &&& n == "leave"@ ==> plain_command(text) == Some(CommandView::Leave(rest))
            &&& n == "mute"@ ==> plain_command(text) == Some(CommandView::Mute(rest))
            &&& n == "unmute"@ ==> plain_command(text) == Some(CommandView::Unmute(rest))
            &&& n == "list"@ ==> plain_command(text) == Some(CommandView::List)
            &&& n == "help"@ ==> plain_command(text) == Some(CommandView::Help)
            &&& !(n == "ask"@ || n == "call"@ || n == "join"@ || n == "leave"@ || n == "mute"@ || n == "unmute"@
                || n == "list"@ || n == "help"@) ==> plain_command(text) is None
        }),
{
    lemma_command_words_distinct();
    let text = w + seq![' '] + rest;
    let i = w.len() as int;
    assert(text[i] == ' ');
    assert forall|j: int| 0 <= j < i implies text[j] != ' ' by {
        assert(text[j] == w[j]);
    }
    lemma_first_space_unique(text, i);
    assert(text.take(i) =~= w);
    assert(text.skip(i + 1) =~= rest);
}

/// A plain message of one word (no space) names the command that the
/// normalized word names, with an empty argument.
pub proof fn lemma_plain_command_alone(w: Seq<char>)
    requires
        !w.contains(' '),
    ensures
        ({
            let n = normalized_word(w);
            let e = Seq::<char>::empty();
            &&& n == "ask"@ ==> plain_command(w) == Some(CommandView::Ask(e))
            &&& n == "call"@ ==> plain_command(w) == Some(CommandView::Call(e))
            &&& n == "join"@ ==> plain_command(w) == Some(CommandView::Join(e))
            &&& n == "leave"@ ==> plain_command(w) == Some(CommandView::Leave(e))
            &&& n == "mute"@ ==> plain_command(w) == Some(CommandView::Mute(e))
            &&& n == "unmute"@ ==> plain_command(w) == Some(CommandView::Unmute(e))
            &&& n == "list"@ ==> plain_command(w) == Some(CommandView::List)
            &&& n == "help"@ ==> plain_command(w) == Some(CommandView::Help)
            &&& !(n == "ask"@ || n == "call"@ || n == "join"@ || n == "leave"@ || n == "mute"@ || n == "unmute"@
                || n == "list"@ || n == "help"@) ==> plain_command(w) is None
        }),
{
    lemma_command_words_distinct();
}

proof fn lemma_command_words_distinct()
    ensures
        "ask"@ != "call"@, "ask"@ != "join"@, "ask"@ != "leave"@, "ask"@ != "mute"@, "ask"@ != "unmute"@,
        "ask"@ != "list"@, "ask"@ != "help"@,
        "call"@ != "join"@, "call"@ != "leave"@, "call"@ != "mute"@, "call"@ != "unmute"@, "call"@ != "list"@,
        "call"@ != "help"@,
        "join"@ != "leave"@, "join"@ != "mute"@, "join"@ != "unmute"@, "join"@ != "list"@, "join"@ != "help"@,
        "leave"@ != "mute"@, "leave"@ != "unmute"@, "leave"@ != "list"@, "leave"@ != "help"@,
        "mute"@ != "unmute"@, "mute"@ != "list"@, "mute"@ != "help"@,
        "unmute"@ != "list"@, "unmute"@ != "help"@,
        "list"@ != "help"@,
{
    reveal_strlit("ask");
    reveal_strlit("call");
    reveal_strlit("join");
    reveal_strlit("leave");
    reveal_strlit("mute");
    reveal_strlit("unmute");
    reveal_strlit("list");
    reveal_strlit("help");
    assert("ask"@[0] != "call"@[0]);
    assert("ask"@[0] != "join"@[0]);
    assert("ask"@[0] != "leave"@[0]);
    assert("ask"@[0] != "mute"@[0]);
    assert("ask"@[0] != "unmute"@[0]);
    assert("ask"@[0] != "list"@[0]);
    assert("ask"@[0] != "help"@[0]);
    assert("call"@[0] != "join"@[0]);
    assert("call"@[0] != "leave"@[0]);
    assert("call"@[0] != "mute"@[0]);
    assert("call"@[0] != "unmute"@[0]);
    assert("call"@[0] != "list"@[0]);
    assert("call"@[0] != "help"@[0]);
    assert("join"@[0] != "leave"@[0]);
    assert("join"@[0] != "mute"@[0]);
    assert("join"@[0] != "unmute"@[0]);
    assert("join"@[0] != "list"@[0]);
    assert("join"@[0] != "help"@[0]);
    assert("leave"@[1] != "list"@[1]);
    assert("leave"@[0] != "mute"@[0]);
    assert("leave"@[0] != "unmute"@[0]);
    assert("leave"@[0] != "help"@[0]);
    assert("mute"@[0] != "unmute"@[0]);
    assert("mute"@[0] != "list"@[0]);
    assert("mute"@[0] != "help"@[0]);
    assert("unmute"@[0] != "list"@[0]);
    assert("unmute"@[0] != "help"@[0]);
    assert("list"@[0] != "help"@[0]);
}

// ---------------------------------------------------------------------------
// Names
// ---------------------------------------------------------------------------

/// Exactly the empty name, `all`, `все` and `всё` (and `алл` itself) stand
/// for the tag for everybody; every other name is its own tag.
pub proof fn lemma_tag_alias_exact(t: Seq<char>)
    ensures
        (tag_alias(t) == everyone_tag()) == (t.len() == 0 || t == "all"@ || t == "все"@ || t == "всё"@ || t == "алл"@),
        !(t.len() == 0 || t == "all"@ || t == "все"@ || t == "всё"@) ==> tag_alias(t) == t,
{
}

/// Exactly `ask` names the mute type `ask`; everything else names `all`.
pub proof fn lemma_mute_alias_exact(t: Seq<char>)
    ensures
        (mute_alias(t) == "ask"@) == (t == "ask"@),
        t != "ask"@ ==> mute_alias(t) == "all"@,
{
    reveal_strlit("ask");
    reveal_strlit("all");
    assert("all"@[1] != "ask"@[1]);
}

} // verus!

verus! {

// ---------------------------------------------------------------------------
// The store's operations, row by row
// ---------------------------------------------------------------------------

/// Joining adds exactly the membership of the user in the tag of the chat,
/// and stores the user as given; nothing else changes.
pub proof fn lemma_join_rows(v: DbView, chat: i64, tag: Seq<char>, user: UserView, c: i64, t: Seq<char>, x: u64, m: Seq<char>)
    ensures
        v.join(chat, tag, user).tags.contains((c, t, x)) == ((c == chat && t == tag && x == user.id) || v.tags.contains((c, t, x))),
        v.join(chat, tag, user).mutes.contains((c, x, m)) == v.mutes.contains((c, x, m)),
        v.join(chat, tag, user).private.contains(x) == v.private.contains(x),
        v.join(chat, tag, user).users.contains_key(x) == (x == user.id || v.users.contains_key(x)),
        v.join(chat, tag, user).users[user.id] == user,
        x != user.id ==> v.join(chat, tag, user).users[x] == v.users[x],
{
}

/// Leaving removes exactly the membership of the user in the tag of the
/// chat; nothing else changes.
pub proof fn lemma_leave_rows(v: DbView, chat: i64, tag: Seq<char>, user: u64, c: i64, t: Seq<char>, x: u64, m: Seq<char>)
    ensures
        v.leave(chat, tag, user).tags.contains((c, t, x)) == (!(c == chat && t == tag && x == user) && v.tags.contains((c, t, x))),
        v.leave(chat, tag, user).mutes.contains((c, x, m)) == v.mutes.contains((c, x, m)),
        v.leave(chat, tag, user).private == v.private,
        v.leave(chat, tag, user).users == v.users,
{
}

/// Muting adds exactly the mute of the user of that type in the chat;
/// nothing else changes.
pub proof fn lemma_mute_rows(v: DbView, chat: i64, user: u64, kind: Seq<char>, c: i64, t: Seq<char>, x: u64, m: Seq<char>)
    ensures
        v.mute(chat, user, kind).mutes.contains((c, x, m)) == ((c == chat && x == user && m == kind) || v.mutes.contains((c, x, m))),
        v.mute(chat, user, kind).tags.contains((c, t, x)) == v.tags.contains((c, t, x)),
        v.mute(chat, user, kind).private == v.private,
        v.mute(chat, user, kind).users == v.users,
{
}

/// Unmuting removes exactly the mute of the user of that type in the chat;
/// nothing else changes.
pub proof fn lemma_unmute_rows(v: DbView, chat: i64, user: u64, kind: Seq<char>, c: i64, t: Seq<char>, x: u64, m: Seq<char>)
    ensures
        v.unmute(chat, user, kind).mutes.contains((c, x, m)) == (!(c == chat && x == user && m == kind) && v.mutes.contains((c, x, m))),
        v.unmute(chat, user, kind).tags.contains((c, t, x)) == v.tags.contains((c, t, x)),
        v.unmute(chat, user, kind).private == v.private,
        v.unmute(chat, user, kind).users == v.users,
{
}

/// Storing a user replaces that user's row only; registering for private
/// notices also marks that user, and only that user.
pub proof fn lemma_user_rows(v: DbView, user: UserView, c: i64, t: Seq<char>, x: u64, m: Seq<char>)
    ensures
        v.upsert(user).users.contains_key(x) == (x == user.id || v.users.contains_key(x)),
        v.upsert(user).users[user.id] == user,
        x != user.id ==> v.upsert(user).users[x] == v.users[x],
        v.upsert(user).tags == v.tags,
        v.upsert(user).mutes == v.mutes,
        v.upsert(user).private == v.private,
        v.register_private(user).private.contains(x) == (x == user.id || v.private.contains(x)),
        v.register_private(user).users == v.upsert(user).users,
        v.register_private(user).tags == v.tags,
        v.register_private(user).mutes == v.mutes,
{
}

/// The users counted as muted in a chat are exactly those with a mute of
/// type `all` there.
pub proof fn lemma_muted_all_exact(v: DbView, chat: i64, user: u64)
    ensures
        v.muted_all(chat).contains(user) == v.mutes.contains((chat, user, "all"@)),
{
}

/// The tags of a chat that exist are exactly those with a member there.
pub proof fn lemma_tag_exists_exact(v: DbView, chat: i64, tag: Seq<char>, user: u64)
    ensures
        v.tags.contains((chat, tag, user)) ==> v.tag_exists(chat, tag),
        v.tag_exists(chat, tag) == (v.members(chat, tag).len() > 0 || !v.members(chat, tag).finite()),
{
    if v.tag_exists(chat, tag) {
        let u = choose|u: u64| v.tags.contains((chat, tag, u));
        assert(v.members(chat, tag).contains(u));
        if v.members(chat, tag).finite() {
            vstd::set_lib::lemma_set_empty_equivalency_len(v.members(chat, tag));
        }
    } else {
        assert(v.members(chat, tag) =~= Set::<u64>::empty());
    }
}

// ---------------------------------------------------------------------------
// The texts of the replies
// ---------------------------------------------------------------------------

/// The mentions of a call are the mention of each user, in the list's
/// order, separated by single spaces: one user gives their mention, and
/// two lists one after the other give their mentions joined by a space.
pub proof fn lemma_mentions_join(s: Seq<TagUserView>, t: Seq<TagUserView>, u: TagUserView)
    ensures
        mentions(seq![u]) == html_mention_text(u.info),
        mentions(Seq::<TagUserView>::empty()) == Seq::<char>::empty(),
        s.len() > 0 && t.len() > 0 ==> mentions(s + t) == mentions(s) + seq![' '] + mentions(t),
    decreases t.len(),
{
    if s.len() > 0 && t.len() > 0 {
        let st = s + t;
        if t.len() == 1 {
            assert(st.drop_last() =~= s);
            assert(st.last() == t[0]);
        } else {
            lemma_mentions_join(s, t.drop_last(), u);
            assert(st.drop_last() =~= s + t.drop_last());
            assert(st.last() == t.last());
            assert(mentions(st) =~= mentions(s) + seq![' '] + mentions(t));
        }
    }
}

/// The tag list is one line per tag, in the listing's order, separated by
/// line breaks: one tag gives its line, and two listings one after the
/// other give their lines joined by a line break.
pub proof fn lemma_tag_lines_join(s: Seq<(Seq<char>, nat)>, t: Seq<(Seq<char>, nat)>, e: (Seq<char>, nat))
    ensures
        tag_lines(seq![e]) == tag_line(e),
        s.len() > 0 && t.len() > 0 ==> tag_lines(s + t) == tag_lines(s) + seq!['\n'] + tag_lines(t),
    decreases t.len(),
{
    if s.len() > 0 && t.len() > 0 {
        let st = s + t;
        if t.len() == 1 {
            assert(st.drop_last() =~= s);
            assert(st.last() == t[0]);
        } else {
            lemma_tag_lines_join(s, t.drop_last(), e);
            assert(st.drop_last() =~= s + t.drop_last());
            assert(st.last() == t.last());
            assert(tag_lines(st) =~= tag_lines(s) + seq!['\n'] + tag_lines(t));
        }
    }
}

/// The number that a string of decimal digits denotes.
pub open spec fn digits_value(s: Seq<char>) -> nat
    decreases s.len(),
{
    if s.len() == 0 {
        0
    } else {
        digits_value(s.drop_last()) * 10 + ((s.last() as nat) - ('0' as nat)) as nat
    }
}

proof fn lemma_digit_char_value(d: nat)
    requires
        d < 10,
    ensures
        (digit_char(d) as nat) == ('0' as nat) + d,
{
    let t = seq!['0', '1', '2', '3', '4', '5', '6', '7', '8', '9'];
    assert(digit_char(d) == t[d as int]);
    if d == 0 { assert(t[0] == '0'); } else if d == 1 { assert(t[1] == '1'); } else if d == 2 { assert(t[2] == '2'); }
    else if d == 3 { assert(t[3] == '3'); } else if d == 4 { assert(t[4] == '4'); } else if d == 5 { assert(t[5] == '5'); }
    else if d == 6 { assert(t[6] == '6'); } else if d == 7 { assert(t[7] == '7'); } else if d == 8 { assert(t[8] == '8'); }
    else { assert(t[9] == '9'); }
}

/// The decimal notation of a number is made of digits, has no leading zero
/// (but for zero itself), and denotes that number.
pub proof fn lemma_decimal_denotes(n: nat)
    ensures
        decimal(n).len() > 0,
        forall|i: int| 0 <= i < decimal(n).len() ==> '0' <= #[trigger] decimal(n)[i] <= '9',
        decimal(n)[0] != '0' || n == 0,
        digits_value(decimal(n)) == n,
    decreases n,
{
    lemma_digit_char_value(n % 10);
    if n < 10 {
        assert(decimal(n) =~= seq![digit_char(n)]);
        assert(decimal(n).drop_last() =~= Seq::<char>::empty());
        assert(digits_value(decimal(n)) == digits_value(Seq::<char>::empty()) * 10 + ((decimal(n).last() as nat) - ('0' as nat)) as nat);
    }
    if n >= 10 {
        lemma_decimal_denotes(n / 10);
        let p = decimal(n / 10);
        let d = decimal(n);
        assert(d.drop_last() =~= p);
        assert(d[0] == p[0]);
        assert forall|i: int| 0 <= i < d.len() implies '0' <= #[trigger] d[i] <= '9' by {
            if i < p.len() {
                assert(d[i] == p[i]);
            }
        }
        assert(d.last() == digit_char(n % 10));
        assert(digits_value(d) == digits_value(p) * 10 + ((d.last() as nat) - ('0' as nat)) as nat);
        assert(n == (n / 10) * 10 + n % 10);
    }
}

} // verus!

verus! {

// ---------------------------------------------------------------------------
// Replies that report a change of the store
// ---------------------------------------------------------------------------

/// `/join`, `/leave`, `/mute` and `/unmute` leave the sender in the state
/// asked for, and their reply says whether that was a change: added only
/// when the membership is new, removed only when there was one, muted
/// only when there was no such mute, unmuted only when there was one.
pub proof fn lemma_store_replies_report_change(
    v: DbView,
    ctx: ContextView,
    cmd: CommandView,
    descriptions: Seq<char>,
    v2: DbView,
    out: Seq<OutgoingView>,
)
    requires
        handled(v, ctx, cmd, descriptions, v2, out),
    ensures
        cmd matches CommandView::Join(a) ==> {
            let tag = tag_text(a);
            &&& v2.tags.contains((ctx.chat_id, tag, ctx.user.id))
            &&& (out[0].text == "You have been added to tag '"@ + markdown_escape(tag) + "'"@)
                == !v.tags.contains((ctx.chat_id, tag, ctx.user.id))
        },
        cmd matches CommandView::Leave(a) ==> {
            let tag = tag_text(a);
            &&& !v2.tags.contains((ctx.chat_id, tag, ctx.user.id))
            &&& (out[0].text == "✅ "@ + markdown_escape("You have been removed from tag '"@ + markdown_escape(tag) + "'"@))
                == v.tags.contains((ctx.chat_id, tag, ctx.user.id))
        },
        cmd matches CommandView::Mute(a) ==> {
            let kind = mute_kind(a);
            &&& v2.mutes.contains((ctx.chat_id, ctx.user.id, kind))
            &&& (out[0].text == "You are already muted for this"@) == v.mutes.contains((ctx.chat_id, ctx.user.id, kind))
        },
        cmd matches CommandView::Unmute(a) ==> {
            let kind = mute_kind(a);
            &&& !v2.mutes.contains((ctx.chat_id, ctx.user.id, kind))
            &&& (out[0].text == "You were not muted for this anyway"@) == !v.mutes.contains((ctx.chat_id, ctx.user.id, kind))
        },
{
    reveal_strlit("You have been added to tag '");
    reveal_strlit("You are already in tag '");
    reveal_strlit("✅ ");
    reveal_strlit("❌ ");
    reveal_strlit("You are already muted for this");
    reveal_strlit("You have been muted for the 'ask' command and won't be mentioned by it");
    reveal_strlit("You have been muted and won't be called in group mentions");
    reveal_strlit("You were not muted for this anyway");
    reveal_strlit("You have been unmuted for the 'ask' command and can be mentioned by it again");
    reveal_strlit("You have been unmuted and will be called in group mentions again");
    match cmd {
        CommandView::Join(a) => {
            let tag = tag_text(a);
            let added = "You have been added to tag '"@ + markdown_escape(tag) + "'"@;
            let already = "You are already in tag '"@ + markdown_escape(tag) + "'"@;
            assert(added[4] == 'h');
            assert(already[4] == 'a');
        },
        CommandView::Leave(a) => {
            let tag = tag_text(a);
            let ok = "✅ "@ + markdown_escape("You have been removed from tag '"@ + markdown_escape(tag) + "'"@);
            let bad = "❌ "@ + markdown_escape("You are not in tag '"@ + markdown_escape(tag) + "' or it doesn't exist"@);
            assert(ok[0] != bad[0]);
        },
        CommandView::Mute(a) => {
            assert("You are already muted for this"@[4] != "You have been muted for the 'ask' command and won't be mentioned by it"@[4]);
            assert("You are already muted for this"@[4] != "You have been muted and won't be called in group mentions"@[4]);
        },
        CommandView::Unmute(a) => {
            assert("You were not muted for this anyway"@[4] != "You have been unmuted for the 'ask' command and can be mentioned by it again"@[4]);
            assert("You were not muted for this anyway"@[4] != "You have been unmuted and will be called in group mentions again"@[4]);
        },
        _ => {},
    }
}

} // verus!

verus! {

/// The tag `/ask` picks from: the tag named by the first word of its
/// trimmed input when that tag has a known member who is muted there
/// neither for `ask` nor for `all`; otherwise, and for a blank input, the
/// tag for everybody, `алл`.
pub proof fn lemma_ask_tag_choice(v: DbView, chat: i64, input: Seq<char>, u: u64)
    ensures
        ({
            let named = tag_text(split_head(trimmed(input)));
            &&& (trimmed(input).len() > 0 && v.users.contains_key(u) && v.tags.contains((chat, named, u))
                && !v.mutes.contains((chat, u, "ask"@)) && !v.mutes.contains((chat, u, "all"@)))
                ==> ask_tag(v, chat, input) == named
            &&& (trimmed(input).len() == 0 || forall|x: u64|
                !(v.users.contains_key(x) && #[trigger] v.tags.contains((chat, named, x))
                    && !v.mutes.contains((chat, x, "ask"@)) && !v.mutes.contains((chat, x, "all"@))))
                ==> ask_tag(v, chat, input) == "алл"@
        }),
{
    let named = tag_text(split_head(trimmed(input)));
    if trimmed(input).len() > 0 && v.users.contains_key(u) && v.tags.contains((chat, named, u))
        && !v.mutes.contains((chat, u, "ask"@)) && !v.mutes.contains((chat, u, "all"@)) {
        assert(v.called(chat, named, Some(mute_ask()), u));
    }
    if has_candidates(v, chat, named) {
        let x = choose|x: u64| v.called(chat, named, Some(mute_ask()), x);
        assert(v.tags.contains((chat, named, x)));
    }
}

} // verus!

verus! {

/// Processing a command stores its sender as Telegram gave them; in a
/// group it leaves the private registrations alone, and without a sender
/// it changes nothing and answers once in the chat.
pub proof fn lemma_processing_stores_sender(
    v: DbView,
    msg: IncomingView,
    cmd: CommandView,
    descriptions: Seq<char>,
    v2: DbView,
    out: Seq<OutgoingView>,
)
    requires
        processed(v, msg, cmd, descriptions, v2, out),
    ensures
        msg.from matches Some(u) ==> v2.users.contains_key(u.id) && v2.users[u.id] == u,
        !msg.chat_is_private ==> v2.private == v.private,
        msg.from is None ==> v2 == v && out.len() == 1 && out[0].chat_id == msg.chat_id,
{
}

/// A plain message that names no command is never answered; it changes the
/// store only by registering the sender of a private message.
pub proof fn lemma_plain_text_without_command(
    v: DbView,
    msg: IncomingView,
    text: Seq<char>,
    descriptions: Seq<char>,
    v2: DbView,
    out: Seq<OutgoingView>,
)
    requires
        plain_handled(v, msg, text, descriptions, v2, out),
        plain_command(text) is None,
    ensures
        out.len() == 0,
        !msg.chat_is_private ==> v2 == v,
        msg.chat_is_private && msg.from is Some ==> v2.private.contains(msg.from->0.id)
            && v2.users[msg.from->0.id] == msg.from->0 && v2.tags == v.tags && v2.mutes == v.mutes,
{
}

} // verus!

verus! {

/// Escaping for MarkdownV2 works character by character: the escape of two
/// texts one after the other is their escapes one after the other, and a
/// single character gets a backslash before it exactly when it is one of
/// `_*[]()~`>#+-=|{}.!`.
pub proof fn lemma_markdown_escape_by_char(a: Seq<char>, b: Seq<char>, c: char)
    ensures
        markdown_escape(a + b) == markdown_escape(a) + markdown_escape(b),
        markdown_escape(seq![c]) == if c == '_' || c == '*' || c == '[' || c == ']' || c == '(' || c == ')' || c == '~'
            || c == '`' || c == '>' || c == '#' || c == '+' || c == '-' || c == '=' || c == '|' || c == '{' || c == '}'
            || c == '.' || c == '!' {
            seq!['\\', c]
        } else {
            seq![c]
        },
    decreases b.len(),
{
    assert(seq![c].drop_last() =~= Seq::<char>::empty());
    assert(seq![c].last() == c);
    assert(markdown_escape(Seq::<char>::empty()) == Seq::<char>::empty());
    if is_markdown_special(c) {
        assert(markdown_escape(seq![c]) == Seq::<char>::empty().push('\\').push(c));
    } else {
        assert(markdown_escape(seq![c]) == Seq::<char>::empty().push(c));
    }
    assert(markdown_escape(seq![c]) =~= if c == '_' || c == '*' || c == '[' || c == ']' || c == '(' || c == ')' || c == '~'
        || c == '`' || c == '>' || c == '#' || c == '+' || c == '-' || c == '=' || c == '|' || c == '{' || c == '}'
        || c == '.' || c == '!' {
        seq!['\\', c]
    } else {
        seq![c]
    });
    if b.len() == 0 {
        assert(a + b =~= a);
        assert(markdown_escape(a) + markdown_escape(b) =~= markdown_escape(a));
    } else {
        lemma_markdown_escape_by_char(a, b.drop_last(), c);
        let ab = a + b;
        assert(ab.drop_last() =~= a + b.drop_last());
        assert(ab.last() == b.last());
        let x = b.last();
        let pa = markdown_escape(a + b.drop_last());
        let pb = markdown_escape(b.drop_last());
        assert(pa == markdown_escape(a) + pb);
        if is_markdown_special(x) {
            assert(markdown_escape(ab) == pa.push('\\').push(x));
            assert(markdown_escape(b) == pb.push('\\').push(x));
        } else {
            assert(markdown_escape(ab) == pa.push(x));
            assert(markdown_escape(b) == pb.push(x));
        }
        assert(markdown_escape(ab) =~= markdown_escape(a) + markdown_escape(b));
    }
}

/// Escaping for HTML works character by character: the escape of two texts
/// one after the other is their escapes one after the other, `&`, `<` and
/// `>` become `&amp;`, `&lt;` and `&gt;`, and every other character stays.
pub proof fn lemma_html_escape_by_char(a: Seq<char>, b: Seq<char>, c: char)
    ensures
        html_escape(a + b) == html_escape(a) + html_escape(b),
        html_escape(seq![c]) == if c == '&' {
            "&amp;"@
        } else if c == '<' {
            "&lt;"@
        } else if c == '>' {
            "&gt;"@
        } else {
            seq![c]
        },
    decreases b.len(),
{
    reveal_strlit("&amp;");
    reveal_strlit("&lt;");
    reveal_strlit("&gt;");
    assert(seq![c].drop_last() =~= Seq::<char>::empty());
    assert(seq![c].last() == c);
    assert(html_escape(Seq::<char>::empty()) == Seq::<char>::empty());
    if c == '&' {
        assert(html_escape(seq![c]) == Seq::<char>::empty() + seq!['&', 'a', 'm', 'p', ';']);
    } else if c == '<' {
        assert(html_escape(seq![c]) == Seq::<char>::empty() + seq!['&', 'l', 't', ';']);
    } else if c == '>' {
        assert(html_escape(seq![c]) == Seq::<char>::empty() + seq!['&', 'g', 't', ';']);
    } else {
        assert(html_escape(seq![c]) == Seq::<char>::empty().push(c));
    }
    assert(html_escape(seq![c]) =~= if c == '&' {
        "&amp;"@
    } else if c == '<' {
        "&lt;"@
    } else if c == '>' {
        "&gt;"@
    } else {
        seq![c]
    });
    if b.len() == 0 {
        assert(a + b =~= a);
        assert(html_escape(a) + html_escape(b) =~= html_escape(a));
    } else {
        lemma_html_escape_by_char(a, b.drop_last(), c);
        let ab = a + b;
        assert(ab.drop_last() =~= a + b.drop_last());
        assert(ab.last() == b.last());
        let x = b.last();
        let pa = html_escape(a + b.drop_last());
        let pb = html_escape(b.drop_last());
        assert(pa == html_escape(a) + pb);
        if x == '&' {
            assert(html_escape(ab) == pa + seq!['&', 'a', 'm', 'p', ';']);
            assert(html_escape(b) == pb + seq!['&', 'a', 'm', 'p', ';']);
        } else if x == '<' {
            assert(html_escape(ab) == pa + seq!['&', 'l', 't', ';']);
            assert(html_escape(b) == pb + seq!['&', 'l', 't', ';']);
        } else if x == '>' {
            assert(html_escape(ab) == pa + seq!['&', 'g', 't', ';']);
            assert(html_escape(b) == pb + seq!['&', 'g', 't', ';']);
        } else {
            assert(html_escape(ab) == pa.push(x));
            assert(html_escape(b) == pb.push(x));
        }
        assert(html_escape(ab) =~= html_escape(a) + html_escape(b));
    }
}

} // verus!

verus! {

/// Splitting at the first space: a word without spaces, a space and the
/// rest split into that word and that rest (which may hold more spaces);
/// a text without a space is all head and no tail.
pub proof fn lemma_split_at_first_space(w: Seq<char>, rest: Seq<char>)
    requires
        !w.contains(' '),
    ensures
        split_head(w + seq![' '] + rest) == w,
        split_tail(w + seq![' '] + rest) == rest,
        split_head(w) == w,
        split_tail(w) == Seq::<char>::empty(),
{
    let text = w + seq![' '] + rest;
    let i = w.len() as int;
    assert(text[i] == ' ');
    assert forall|j: int| 0 <= j < i implies text[j] != ' ' by {
        assert(text[j] == w[j]);
    }
    lemma_first_space_unique(text, i);
    assert(text.take(i) =~= w);
    assert(text.skip(i + 1) =~= rest);
}

/// The order of tag names is by code point, from the left: a common
/// beginning does not matter, the first differing character decides, and
/// a text comes before every longer text that begins with it.
pub proof fn lemma_text_lt_lexicographic(p: Seq<char>, x: Seq<char>, y: Seq<char>, c: char, d: char)
    ensures
        text_lt(p + x, p + y) == text_lt(x, y),
        c != d ==> text_lt(seq![c] + x, seq![d] + y) == ((c as int) < (d as int)),
        text_lt(Seq::<char>::empty(), y) == (y.len() > 0),
        text_lt(x, Seq::<char>::empty()) == false,
    decreases p.len(),
{
    if p.len() > 0 {
        lemma_text_lt_lexicographic(p.drop_first(), x, y, c, d);
        assert((p + x).drop_first() =~= p.drop_first() + x);
        assert((p + y).drop_first() =~= p.drop_first() + y);
        assert((p + x)[0] == p[0]);
        assert((p + y)[0] == p[0]);
    } else {
        assert(p + x =~= x);
        assert(p + y =~= y);
    }
    assert((seq![c] + x)[0] == c);
    assert((seq![d] + y)[0] == d);
}

} // verus!

verus! {

/// A user with a username is mentioned as `@` and the escaped username, in
/// both markups; a user without one by a link to `tg://user?id=` and the
/// user's id in decimal, labelled with the escaped first name.
pub proof fn lemma_mentions_of_a_user(u: UserView)
    ensures
        u.username matches Some(n) ==> mention_text(u) == seq!['@'] + markdown_escape(n) && html_mention_text(u)
            == seq!['@'] + html_escape(n),
        u.username is None ==> mention_text(u) == seq!['['] + markdown_escape(u.first_name) + "](tg://user?id="@
            + decimal(u.id as nat) + seq![')'] && html_mention_text(u) == "<a href=\"tg://user?id="@ + decimal(
            u.id as nat,
        ) + "\">"@ + html_escape(u.first_name) + "</a>"@,
{
}

/// A line of the tag list shows the tag escaped for HTML and, in decimal,
/// its number of members.
pub proof fn lemma_tag_line_shows_count(e: (Seq<char>, nat))
    ensures
        tag_line(e) == "• "@ + html_escape(e.0) + " ("@ + decimal(e.1) + " уч.)"@,
{
}

/// The reply to a new mute says which calls it keeps the user out of:
/// `/ask` for the mute type `ask`, group mentions for `all`; the reply to a
/// lifted mute likewise.
pub proof fn lemma_mute_replies_name_the_kind(
    v: DbView,
    ctx: ContextView,
    cmd: CommandView,
    descriptions: Seq<char>,
    v2: DbView,
    out: Seq<OutgoingView>,
)
    requires
        handled(v, ctx, cmd, descriptions, v2, out),
    ensures
        cmd matches CommandView::Mute(a) ==> !v.mutes.contains((ctx.chat_id, ctx.user.id, mute_kind(a))) ==> out[0].text
            == if mute_kind(a) == "ask"@ {
            "You have been muted for the 'ask' command and won't be mentioned by it"@
        } else {
            "You have been muted and won't be called in group mentions"@
        },
        cmd matches CommandView::Unmute(a) ==> v.mutes.contains((ctx.chat_id, ctx.user.id, mute_kind(a))) ==> out[0].text
            == if mute_kind(a) == "ask"@ {
            "You have been unmuted for the 'ask' command and can be mentioned by it again"@
        } else {
            "You have been unmuted and will be called in group mentions again"@
        },
{
}

} // verus!
