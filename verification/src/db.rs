//! The tag store: known users, tag memberships per chat, mutes per chat and
//! the users who talk to the bot in private.
//!
//! Its value (`DbView`) is a map of users and three relations, the tables
//! `users`, `user_tags`, `muted_users` and `private_users` of the bot. Each
//! operation states its effect on that value and its result, as the
//! corresponding statement on those tables gives it.
use vstd::prelude::*;

use crate::models::{copy_user, opt_text, UserId, UserInfo, UserView};
use crate::text::owned;

verus! {

/// A user called through a tag, with whether the bot may write to them in
/// private.
#[derive(Debug, Clone, PartialEq, Eq)]
pub struct TagUserInfo {
    pub info: UserInfo,
    pub is_private: bool,
}

pub struct TagUserView {
    pub info: UserView,
    pub is_private: bool,
}

impl View for TagUserInfo {
    type V = TagUserView;

    open spec fn view(&self) -> TagUserView {
        TagUserView { info: self.info@, is_private: self.is_private }
    }
}

/// One row of `user_tags`: `user_id` belongs to tag `tag_name` in chat `chat_id`.
struct Membership {
    chat_id: i64,
    tag_name: String,
    user_id: UserId,
}

impl View for Membership {
    type V = (i64, Seq<char>, UserId);

    closed spec fn view(&self) -> (i64, Seq<char>, UserId) {
        (self.chat_id, self.tag_name@, self.user_id)
    }
}

/// One row of `muted_users`: `user_id` is muted in chat `chat_id` for
/// `mute_type` (`all`: every call; `ask`: the random pick).
struct Mute {
    chat_id: i64,
    user_id: UserId,
    mute_type: String,
}

impl View for Mute {
    type V = (i64, UserId, Seq<char>);

    closed spec fn view(&self) -> (i64, UserId, Seq<char>) {
        (self.chat_id, self.user_id, self.mute_type@)
    }
}

/// The value of the store.
pub struct DbView {
    pub users: Map<UserId, UserView>,
    pub tags: Set<(i64, Seq<char>, UserId)>,
    pub mutes: Set<(i64, UserId, Seq<char>)>,
    pub private: Set<UserId>,
}

/// The mute type that keeps a user out of calls of the tag for everybody.
pub open spec fn mute_all() -> Seq<char> {
    "all"@
}

/// The tag that stands for everybody in the chat.
pub open spec fn everyone_tag() -> Seq<char> {
    "алл"@
}

impl DbView {
    pub open spec fn empty() -> DbView {
        DbView { users: Map::empty(), tags: Set::empty(), mutes: Set::empty(), private: Set::empty() }
    }

    /// `INSERT OR REPLACE INTO users`.
    pub open spec fn upsert(self, u: UserView) -> DbView {
        DbView { users: self.users.insert(u.id, u), ..self }
    }

    pub open spec fn register_private(self, u: UserView) -> DbView {
        DbView { private: self.private.insert(u.id), ..self.upsert(u) }
    }

    pub open spec fn join(self, chat: i64, tag: Seq<char>, u: UserView) -> DbView {
        DbView { tags: self.tags.insert((chat, tag, u.id)), ..self.upsert(u) }
    }

    pub open spec fn leave(self, chat: i64, tag: Seq<char>, user: UserId) -> DbView {
        DbView { tags: self.tags.remove((chat, tag, user)), ..self }
    }

    pub open spec fn mute(self, chat: i64, user: UserId, mute_type: Seq<char>) -> DbView {
        DbView { mutes: self.mutes.insert((chat, user, mute_type)), ..self }
    }

    pub open spec fn unmute(self, chat: i64, user: UserId, mute_type: Seq<char>) -> DbView {
        DbView { mutes: self.mutes.remove((chat, user, mute_type)), ..self }
    }

    /// Whether `user` is silenced in `chat` for a call of `tag` with the
    /// given mute filter. A mute of type `all` silences the user for calls
    /// of the tag for everybody and for every filtered call; a mute of the
    /// filter's type silences the user for that filtered call. A call of a
    /// named tag without a filter reaches its muted members too.
    pub open spec fn silenced(self, chat: i64, tag: Seq<char>, user: UserId, filter: Option<Seq<char>>) -> bool {
        ||| ((tag == everyone_tag() || filter is Some) && self.mutes.contains((chat, user, mute_all())))
        ||| (filter matches Some(m) && self.mutes.contains((chat, user, m)))
    }

    /// Whether a call of `tag` in `chat` with the given mute filter reaches `user`.
    pub open spec fn called(self, chat: i64, tag: Seq<char>, filter: Option<Seq<char>>, user: UserId) -> bool {
        &&& self.users.contains_key(user)
        &&& self.tags.contains((chat, tag, user))
        &&& !self.silenced(chat, tag, user, filter)
    }

    pub open spec fn tag_exists(self, chat: i64, tag: Seq<char>) -> bool {
        exists|u: UserId| self.tags.contains((chat, tag, u))
    }

    pub open spec fn members(self, chat: i64, tag: Seq<char>) -> Set<UserId> {
        Set::new(|u: UserId| self.tags.contains((chat, tag, u)))
    }

    /// Whether `s` is what a call of `tag` in `chat` with the given mute
    /// filter reaches: each user it reaches once, in increasing order of id,
    /// with the stored user and whether the bot may write to them privately.
    pub open spec fn is_call_list(self, chat: i64, tag: Seq<char>, filter: Option<Seq<char>>, s: Seq<TagUserView>) -> bool {
        &&& forall|k: int|
            0 <= k < s.len() ==> {
                let id = (#[trigger] s[k]).info.id;
                &&& self.called(chat, tag, filter, id)
                &&& s[k].info == self.users[id]
                &&& s[k].is_private == self.private.contains(id)
            }
        &&& forall|k: int, l: int| 0 <= k < l < s.len() ==> s[k].info.id < s[l].info.id
        &&& forall|u: UserId| self.called(chat, tag, filter, u) ==> exists|k: int| 0 <= k < s.len() && (#[trigger] s[k]).info.id == u
    }

    /// Whether `s` lists the tags of `chat`: each tag with members once,
    /// with its number of members (a finite set, so at least one), in
    /// `text_lt` order of the name.
    pub open spec fn is_tag_listing(self, chat: i64, s: Seq<(Seq<char>, nat)>) -> bool {
        &&& forall|a: int, b: int| 0 <= a < b < s.len() ==> text_lt(s[a].0, s[b].0)
        &&& forall|k: int|
            0 <= k < s.len() ==> {
                &&& self.tag_exists(chat, (#[trigger] s[k]).0)
                &&& self.members(chat, s[k].0).finite()
                &&& s[k].1 == self.members(chat, s[k].0).len()
                &&& s[k].1 >= 1
            }
        &&& forall|t: Seq<char>| self.tag_exists(chat, t) ==> exists|k: int| 0 <= k < s.len() && (#[trigger] s[k]).0 == t
    }

    pub open spec fn muted_all(self, chat: i64) -> Set<UserId> {
        Set::new(|u: UserId| self.mutes.contains((chat, u, mute_all())))
    }
}

/// One row written to or deleted from the store's tables; applied in
/// order, a list of them takes the tables from one value to the next.
#[derive(Debug, Clone, PartialEq, Eq)]
pub enum StoreChange {
    /// `INSERT OR REPLACE` into `users`.
    UpsertUser(UserInfo),
    /// `INSERT OR IGNORE` into `private_users`.
    AddPrivate(UserId),
    /// `INSERT OR IGNORE` into `user_tags` (chat, tag, user).
    AddTag(i64, String, UserId),
    /// `DELETE` from `user_tags` (chat, tag, user).
    RemoveTag(i64, String, UserId),
    /// `INSERT OR IGNORE` into `muted_users` (chat, user, mute type).
    AddMute(i64, UserId, String),
    /// `DELETE` from `muted_users` (chat, user, mute type).
    RemoveMute(i64, UserId, String),
}

pub enum ChangeView {
    UpsertUser(UserView),
    AddPrivate(UserId),
    AddTag(i64, Seq<char>, UserId),
    RemoveTag(i64, Seq<char>, UserId),
    AddMute(i64, UserId, Seq<char>),
    RemoveMute(i64, UserId, Seq<char>),
}

impl View for StoreChange {
    type V = ChangeView;

    open spec fn view(&self) -> ChangeView {
        match self {
            StoreChange::UpsertUser(u) => ChangeView::UpsertUser(u@),
            StoreChange::AddPrivate(id) => ChangeView::AddPrivate(*id),
            StoreChange::AddTag(c, t, u) => ChangeView::AddTag(*c, t@, *u),
            StoreChange::RemoveTag(c, t, u) => ChangeView::RemoveTag(*c, t@, *u),
            StoreChange::AddMute(c, u, m) => ChangeView::AddMute(*c, *u, m@),
            StoreChange::RemoveMute(c, u, m) => ChangeView::RemoveMute(*c, *u, m@),
        }
    }
}

pub open spec fn change_views(s: Seq<StoreChange>) -> Seq<ChangeView> {
    s.map_values(|c: StoreChange| c@)
}

/// The store's value after one change.
pub open spec fn apply_change(v: DbView, c: ChangeView) -> DbView {
    match c {
        ChangeView::UpsertUser(u) => v.upsert(u),
        ChangeView::AddPrivate(id) => DbView { private: v.private.insert(id), ..v },
        ChangeView::AddTag(chat, tag, user) => DbView { tags: v.tags.insert((chat, tag, user)), ..v },
        ChangeView::RemoveTag(chat, tag, user) => v.leave(chat, tag, user),
        ChangeView::AddMute(chat, user, m) => v.mute(chat, user, m),
        ChangeView::RemoveMute(chat, user, m) => v.unmute(chat, user, m),
    }
}

/// The store's value after the changes `s`, in order.
pub open spec fn apply_changes(v: DbView, s: Seq<ChangeView>) -> DbView
    decreases s.len(),
{
    if s.len() == 0 {
        v
    } else {
        apply_change(apply_changes(v, s.drop_last()), s.last())
    }
}

/// Applying two lists of changes one after the other is applying their
/// concatenation.
pub proof fn lemma_apply_changes_append(v: DbView, s: Seq<ChangeView>, t: Seq<ChangeView>)
    ensures
        apply_changes(v, s + t) == apply_changes(apply_changes(v, s), t),
    decreases t.len(),
{
    if t.len() == 0 {
        assert(s + t =~= s);
    } else {
        lemma_apply_changes_append(v, s, t.drop_last());
        assert((s + t).drop_last() =~= s + t.drop_last());
    }
}

/// Appends `c` to `changes`, keeping what they apply to.
pub fn push_change(changes: &mut Vec<StoreChange>, c: StoreChange)
    ensures
        change_views(final(changes)@) == change_views(old(changes)@).push(c@),
{
    changes.push(c);
    assert(change_views(changes@) =~= change_views(old(changes)@).push(c@));
}

pub open spec fn tag_user_views(s: Seq<TagUserInfo>) -> Seq<TagUserView> {
    s.map_values(|t: TagUserInfo| t@)
}

pub open spec fn listing_view(s: Seq<(String, usize)>) -> Seq<(Seq<char>, nat)> {
    s.map_values(|e: (String, usize)| (e.0@, e.1 as nat))
}

/// Lexicographic order of texts by code point, the order of SQLite's
/// `BINARY` collation on UTF-8 text.
pub open spec fn text_lt(a: Seq<char>, b: Seq<char>) -> bool
    decreases a.len(),
{
    if a.len() == 0 {
        b.len() > 0
    } else if b.len() == 0 {
        false
    } else if a[0] != b[0] {
        (a[0] as int) < (b[0] as int)
    } else {
        text_lt(a.drop_first(), b.drop_first())
    }
}

/// No text comes before itself.
pub proof fn lemma_text_lt_irreflexive(a: Seq<char>)
    ensures
        !text_lt(a, a),
    decreases a.len(),
{
    if a.len() > 0 {
        lemma_text_lt_irreflexive(a.drop_first());
    }
}

/// Of two different texts, one comes before the other.
pub proof fn lemma_text_lt_total(a: Seq<char>, b: Seq<char>)
    ensures
        a == b || text_lt(a, b) || text_lt(b, a),
    decreases a.len(),
{
    if a.len() > 0 && b.len() > 0 && a[0] == b[0] {
        lemma_text_lt_total(a.drop_first(), b.drop_first());
        if a.drop_first() == b.drop_first() {
            assert(a =~= seq![a[0]] + a.drop_first());
            assert(b =~= seq![b[0]] + b.drop_first());
        }
    } else if a.len() > 0 && b.len() > 0 {
        let x = a[0];
        let y = b[0];
        assert((x as int) != (y as int));
    } else if a.len() == 0 && b.len() == 0 {
        assert(a =~= b);
    }
}

/// The order of texts is transitive.
pub proof fn lemma_text_lt_transitive(a: Seq<char>, b: Seq<char>, c: Seq<char>)
    requires
        text_lt(a, b),
        text_lt(b, c),
    ensures
        text_lt(a, c),
    decreases a.len(),
{
    if a.len() > 0 && b.len() > 0 && c.len() > 0 && a[0] == b[0] && b[0] == c[0] {
        lemma_text_lt_transitive(a.drop_first(), b.drop_first(), c.drop_first());
    }
}

/// Of two texts, at most one comes before the other.
pub proof fn lemma_text_lt_asymmetric(a: Seq<char>, b: Seq<char>)
    requires
        text_lt(a, b),
    ensures
        !text_lt(b, a),
{
    if text_lt(b, a) {
        lemma_text_lt_transitive(a, b, a);
        lemma_text_lt_irreflexive(a);
    }
}

/// Whether `a` comes strictly before `b` in `text_lt` order.
pub fn text_less(a: &str, b: &str) -> (r: bool)
    ensures
        r == text_lt(a@, b@),
{
    let na = a.unicode_len();
    let nb = b.unicode_len();
    let mut i: usize = 0;
    assert(a@.skip(0) =~= a@);
    assert(b@.skip(0) =~= b@);
    while i < na && i < nb
        invariant
            na == a@.len(),
            nb == b@.len(),
            i <= na,
            i <= nb,
            text_lt(a@, b@) == text_lt(a@.skip(i as int), b@.skip(i as int)),
        decreases na - i,
    {
        let ca = a.get_char(i);
        let cb = b.get_char(i);
        if ca != cb {
            assert(a@.skip(i as int)[0] == ca);
            assert(b@.skip(i as int)[0] == cb);
            return (ca as u32) < (cb as u32);
        }
        assert(a@.skip(i as int).drop_first() =~= a@.skip(i + 1));
        assert(b@.skip(i as int).drop_first() =~= b@.skip(i + 1));
        i = i + 1;
    }
    i < nb
}

pub open spec fn has_text(s: Seq<String>, t: Seq<char>) -> bool {
    exists|k: int| 0 <= k < s.len() && (#[trigger] s[k])@ == t
}

pub open spec fn texts_sorted(s: Seq<String>) -> bool {
    forall|a: int, b: int| 0 <= a < b < s.len() ==> text_lt(s[a]@, s[b]@)
}

/// Puts `name` into the ordered list `names`, unless it is there already.
fn insert_sorted(names: &mut Vec<String>, name: &String)
    requires
        texts_sorted(old(names)@),
    ensures
        texts_sorted(final(names)@),
        forall|t: Seq<char>| #[trigger] has_text(final(names)@, t) <==> (has_text(old(names)@, t) || t == name@),
{
    let len = names.len();
    let mut p: usize = 0;
    while p < len && text_less(names[p].as_str(), name.as_str())
        invariant
            len == names@.len(),
            names@ == old(names)@,
            p <= len,
            forall|q: int| 0 <= q < p ==> text_lt((#[trigger] names@[q])@, name@),
        decreases len - p,
    {
        p = p + 1;
    }
    let ghost before = names@;
    if p < len && names[p] == *name {
        assert(has_text(before, name@));
        assert forall|t: Seq<char>| #[trigger] has_text(names@, t) <==> (has_text(before, t) || t == name@) by {
            if t == name@ {
                assert(names@[p as int]@ == t);
            }
        }
    } else {
        proof {
            if p < len {
                lemma_text_lt_total(names@[p as int]@, name@);
            }
        }
        names.insert(p, name.clone());
        assert forall|a: int, b: int| 0 <= a < b < names@.len() implies text_lt(names@[a]@, names@[b]@) by {
            if b == p as int {
                assert(names@[a] == before[a]);
            } else if a == p as int {
                assert(names@[b] == before[b - 1]);
                if b - 1 > p as int {
                    lemma_text_lt_transitive(name@, before[p as int]@, before[b - 1]@);
                }
            } else if b < p as int {
            } else if a < p as int {
                assert(names@[b] == before[b - 1]);
            } else {
                assert(names@[b] == before[b - 1]);
                assert(names@[a] == before[a - 1]);
            }
        }
        assert forall|t: Seq<char>| #[trigger] has_text(names@, t) <==> (has_text(before, t) || t == name@) by {
            if has_text(names@, t) {
                let k = choose|k: int| 0 <= k < names@.len() && (#[trigger] names@[k])@ == t;
                if k < p as int {
                    assert(names@[k] == before[k]);
                } else if k > p as int {
                    assert(names@[k] == before[k - 1]);
                }
            }
            if has_text(before, t) {
                let k = choose|k: int| 0 <= k < before.len() && (#[trigger] before[k])@ == t;
                if k < p as int {
                    assert(names@[k] == before[k]);
                } else {
                    assert(names@[k + 1] == before[k]);
                }
            }
            if t == name@ {
                assert(names@[p as int]@ == t);
            }
        }
    }
    assert(before == old(names)@);
    assert(texts_sorted(names@));
}

// ---------------------------------------------------------------------------
// The store
// ---------------------------------------------------------------------------

/// The tag store.
pub struct Database {
    users: Vec<UserInfo>,
    memberships: Vec<Membership>,
    mutes: Vec<Mute>,
    private_users: Vec<UserId>,
}

spec fn user_table(s: Seq<UserInfo>) -> Map<UserId, UserView> {
    Map::new(
        |id: UserId| exists|i: int| 0 <= i < s.len() && s[i].id == id,
        |id: UserId| s[choose|i: int| 0 <= i < s.len() && s[i].id == id]@,
    )
}

spec fn ids_sorted(s: Seq<UserInfo>) -> bool {
    forall|i: int, j: int| 0 <= i < j < s.len() ==> s[i].id < s[j].id
}

spec fn row_set<T: View>(s: Seq<T>) -> Set<T::V> {
    Set::new(|t: T::V| exists|i: int| 0 <= i < s.len() && s[i]@ == t)
}

spec fn rows_distinct<T: View>(s: Seq<T>) -> bool {
    forall|i: int, j: int| 0 <= i < j < s.len() ==> s[i]@ != s[j]@
}

proof fn lemma_user_table_at(s: Seq<UserInfo>, i: int)
    requires
        ids_sorted(s),
        0 <= i < s.len(),
    ensures
        user_table(s).contains_key(s[i].id),
        user_table(s)[s[i].id] == s[i]@,
{
    let id = s[i].id;
    assert(exists|k: int| 0 <= k < s.len() && s[k].id == id);
    let k = choose|k: int| 0 <= k < s.len() && s[k].id == id;
    if k < i {
        assert(s[k].id < s[i].id);
    } else if k > i {
        assert(s[i].id < s[k].id);
    }
}

proof fn lemma_row_set_push<T: View>(s: Seq<T>, x: T)
    requires
        rows_distinct(s),
        !row_set(s).contains(x@),
    ensures
        row_set(s.push(x)) == row_set(s).insert(x@),
        rows_distinct(s.push(x)),
{
    let t = s.push(x);
    assert forall|v: T::V| #[trigger] row_set(t).contains(v) == row_set(s).insert(x@).contains(v) by {
        if row_set(s).contains(v) {
            let k = choose|k: int| 0 <= k < s.len() && s[k]@ == v;
            assert(t[k]@ == v);
        }
        if v == x@ {
            assert(t[s.len() as int]@ == v);
        }
        if row_set(t).contains(v) && v != x@ {
            let k = choose|k: int| 0 <= k < t.len() && t[k]@ == v;
            assert(s[k]@ == v);
        }
    }
    assert(row_set(t) =~= row_set(s).insert(x@));
    assert forall|i: int, j: int| 0 <= i < j < t.len() implies t[i]@ != t[j]@ by {
        if j == s.len() {
            assert(s[i]@ == t[i]@);
        }
    }
}

proof fn lemma_row_set_remove<T: View>(s: Seq<T>, i: int)
    requires
        rows_distinct(s),
        0 <= i < s.len(),
    ensures
        row_set(s.remove(i)) == row_set(s).remove(s[i]@),
        rows_distinct(s.remove(i)),
{
    let t = s.remove(i);
    assert forall|v: T::V| #[trigger] row_set(t).contains(v) == row_set(s).remove(s[i]@).contains(v) by {
        if row_set(t).contains(v) {
            let k = choose|k: int| 0 <= k < t.len() && t[k]@ == v;
            if k < i {
                assert(s[k]@ == v);
            } else {
                assert(s[k + 1]@ == v);
            }
        }
        if row_set(s).contains(v) && v != s[i]@ {
            let k = choose|k: int| 0 <= k < s.len() && s[k]@ == v;
            if k < i {
                assert(t[k]@ == v);
            } else {
                assert(t[k - 1]@ == v);
            }
        }
    }
    assert(row_set(t) =~= row_set(s).remove(s[i]@));
    assert forall|a: int, b: int| 0 <= a < b < t.len() implies t[a]@ != t[b]@ by {
        let a0 = if a < i { a } else { a + 1 };
        let b0 = if b < i { b } else { b + 1 };
        assert(t[a] == s[a0]);
        assert(t[b] == s[b0]);
    }
}

impl View for Database {
    type V = DbView;

    closed spec fn view(&self) -> DbView {
        DbView {
            users: user_table(self.users@),
            tags: row_set(self.memberships@),
            mutes: row_set(self.mutes@),
            private: Set::new(|u: UserId| self.private_users@.contains(u)),
        }
    }
}

impl Database {
    /// The store's own invariant: users ordered by id, no row twice, and
    /// every member of a tag a known user.
    pub closed spec fn wf(&self) -> bool {
        &&& ids_sorted(self.users@)
        &&& rows_distinct(self.memberships@)
        &&& rows_distinct(self.mutes@)
        &&& self.private_users@.no_duplicates()
        &&& forall|i: int|
            0 <= i < self.memberships@.len() ==> user_table(self.users@).contains_key(
                #[trigger] self.memberships@[i].user_id,
            )
    }

    /// An empty store.
    pub fn new() -> (r: Database)
        ensures
            r.wf(),
            r@ == DbView::empty(),
    {
        let r = Database {
            users: Vec::new(),
            memberships: Vec::new(),
            mutes: Vec::new(),
            private_users: Vec::new(),
        };
        assert(r@.users =~= Map::empty());
        assert(r@.tags =~= Set::empty());
        assert(r@.mutes =~= Set::empty());
        assert(r@.private =~= Set::empty());
        r
    }

    /// Stores `user`, replacing what was stored under its id.
    pub fn upsert_user(&mut self, user: &UserInfo)
        requires
            old(self).wf(),
        ensures
            final(self).wf(),
            final(self)@ == old(self)@.upsert(user@),
    {
        let n = self.users.len();
        let mut p: usize = 0;
        while p < n && self.users[p].id < user.id
            invariant
                n == self.users@.len(),
                p <= n,
                forall|k: int| 0 <= k < p ==> self.users@[k].id < user.id,
            decreases n - p,
        {
            p = p + 1;
        }
        let ghost old_users = self.users@;
        let replace = p < n && self.users[p].id == user.id;
        let copy = copy_user(user);
        if replace {
            self.users.set(p, copy);
        } else {
            self.users.insert(p, copy);
        }
        let ghost new_users = self.users@;
        assert(ids_sorted(new_users)) by {
            assert forall|i: int, j: int| 0 <= i < j < new_users.len() implies new_users[i].id
                < new_users[j].id by {
                if !replace {
                    if j == p as int {
                        assert(new_users[i] == old_users[i]);
                    } else if i == p as int {
                        assert(new_users[j] == old_users[j - 1]);
                    } else if j < p as int {
                    } else if i < p as int {
                        assert(new_users[j] == old_users[j - 1]);
                    } else {
                        assert(new_users[j] == old_users[j - 1]);
                        assert(new_users[i] == old_users[i - 1]);
                    }
                } else {
                    if j == p as int {
                    } else if i == p as int {
                        assert(old_users[p as int].id < old_users[j].id);
                    }
                }
            }
        }
        assert(user_table(new_users) =~= user_table(old_users).insert(user.id, user@)) by {
            assert forall|id: UserId| #[trigger]
                user_table(new_users).contains_key(id) == user_table(old_users).insert(
                    user.id,
                    user@,
                ).contains_key(id) by {
                if user_table(new_users).contains_key(id) {
                    let k = choose|k: int| 0 <= k < new_users.len() && new_users[k].id == id;
                    if id != user.id {
                        if replace {
                            assert(old_users[k].id == id);
                        } else if k < p {
                            assert(old_users[k].id == id);
                        } else {
                            assert(old_users[k - 1].id == id);
                        }
                    }
                }
                if user_table(old_users).contains_key(id) && id != user.id {
                    let k = choose|k: int| 0 <= k < old_users.len() && old_users[k].id == id;
                    if replace || k < p {
                        assert(new_users[k].id == id);
                    } else {
                        assert(new_users[k + 1].id == id);
                    }
                }
                if id == user.id {
                    assert(new_users[p as int].id == id);
                }
            }
            assert forall|id: UserId| #[trigger]
                user_table(new_users).contains_key(id) implies user_table(new_users)[id]
                == user_table(old_users).insert(user.id, user@)[id] by {
                let k = choose|k: int| 0 <= k < new_users.len() && new_users[k].id == id;
                lemma_user_table_at(new_users, k);
                if id != user.id {
                    let ko = if replace || k < p {
                        k
                    } else {
                        k - 1
                    };
                    assert(old_users[ko] == new_users[k]);
                    lemma_user_table_at(old_users, ko);
                }
            }
        }
        assert forall|i: int|
            0 <= i < self.memberships@.len() implies user_table(self.users@).contains_key(
            #[trigger] self.memberships@[i].user_id,
        ) by {
            assert(user_table(old_users).contains_key(self.memberships@[i].user_id));
        }
        assert(self@.users == old(self)@.upsert(user@).users);
    }

    fn find_membership(&self, chat_id: i64, tag_name: &String, user_id: UserId) -> (r: Option<usize>)
        ensures
            match r {
                Some(i) => i < self.memberships@.len() && self.memberships@[i as int]@ == (
                    chat_id,
                    tag_name@,
                    user_id,
                ),
                None => !row_set(self.memberships@).contains((chat_id, tag_name@, user_id)),
            },
    {
        let n = self.memberships.len();
        let mut i: usize = 0;
        while i < n
            invariant
                n == self.memberships@.len(),
                i <= n,
                forall|k: int| 0 <= k < i ==> self.memberships@[k]@ != (chat_id, tag_name@, user_id),
            decreases n - i,
        {
            let m = &self.memberships[i];
            if m.chat_id == chat_id && m.user_id == user_id && m.tag_name == *tag_name {
                return Some(i);
            }
            i = i + 1;
        }
        None
    }

    fn find_mute(&self, chat_id: i64, user_id: UserId, mute_type: &String) -> (r: Option<usize>)
        ensures
            match r {
                Some(i) => i < self.mutes@.len() && self.mutes@[i as int]@ == (
                    chat_id,
                    user_id,
                    mute_type@,
                ),
                None => !row_set(self.mutes@).contains((chat_id, user_id, mute_type@)),
            },
    {
        let n = self.mutes.len();
        let mut i: usize = 0;
        while i < n
            invariant
                n == self.mutes@.len(),
                i <= n,
                forall|k: int| 0 <= k < i ==> self.mutes@[k]@ != (chat_id, user_id, mute_type@),
            decreases n - i,
        {
            let m = &self.mutes[i];
            if m.chat_id == chat_id && m.user_id == user_id && m.mute_type == *mute_type {
                return Some(i);
            }
            i = i + 1;
        }
        None
    }

    fn is_private_user(&self, user_id: UserId) -> (r: bool)
        ensures
            r == self.private_users@.contains(user_id),
    {
        let n = self.private_users.len();
        let mut i: usize = 0;
        while i < n
            invariant
                n == self.private_users@.len(),
                i <= n,
                forall|k: int| 0 <= k < i ==> self.private_users@[k] != user_id,
            decreases n - i,
        {
            if self.private_users[i] == user_id {
                return true;
            }
            i = i + 1;
        }
        false
    }

    /// Stores `user` and records that the bot may write to them in private.
    pub fn register_private_user(&mut self, user: &UserInfo)
        requires
            old(self).wf(),
        ensures
            final(self).wf(),
            final(self)@ == old(self)@.register_private(user@),
    {
        self.upsert_user(user);
        let ghost before = self.private_users@;
        if !self.is_private_user(user.id) {
            self.private_users.push(user.id);
            assert forall|u: UserId| #[trigger] self.private_users@.contains(u) == (before.contains(u) || u == user.id) by {
                if before.contains(u) {
                    let k = choose|k: int| 0 <= k < before.len() && before[k] == u;
                    assert(self.private_users@[k] == u);
                }
                if u == user.id {
                    assert(self.private_users@[before.len() as int] == u);
                }
                if self.private_users@.contains(u) && u != user.id {
                    let k = choose|k: int| 0 <= k < self.private_users@.len() && self.private_users@[k] == u;
                    assert(before[k] == u);
                }
            }
        }
        assert(self@.private =~= old(self)@.private.insert(user.id));
    }

    /// Adds `user` to tag `tag_name` in chat `chat_id` (storing the user
    /// first); true when the user was not in that tag before.
    pub fn join_tag(&mut self, chat_id: i64, tag_name: String, user: &UserInfo) -> (r: bool)
        requires
            old(self).wf(),
        ensures
            final(self).wf(),
            final(self)@ == old(self)@.join(chat_id, tag_name@, user@),
            r == !old(self)@.tags.contains((chat_id, tag_name@, user.id)),
    {
        self.upsert_user(user);
        match self.find_membership(chat_id, &tag_name, user.id) {
            Some(_) => {
                assert(self@.tags.insert((chat_id, tag_name@, user.id)) =~= self@.tags);
                false
            },
            None => {
                let row = Membership { chat_id, tag_name, user_id: user.id };
                proof {
                    lemma_row_set_push(self.memberships@, row);
                    assert(user_table(self.users@).contains_key(user.id));
                }
                self.memberships.push(row);
                true
            },
        }
    }

    /// Removes user `user_id` from tag `tag_name` in chat `chat_id`; true
    /// when the user was in that tag.
    pub fn leave_tag(&mut self, chat_id: i64, tag_name: String, user_id: UserId) -> (r: bool)
        requires
            old(self).wf(),
        ensures
            final(self).wf(),
            final(self)@ == old(self)@.leave(chat_id, tag_name@, user_id),
            r == old(self)@.tags.contains((chat_id, tag_name@, user_id)),
    {
        match self.find_membership(chat_id, &tag_name, user_id) {
            Some(i) => {
                proof {
                    lemma_row_set_remove(self.memberships@, i as int);
                }
                let ghost before = self.memberships@;
                self.memberships.remove(i);
                assert forall|k: int| 0 <= k < self.memberships@.len() implies user_table(
                    self.users@,
                ).contains_key(#[trigger] self.memberships@[k].user_id) by {
                    if k < i {
                        assert(self.memberships@[k] == before[k]);
                    } else {
                        assert(self.memberships@[k] == before[k + 1]);
                    }
                }
                true
            },
            None => {
                assert(self@.tags.remove((chat_id, tag_name@, user_id)) =~= self@.tags);
                false
            },
        }
    }

    /// Mutes user `user_id` in chat `chat_id` for `mute_type`; true when the
    /// user was not muted for it before.
    pub fn mute_user(&mut self, chat_id: i64, user_id: UserId, mute_type: String) -> (r: bool)
        requires
            old(self).wf(),
        ensures
            final(self).wf(),
            final(self)@ == old(self)@.mute(chat_id, user_id, mute_type@),
            r == !old(self)@.mutes.contains((chat_id, user_id, mute_type@)),
    {
        match self.find_mute(chat_id, user_id, &mute_type) {
            Some(_) => {
                assert(self@.mutes.insert((chat_id, user_id, mute_type@)) =~= self@.mutes);
                false
            },
            None => {
                let row = Mute { chat_id, user_id, mute_type };
                proof {
                    lemma_row_set_push(self.mutes@, row);
                }
                self.mutes.push(row);
                true
            },
        }
    }

    /// Lifts the mute of user `user_id` in chat `chat_id` for `mute_type`;
    /// true when the user was muted for it.
    pub fn unmute_user(&mut self, chat_id: i64, user_id: UserId, mute_type: String) -> (r: bool)
        requires
            old(self).wf(),
        ensures
            final(self).wf(),
            final(self)@ == old(self)@.unmute(chat_id, user_id, mute_type@),
            r == old(self)@.mutes.contains((chat_id, user_id, mute_type@)),
    {
        match self.find_mute(chat_id, user_id, &mute_type) {
            Some(i) => {
                proof {
                    lemma_row_set_remove(self.mutes@, i as int);
                }
                self.mutes.remove(i);
                true
            },
            None => {
                assert(self@.mutes.remove((chat_id, user_id, mute_type@)) =~= self@.mutes);
                false
            },
        }
    }


    fn reaches(
        &self,
        chat_id: i64,
        tag_name: &String,
        filter_mute_type: &Option<String>,
        all: &String,
        everyone: &String,
        i: usize,
    ) -> (r: bool)
        requires
            ids_sorted(self.users@),
            all@ == mute_all(),
            everyone@ == everyone_tag(),
            i < self.users@.len(),
        ensures
            r == self@.called(chat_id, tag_name@, opt_text(*filter_mute_type), self.users@[i as int].id),
    {
        let id = self.users[i].id;
        proof {
            lemma_user_table_at(self.users@, i as int);
        }
        let member = self.find_membership(chat_id, tag_name, id).is_some();
        let muted_all = (*tag_name == *everyone || filter_mute_type.is_some()) && self.find_mute(chat_id, id, all).is_some();
        let muted_filter = match filter_mute_type {
            Some(m) => self.find_mute(chat_id, id, m).is_some(),
            None => false,
        };
        member && !muted_all && !muted_filter
    }

    /// The users that a call of tag `tag_name` in chat `chat_id` reaches, in
    /// increasing order of id: the known members of the tag, less those
    /// muted for `all` in that chat when the tag is the one for everybody or
    /// a filter is given, and less those muted for `filter_mute_type` when
    /// one is given.
    pub fn get_tag_users(&self, chat_id: i64, tag_name: String, filter_mute_type: Option<String>) -> (r: Vec<TagUserInfo>)
        requires
            self.wf(),
        ensures
            self@.is_call_list(chat_id, tag_name@, opt_text(filter_mute_type), tag_user_views(r@)),
    {
        let ghost f = opt_text(filter_mute_type);
        let ghost v = self@;
        let all = owned("all");
        let everyone = owned("алл");
        let n = self.users.len();
        let mut out: Vec<TagUserInfo> = Vec::new();
        let mut i: usize = 0;
        while i < n
            invariant
                ids_sorted(self.users@),
                v == self@,
                f == opt_text(filter_mute_type),
                all@ == mute_all(),
                everyone@ == everyone_tag(),
                n == self.users@.len(),
                i <= n,
                forall|k: int|
                    0 <= k < out@.len() ==> exists|j: int|
                        0 <= j < i && (#[trigger] out@[k]).info.id == self.users@[j].id,
                forall|k: int|
                    0 <= k < out@.len() ==> {
                        let id = (#[trigger] out@[k]).info.id;
                        &&& v.called(chat_id, tag_name@, f, id)
                        &&& out@[k].info@ == v.users[id]
                        &&& out@[k].is_private == v.private.contains(id)
                    },
                forall|k: int, l: int| 0 <= k < l < out@.len() ==> out@[k].info.id < out@[l].info.id,
                forall|j: int|
                    0 <= j < i && v.called(chat_id, tag_name@, f, #[trigger] self.users@[j].id) ==> exists|k: int|
                        0 <= k < out@.len() && (#[trigger] out@[k]).info.id == self.users@[j].id,
            decreases n - i,
        {
            let u = &self.users[i];
            let reached = self.reaches(chat_id, &tag_name, &filter_mute_type, &all, &everyone, i);
            if reached {
                proof {
                    lemma_user_table_at(self.users@, i as int);
                }
                let entry = TagUserInfo { info: copy_user(u), is_private: self.is_private_user(u.id) };
                let ghost before = out@;
                out.push(entry);
                assert forall|k: int| 0 <= k < out@.len() implies exists|j: int|
                    0 <= j < i + 1 && (#[trigger] out@[k]).info.id == self.users@[j].id by {
                    if k < before.len() {
                        assert(out@[k] == before[k]);
                    } else {
                        assert(out@[k].info.id == self.users@[i as int].id);
                    }
                }
                assert forall|k: int, l: int| 0 <= k < l < out@.len() implies out@[k].info.id < out@[l].info.id by {
                    if l == before.len() {
                        assert(out@[k] == before[k]);
                        let j = choose|j: int| 0 <= j < i && before[k].info.id == self.users@[j].id;
                        assert(self.users@[j].id < self.users@[i as int].id);
                    }
                }
                assert forall|j: int|
                    0 <= j < i + 1 && v.called(chat_id, tag_name@, f, #[trigger] self.users@[j].id) implies exists|k: int|
                    0 <= k < out@.len() && (#[trigger] out@[k]).info.id == self.users@[j].id by {
                    if j < i {
                        let k = choose|k: int| 0 <= k < before.len() && (#[trigger] before[k]).info.id == self.users@[j].id;
                        assert(out@[k] == before[k]);
                    } else {
                        assert(out@[before.len() as int].info.id == self.users@[j].id);
                    }
                }
            }
            i = i + 1;
        }
        assert forall|u: UserId| v.called(chat_id, tag_name@, f, u) implies exists|k: int|
            0 <= k < out@.len() && (#[trigger] out@[k]).info.id == u by {
            let j = choose|j: int| 0 <= j < self.users@.len() && self.users@[j].id == u;
            assert(v.called(chat_id, tag_name@, f, self.users@[j].id));
        }
        let ghost tv = tag_user_views(out@);
        assert forall|u: UserId| v.called(chat_id, tag_name@, f, u) implies exists|k: int|
            0 <= k < tv.len() && (#[trigger] tv[k]).info.id == u by {
            let k = choose|k: int| 0 <= k < out@.len() && (#[trigger] out@[k]).info.id == u;
            assert(tv[k].info.id == u);
        }
        out
    }

    /// How many users are muted for `all` in chat `chat_id`.
    pub fn get_muted_count(&self, chat_id: i64) -> (r: usize)
        requires
            self.wf(),
        ensures
            self@.muted_all(chat_id).finite(),
            r == self@.muted_all(chat_id).len(),
    {
        let all = owned("all");
        let n = self.mutes.len();
        let mut count: usize = 0;
        let ghost mut seen: Set<UserId> = Set::empty();
        let mut i: usize = 0;
        while i < n
            invariant
                self.wf(),
                all@ == mute_all(),
                n == self.mutes@.len(),
                i <= n,
                count <= i,
                seen.finite(),
                count == seen.len(),
                forall|u: UserId| #[trigger] seen.contains(u) <==> exists|j: int|
                    0 <= j < i && self.mutes@[j]@ == (chat_id, u, mute_all()),
            decreases n - i,
        {
            let m = &self.mutes[i];
            if m.chat_id == chat_id && m.mute_type == all {
                assert(!seen.contains(m.user_id)) by {
                    if seen.contains(m.user_id) {
                        let j = choose|j: int| 0 <= j < i && self.mutes@[j]@ == (chat_id, m.user_id, mute_all());
                        assert(self.mutes@[j]@ != self.mutes@[i as int]@);
                    }
                }
                proof {
                    seen = seen.insert(m.user_id);
                }
                count = count + 1;
                assert forall|u: UserId| #[trigger] seen.contains(u) <==> exists|j: int|
                    0 <= j < i + 1 && self.mutes@[j]@ == (chat_id, u, mute_all()) by {
                    if u == m.user_id {
                        assert(self.mutes@[i as int]@ == (chat_id, u, mute_all()));
                    }
                }
            } else {
                assert forall|u: UserId| #[trigger] seen.contains(u) <==> exists|j: int|
                    0 <= j < i + 1 && self.mutes@[j]@ == (chat_id, u, mute_all()) by {
                    if exists|j: int| 0 <= j < i + 1 && self.mutes@[j]@ == (chat_id, u, mute_all()) {
                        let j = choose|j: int| 0 <= j < i + 1 && self.mutes@[j]@ == (chat_id, u, mute_all());
                        assert(j != i);
                    }
                }
            }
            i = i + 1;
        }
        assert(seen =~= self@.muted_all(chat_id));
        count
    }

    fn member_count(&self, chat_id: i64, tag_name: &String) -> (r: usize)
        requires
            self.wf(),
        ensures
            self@.members(chat_id, tag_name@).finite(),
            r == self@.members(chat_id, tag_name@).len(),
    {
        let n = self.memberships.len();
        let mut count: usize = 0;
        let ghost mut seen: Set<UserId> = Set::empty();
        let mut i: usize = 0;
        while i < n
            invariant
                self.wf(),
                n == self.memberships@.len(),
                i <= n,
                count <= i,
                seen.finite(),
                count == seen.len(),
                forall|u: UserId| #[trigger] seen.contains(u) <==> exists|j: int|
                    0 <= j < i && self.memberships@[j]@ == (chat_id, tag_name@, u),
            decreases n - i,
        {
            let m = &self.memberships[i];
            if m.chat_id == chat_id && m.tag_name == *tag_name {
                assert(!seen.contains(m.user_id)) by {
                    if seen.contains(m.user_id) {
                        let j = choose|j: int| 0 <= j < i && self.memberships@[j]@ == (chat_id, tag_name@, m.user_id);
                        assert(self.memberships@[j]@ != self.memberships@[i as int]@);
                    }
                }
                proof {
                    seen = seen.insert(m.user_id);
                }
                count = count + 1;
                assert forall|u: UserId| #[trigger] seen.contains(u) <==> exists|j: int|
                    0 <= j < i + 1 && self.memberships@[j]@ == (chat_id, tag_name@, u) by {
                    if u == m.user_id {
                        assert(self.memberships@[i as int]@ == (chat_id, tag_name@, u));
                    }
                }
            } else {
                assert forall|u: UserId| #[trigger] seen.contains(u) <==> exists|j: int|
                    0 <= j < i + 1 && self.memberships@[j]@ == (chat_id, tag_name@, u) by {
                    if exists|j: int| 0 <= j < i + 1 && self.memberships@[j]@ == (chat_id, tag_name@, u) {
                        let j = choose|j: int| 0 <= j < i + 1 && self.memberships@[j]@ == (chat_id, tag_name@, u);
                        assert(j != i);
                    }
                }
            }
            i = i + 1;
        }
        assert(seen =~= self@.members(chat_id, tag_name@));
        count
    }


    fn chat_tag_names(&self, chat_id: i64) -> (names: Vec<String>)
        ensures
            texts_sorted(names@),
            forall|t: Seq<char>| has_text(names@, t) <==> self@.tag_exists(chat_id, t),
    {
        let n = self.memberships.len();
        let mut names: Vec<String> = Vec::new();
        let mut i: usize = 0;
        while i < n
            invariant
                n == self.memberships@.len(),
                i <= n,
                texts_sorted(names@),
                forall|t: Seq<char>| has_text(names@, t) <==> exists|j: int|
                    0 <= j < i && (#[trigger] self.memberships@[j]).chat_id == chat_id
                        && self.memberships@[j].tag_name@ == t,
            decreases n - i,
        {
            let m = &self.memberships[i];
            if m.chat_id == chat_id {
                insert_sorted(&mut names, &m.tag_name);
                assert forall|t: Seq<char>| has_text(names@, t) <==> exists|j: int|
                    0 <= j < i + 1 && (#[trigger] self.memberships@[j]).chat_id == chat_id
                        && self.memberships@[j].tag_name@ == t by {
                    if t == m.tag_name@ {
                        assert(self.memberships@[i as int].chat_id == chat_id);
                    }
                    if exists|j: int| 0 <= j < i + 1 && (#[trigger] self.memberships@[j]).chat_id == chat_id
                        && self.memberships@[j].tag_name@ == t {
                        let j = choose|j: int| 0 <= j < i + 1 && (#[trigger] self.memberships@[j]).chat_id == chat_id
                            && self.memberships@[j].tag_name@ == t;
                        if j < i {
                        }
                    }
                }
            } else {
                assert forall|t: Seq<char>| has_text(names@, t) <==> exists|j: int|
                    0 <= j < i + 1 && (#[trigger] self.memberships@[j]).chat_id == chat_id
                        && self.memberships@[j].tag_name@ == t by {
                    if exists|j: int| 0 <= j < i + 1 && (#[trigger] self.memberships@[j]).chat_id == chat_id
                        && self.memberships@[j].tag_name@ == t {
                        let j = choose|j: int| 0 <= j < i + 1 && (#[trigger] self.memberships@[j]).chat_id == chat_id
                            && self.memberships@[j].tag_name@ == t;
                        assert(j != i);
                    }
                }
            }
            i = i + 1;
        }
        assert forall|t: Seq<char>| has_text(names@, t) <==> self@.tag_exists(chat_id, t) by {
            if has_text(names@, t) {
                let j = choose|j: int| 0 <= j < n && (#[trigger] self.memberships@[j]).chat_id == chat_id
                    && self.memberships@[j].tag_name@ == t;
                assert(self@.tags.contains((chat_id, t, self.memberships@[j].user_id)));
            }
            if self@.tag_exists(chat_id, t) {
                let u = choose|u: UserId| self@.tags.contains((chat_id, t, u));
                let j = choose|j: int| 0 <= j < n && self.memberships@[j]@ == (chat_id, t, u);
                assert(self.memberships@[j].chat_id == chat_id);
            }
        }
        names
    }

    /// The tags that have members in chat `chat_id`, each with its number of
    /// members, in `text_lt` order of the tag name.
    pub fn list_tags(&self, chat_id: i64) -> (r: Vec<(String, usize)>)
        requires
            self.wf(),
        ensures
            self@.is_tag_listing(chat_id, listing_view(r@)),
    {
        let names = self.chat_tag_names(chat_id);
        let mut out: Vec<(String, usize)> = Vec::new();
        let mut i: usize = 0;
        while i < names.len()
            invariant
                self.wf(),
                i <= names@.len(),
                out@.len() == i,
                forall|k: int| 0 <= k < i ==> (#[trigger] out@[k]).0@ == names@[k]@ && out@[k].1
                    == self@.members(chat_id, names@[k]@).len() && self@.members(chat_id, names@[k]@).finite(),
            decreases names@.len() - i,
        {
            let count = self.member_count(chat_id, &names[i]);
            out.push((names[i].clone(), count));
            i = i + 1;
        }
        assert forall|t: Seq<char>| self@.tag_exists(chat_id, t) implies exists|k: int|
            0 <= k < out@.len() && (#[trigger] out@[k]).0@ == t by {
            assert(has_text(names@, t));
            let k = choose|k: int| 0 <= k < names@.len() && (#[trigger] names@[k])@ == t;
            assert(out@[k].0@ == t);
        }
        assert forall|k: int| 0 <= k < out@.len() implies self@.tag_exists(chat_id, (#[trigger] out@[k]).0@) && out@[k].1 >= 1 by {
            assert(has_text(names@, names@[k]@));
            let u = choose|u: UserId| self@.tags.contains((chat_id, names@[k]@, u));
            assert(self@.members(chat_id, names@[k]@).contains(u));
            vstd::set::axiom_set_contains_len(self@.members(chat_id, names@[k]@), u);
        }
        assert forall|a: int, b: int| 0 <= a < b < out@.len() implies text_lt(out@[a].0@, out@[b].0@) by {
            assert(out@[a].0@ == names@[a]@);
            assert(out@[b].0@ == names@[b]@);
        }
        let ghost l = listing_view(out@);
        assert forall|t: Seq<char>| self@.tag_exists(chat_id, t) implies exists|k: int|
            0 <= k < l.len() && (#[trigger] l[k]).0 == t by {
            let k = choose|k: int| 0 <= k < out@.len() && (#[trigger] out@[k]).0@ == t;
            assert(l[k].0 == t);
        }
        out
    }

    /// Whether tag `tag_name` has a member in chat `chat_id`.
    pub fn tag_exists(&self, chat_id: i64, tag_name: String) -> (r: bool)
        ensures
            r == self@.tag_exists(chat_id, tag_name@),
    {
        let n = self.memberships.len();
        let mut i: usize = 0;
        while i < n
            invariant
                n == self.memberships@.len(),
                i <= n,
                forall|k: int|
                    0 <= k < i ==> (#[trigger] self.memberships@[k]@).0 != chat_id
                        || self.memberships@[k]@.1 != tag_name@,
            decreases n - i,
        {
            let m = &self.memberships[i];
            if m.chat_id == chat_id && m.tag_name == tag_name {
                assert(self@.tags.contains((chat_id, tag_name@, m.user_id)));
                return true;
            }
            i = i + 1;
        }
        assert forall|u: UserId| !self@.tags.contains((chat_id, tag_name@, u)) by {
            if self@.tags.contains((chat_id, tag_name@, u)) {
                let k = choose|k: int|
                    0 <= k < self.memberships@.len() && self.memberships@[k]@ == (
                        chat_id,
                        tag_name@,
                        u,
                    );
                assert(self.memberships@[k]@.0 == chat_id);
            }
        }
        false
    }
}

} // verus!
