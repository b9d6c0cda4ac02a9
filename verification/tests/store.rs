use tagbot::db::{Database, TagUserInfo};
use tagbot::models::UserInfo;

fn user(id: u64, username: Option<&str>, first_name: &str) -> UserInfo {
    UserInfo { id, username: username.map(|s| s.to_string()), first_name: first_name.to_string() }
}

fn ids(users: &[TagUserInfo]) -> Vec<u64> {
    users.iter().map(|u| u.info.id).collect()
}

#[test]
fn join_reports_new_membership_once() {
    let mut db = Database::new();
    let alice = user(5, Some("alice"), "Alice");
    assert!(db.join_tag(1, "devs".to_string(), &alice));
    assert!(!db.join_tag(1, "devs".to_string(), &alice));
    assert!(db.tag_exists(1, "devs".to_string()));
    assert!(!db.tag_exists(2, "devs".to_string()));
    assert!(!db.tag_exists(1, "designers".to_string()));
}

#[test]
fn join_then_leave_restores() {
    let mut db = Database::new();
    let alice = user(5, None, "Alice");
    db.join_tag(1, "devs".to_string(), &alice);
    assert!(db.leave_tag(1, "devs".to_string(), 5));
    assert!(!db.leave_tag(1, "devs".to_string(), 5));
    assert!(!db.tag_exists(1, "devs".to_string()));
    assert!(db.list_tags(1).is_empty());
}

#[test]
fn tag_users_are_ordered_by_id_and_carry_latest_info() {
    let mut db = Database::new();
    db.join_tag(1, "devs".to_string(), &user(30, None, "C"));
    db.join_tag(1, "devs".to_string(), &user(10, None, "A"));
    db.join_tag(1, "devs".to_string(), &user(20, None, "B"));
    db.upsert_user(&user(10, Some("a_new"), "A2"));
    let users = db.get_tag_users(1, "devs".to_string(), None);
    assert_eq!(ids(&users), vec![10, 20, 30]);
    assert_eq!(users[0].info, user(10, Some("a_new"), "A2"));
    assert!(users.iter().all(|u| !u.is_private));
}

#[test]
fn mutes_filter_calls() {
    let mut db = Database::new();
    for id in [1u64, 2, 3] {
        db.join_tag(-100, "алл".to_string(), &user(id, None, "U"));
    }
    assert!(db.mute_user(-100, 2, "all".to_string()));
    assert!(!db.mute_user(-100, 2, "all".to_string()));
    assert!(db.mute_user(-100, 3, "ask".to_string()));
    assert_eq!(ids(&db.get_tag_users(-100, "алл".to_string(), None)), vec![1, 3]);
    assert_eq!(ids(&db.get_tag_users(-100, "алл".to_string(), Some("ask".to_string()))), vec![1]);
    assert_eq!(db.get_muted_count(-100), 1);
    assert_eq!(db.get_muted_count(-200), 0);
    assert!(db.unmute_user(-100, 2, "all".to_string()));
    assert!(!db.unmute_user(-100, 2, "all".to_string()));
    assert_eq!(ids(&db.get_tag_users(-100, "алл".to_string(), None)), vec![1, 2, 3]);
}

#[test]
fn mutes_are_per_chat() {
    let mut db = Database::new();
    db.join_tag(1, "t".to_string(), &user(9, None, "N"));
    db.join_tag(2, "t".to_string(), &user(9, None, "N"));
    db.join_tag(1, "алл".to_string(), &user(9, None, "N"));
    db.join_tag(2, "алл".to_string(), &user(9, None, "N"));
    db.mute_user(1, 9, "all".to_string());
    assert!(db.get_tag_users(1, "алл".to_string(), None).is_empty());
    assert_eq!(ids(&db.get_tag_users(2, "алл".to_string(), None)), vec![9]);
    // A named tag's call reaches muted members too.
    assert_eq!(ids(&db.get_tag_users(1, "t".to_string(), None)), vec![9]);
}

#[test]
fn private_users_are_flagged() {
    let mut db = Database::new();
    let bob = user(4, Some("bob"), "Bob");
    db.join_tag(1, "t".to_string(), &bob);
    db.register_private_user(&bob);
    db.register_private_user(&bob);
    let users = db.get_tag_users(1, "t".to_string(), None);
    assert_eq!(users.len(), 1);
    assert!(users[0].is_private);
}

#[test]
fn list_tags_sorted_with_counts() {
    let mut db = Database::new();
    db.join_tag(1, "zeta".to_string(), &user(1, None, "A"));
    db.join_tag(1, "alpha".to_string(), &user(1, None, "A"));
    db.join_tag(1, "alpha".to_string(), &user(2, None, "B"));
    db.join_tag(1, "бета".to_string(), &user(3, None, "C"));
    db.join_tag(2, "other".to_string(), &user(3, None, "C"));
    let tags = db.list_tags(1);
    assert_eq!(
        tags,
        vec![("alpha".to_string(), 2), ("zeta".to_string(), 1), ("бета".to_string(), 1)]
    );
    assert_eq!(db.list_tags(2), vec![("other".to_string(), 1)]);
    assert!(db.list_tags(3).is_empty());
}

#[test]
fn results_depend_on_contents_not_history() {
    let mut a = Database::new();
    let mut b = Database::new();
    let u1 = user(1, None, "A");
    let u2 = user(2, None, "B");
    a.join_tag(1, "x".to_string(), &u1);
    a.join_tag(1, "y".to_string(), &u2);
    a.join_tag(1, "x".to_string(), &u2);
    b.join_tag(1, "x".to_string(), &u2);
    b.join_tag(1, "tmp".to_string(), &u1);
    b.join_tag(1, "y".to_string(), &u2);
    b.join_tag(1, "x".to_string(), &u1);
    b.leave_tag(1, "tmp".to_string(), 1);
    assert_eq!(a.list_tags(1), b.list_tags(1));
    assert_eq!(a.get_tag_users(1, "x".to_string(), None), b.get_tag_users(1, "x".to_string(), None));
}

#[test]
fn filtered_calls_leave_out_users_muted_for_all() {
    let mut db = Database::new();
    db.join_tag(-3, "devs".to_string(), &user(1, Some("a"), "A"));
    db.join_tag(-3, "devs".to_string(), &user(2, Some("b"), "B"));
    db.join_tag(-3, "devs".to_string(), &user(3, Some("c"), "C"));
    db.mute_user(-3, 1, "all".to_string());
    db.mute_user(-3, 2, "ask".to_string());
    db.mute_user(-4, 3, "all".to_string());
    assert_eq!(ids(&db.get_tag_users(-3, "devs".to_string(), None)), vec![1, 2, 3]);
    assert_eq!(ids(&db.get_tag_users(-3, "devs".to_string(), Some("ask".to_string()))), vec![3]);
    assert_eq!(ids(&db.get_tag_users(-3, "devs".to_string(), Some("other".to_string()))), vec![2, 3]);
}

#[test]
fn other_chats_leave_the_listing_alone() {
    let mut db = Database::new();
    db.join_tag(-3, "devs".to_string(), &user(1, None, "A"));
    let before = db.list_tags(-3);
    db.join_tag(-4, "ops".to_string(), &user(2, None, "B"));
    db.mute_user(-4, 1, "all".to_string());
    db.leave_tag(-4, "ops".to_string(), 2);
    db.upsert_user(&user(1, Some("a"), "A"));
    assert_eq!(db.list_tags(-3), before);
    assert_eq!(before, vec![("devs".to_string(), 1)]);
}
