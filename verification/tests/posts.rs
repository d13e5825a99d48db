use guppy::db::content::favorite_content_text;
use guppy::db::is_valid_content;
use guppy::db::records::ActivityPost;
use guppy::db::records::PCreatePost;
use guppy::db::Database;

fn s(text: &str) -> String {
    String::from(text)
}

fn props(author: &str, content: &str, reply: &str) -> PCreatePost {
    PCreatePost { content: s(content), author: s(author), reply: s(reply) }
}

fn with_users(names: &[&str]) -> Database {
    let mut db = Database::new();
    for name in names {
        assert!(db.create_user(s(name)).success);
    }
    db
}

fn post(db: &mut Database, author: &str, content: &str, reply: &str, id: &str, now: u128) -> ActivityPost {
    let html = format!("<p>{}</p>", content);
    let made = db.create_activity_post_with(&props(author, content, reply), html, s(id), now);
    assert!(made.success, "{}", made.message);
    made.payload.unwrap()
}

fn ids(posts: &[ActivityPost]) -> Vec<String> {
    posts.iter().map(|post| post.id.clone()).collect()
}

#[test]
fn post_and_reply() {
    let mut db = with_users(&["alice", "bob"]);
    let made = db.create_activity_post(&props("alice", "hello world", ""), s("<p>hello world</p>"));
    assert!(made.success);
    assert_eq!(made.message, "Post created");
    let first = made.payload.unwrap();
    assert_eq!(first.content, "hello world");
    assert!(!first.content_html.is_empty());
    assert_eq!(first.content_html, "<p>hello world</p>");
    assert_eq!(first.reply, "");
    assert_eq!(first.author, "alice");
    assert_eq!(first.id.len(), 64);
    let made = db.create_activity_post(&props("bob", "hi alice", &first.id), s("<p>hi alice</p>"));
    assert!(made.success);
    let second = made.payload.unwrap();
    assert_eq!(second.reply, first.id);
    let replies = db.get_post_replies(first.id.clone(), true);
    assert!(replies.success);
    assert_eq!(replies.payload, Some(vec![second]));
}

#[test]
fn content_length_is_checked_in_bytes() {
    assert!(!is_valid_content(&s("")));
    assert!(!is_valid_content(&s("a")));
    assert!(is_valid_content(&s("ab")));
    assert!(is_valid_content(&s("é")));
    assert!(is_valid_content(&"a".repeat(500)));
    assert!(!is_valid_content(&"a".repeat(501)));
    assert!(is_valid_content(&"é".repeat(250)));
    assert!(!is_valid_content(&"é".repeat(251)));
    let mut db = with_users(&["alice"]);
    let made = db.create_activity_post(&props("alice", "a", ""), s("<p>a</p>"));
    assert!(!made.success);
    assert_eq!(made.message, "Content is invalid");
    assert_eq!(made.payload, None);
    let made = db.create_activity_post(&props("alice", &"a".repeat(501), ""), s("x"));
    assert!(!made.success);
    assert_eq!(made.message, "Content is invalid");
}

#[test]
fn author_and_parent_must_exist() {
    let mut db = with_users(&["alice"]);
    let made = db.create_activity_post(&props("ghost", "hello", ""), s("<p>hello</p>"));
    assert!(!made.success);
    assert_eq!(made.message, "User does not exist");
    let made = db.create_activity_post(&props("alice", "hello", "no-such-post"), s("<p>hello</p>"));
    assert!(!made.success);
    assert_eq!(made.message, "Post does not exist");
    assert_eq!(made.payload, None);
    assert_eq!(db.get_user_activity(s("alice"), None).payload, Some(Vec::new()));
}

#[test]
fn taken_post_id_is_a_store_failure() {
    let mut db = with_users(&["alice"]);
    post(&mut db, "alice", "first", "", "p1", 1);
    let made = db.create_activity_post_with(&props("alice", "again", ""), s("x"), s("p1"), 2);
    assert!(!made.success);
    assert_eq!(made.message, "A row with this key exists already");
    assert_eq!(db.get_post_by_id(s("p1")).payload.unwrap().content, "first");
}

#[test]
fn post_lookup_uses_the_cache() {
    let mut db = with_users(&["alice"]);
    let made = post(&mut db, "alice", "first", "", "p1", 1);
    let found = db.get_post_by_id(s("p1"));
    assert!(found.success);
    assert_eq!(found.message, "Post exists");
    assert_eq!(found.payload, Some(made.clone()));
    let found = db.get_post_by_id(s("p1"));
    assert_eq!(found.message, "Post exists (cache)");
    assert_eq!(found.payload, Some(made));
    let found = db.get_post_by_id(s("p2"));
    assert!(!found.success);
    assert_eq!(found.message, "Post does not exist");
}

#[test]
fn replies_are_newest_first_and_never_stale() {
    let mut db = with_users(&["alice", "bob"]);
    post(&mut db, "alice", "root", "", "p1", 1);
    assert_eq!(db.get_post_replies(s("p1"), true).payload, Some(Vec::new()));
    post(&mut db, "bob", "one", "p1", "r1", 10);
    post(&mut db, "alice", "two", "p1", "r2", 20);
    let replies = db.get_post_replies(s("p1"), false);
    assert_eq!(replies.message, "Successfully fetched replies");
    assert_eq!(ids(&replies.payload.unwrap()), vec![s("r2"), s("r1")]);
    let replies = db.get_post_replies(s("p1"), false);
    assert_eq!(replies.message, "Successfully fetched posts");
    assert_eq!(ids(&replies.payload.unwrap()), vec![s("r2"), s("r1")]);
    assert!(db.delete_activity_post(s("r2"), Some(s("alice"))).success);
    assert_eq!(ids(&db.get_post_replies(s("p1"), true).payload.unwrap()), vec![s("r1")]);
    let missing = db.get_post_replies(s("none"), true);
    assert!(!missing.success);
    assert_eq!(missing.message, "Post does not exist");
    assert_eq!(db.get_post_replies(s("none"), false).payload, Some(Vec::new()));
}

#[test]
fn at_most_a_hundred_replies() {
    let mut db = with_users(&["alice"]);
    post(&mut db, "alice", "root", "", "p1", 1);
    for i in 0..103u128 {
        post(&mut db, "alice", "reply", "p1", &format!("r{}", i), 10 + i);
    }
    let replies = db.get_post_replies(s("p1"), true).payload.unwrap();
    assert_eq!(replies.len(), 100);
    assert_eq!(replies[0].id, "r102");
    assert_eq!(replies[99].id, "r3");
}

#[test]
fn feed_joins_replies_and_favorites() {
    let mut db = with_users(&["alice", "bob"]);
    let first = post(&mut db, "alice", "first", "", "p1", 1);
    let second = post(&mut db, "alice", "second", "", "p2", 2);
    post(&mut db, "bob", "other", "", "p3", 3);
    let reply = post(&mut db, "bob", "reply", "p1", "r1", 4);
    assert!(db.toggle_user_post_favorite(s("bob"), s("p2")).success);
    let feed = db.get_user_activity(s("alice"), None);
    assert!(feed.success);
    assert_eq!(feed.message, "Successfully fetched posts");
    assert_eq!(
        feed.payload,
        Some(vec![(second.clone(), Vec::new(), 1), (first.clone(), vec![reply.clone()], 0)])
    );
    let third = post(&mut db, "alice", "third", "", "p4", 5);
    let feed = db.get_user_activity(s("alice"), Some(0)).payload.unwrap();
    assert_eq!(feed.len(), 3);
    assert_eq!(feed[0], (third, Vec::new(), 0));
    assert!(db.delete_activity_post(s("p2"), Some(s("alice"))).success);
    let feed = db.get_user_activity(s("alice"), Some(0)).payload.unwrap();
    assert_eq!(feed.iter().map(|row| row.0.id.clone()).collect::<Vec<_>>(), vec![s("p4"), s("p1")]);
    let missing = db.get_user_activity(s("ghost"), None);
    assert!(!missing.success);
    assert_eq!(missing.message, "User does not exist");
    assert_eq!(missing.payload, None);
}

#[test]
fn feed_has_pages_of_fifty() {
    let mut db = with_users(&["alice"]);
    for i in 0..60u128 {
        post(&mut db, "alice", "post", "", &format!("p{}", i), 100 + i);
    }
    let first = db.get_user_activity(s("alice"), None).payload.unwrap();
    let second = db.get_user_activity(s("alice"), Some(50)).payload.unwrap();
    assert_eq!(first.len(), 50);
    assert_eq!(second.len(), 10);
    assert_eq!(first[0].0.id, "p59");
    assert_eq!(first[49].0.id, "p10");
    assert_eq!(second[0].0.id, "p9");
    assert_eq!(second[9].0.id, "p0");
    assert_eq!(db.get_user_activity(s("alice"), Some(60)).payload, Some(Vec::new()));
}

#[test]
fn replies_with_their_own_replies() {
    let mut db = with_users(&["alice", "bob"]);
    post(&mut db, "alice", "root", "", "p1", 1);
    let reply = post(&mut db, "bob", "reply", "p1", "r1", 2);
    let nested = post(&mut db, "alice", "nested", "r1", "n1", 3);
    db.toggle_user_post_favorite(s("alice"), s("r1"));
    let full = db.get_post_replies_full(s("p1"), true);
    assert!(full.success);
    assert_eq!(full.message, "Successfully fetched replies");
    assert_eq!(full.payload, Some(vec![(reply, vec![nested], 1)]));
    let full = db.get_post_replies_full(s("p1"), true);
    assert_eq!(full.message, "Successfully fetched posts");
    let missing = db.get_post_replies_full(s("none"), true);
    assert!(!missing.success);
    assert_eq!(missing.message, "Post does not exist");
    assert_eq!(missing.payload, None);
}

#[test]
fn only_author_or_manager_deletes() {
    let mut db = with_users(&["alice", "bob"]);
    post(&mut db, "alice", "mine", "", "p1", 1);
    let out = db.delete_activity_post(s("p1"), None);
    assert!(!out.success);
    assert_eq!(out.message, "You do not have permission to do this.");
    let out = db.delete_activity_post(s("p1"), Some(s("bob")));
    assert!(!out.success);
    assert_eq!(out.message, "You do not have permission to do this.");
    let out = db.delete_activity_post(s("p1"), Some(s("ghost")));
    assert!(!out.success);
    assert_eq!(out.message, "User does not exist.");
    let out = db.delete_activity_post(s("none"), Some(s("alice")));
    assert!(!out.success);
    assert_eq!(out.message, "Post does not exist");
    assert!(db.get_post_by_id(s("p1")).success);
    let out = db.delete_activity_post(s("p1"), Some(s("alice")));
    assert!(out.success);
    assert_eq!(out.message, "Post deleted");
    assert!(!out.payload);
    assert!(!db.get_post_by_id(s("p1")).success);
}

#[test]
fn holder_of_manage_posts_deletes() {
    let mut db = Database::new();
    let level = s("{\"elevation\":2,\"name\":\"staff\",\"permissions\":[\"ManageUsers\",\"ManagePosts\"]}");
    assert!(db.create_log(s("level"), level).success);
    assert!(db.create_log(s("level"), s("{\"elevation\":1,\"name\":\"member\",\"permissions\":[]}")).success);
    db.create_user(s("alice"));
    db.create_user(s("bob"));
    db.create_user(s("mod"));
    post(&mut db, "alice", "mine", "", "p1", 1);
    assert!(!db.delete_activity_post(s("p1"), Some(s("bob"))).success);
    assert!(db.get_post_by_id(s("p1")).success);
    let mut other = Database::new();
    let member = s("{\"elevation\":1,\"name\":\"member\",\"permissions\":[\"ManagePosts\"]}");
    assert!(other.create_log(s("level"), member).success);
    other.create_user(s("alice"));
    other.create_user(s("mod"));
    post(&mut other, "alice", "mine", "", "p1", 1);
    let out = other.delete_activity_post(s("p1"), Some(s("mod")));
    assert!(out.success);
    assert_eq!(out.message, "Post deleted");
    assert!(!other.get_post_by_id(s("p1")).success);
}

#[test]
fn favorite_toggles_and_counts() {
    let mut db = with_users(&["alice", "bob"]);
    post(&mut db, "bob", "bobs post", "", "p1", 1);
    let count = db.get_post_favorites(s("p1"));
    assert!(count.success);
    assert_eq!(count.message, "p1");
    assert_eq!(count.payload, 0);
    let on = db.toggle_user_post_favorite(s("alice"), s("p1"));
    assert!(on.success);
    assert_eq!(on.message, "Log created!");
    assert_eq!(db.get_post_favorites(s("p1")).payload, 1);
    let found = db.get_user_post_favorite(s("alice"), s("p1"), false);
    assert!(found.success);
    assert_eq!(found.message, "p1");
    let log = found.payload.unwrap();
    assert_eq!(log.logtype, "post_favorite");
    assert_eq!(log.content, "{\"user\":\"alice\",\"id\":\"p1\"}");
    assert_eq!(log.content, favorite_content_text("alice", "p1"));
    let off = db.toggle_user_post_favorite(s("alice"), s("p1"));
    assert!(off.success);
    assert_eq!(off.message, "Log deleted!");
    assert_eq!(db.get_post_favorites(s("p1")).payload, 0);
    let own = db.toggle_user_post_favorite(s("bob"), s("p1"));
    assert!(!own.success);
    assert_eq!(own.message, "You're the post author!");
    assert_eq!(own.payload, None);
    assert_eq!(db.get_post_favorites(s("p1")).payload, 0);
    let found = db.get_user_post_favorite(s("alice"), s("p1"), true);
    assert!(!found.success);
    assert_eq!(found.message, "No row was found");
}

#[test]
fn favorites_of_a_missing_post() {
    let mut db = with_users(&["alice"]);
    let count = db.get_post_favorites(s("none"));
    assert!(!count.success);
    assert_eq!(count.message, "Post does not exist!");
    assert_eq!(count.payload, 0);
    let out = db.toggle_user_post_favorite(s("alice"), s("none"));
    assert!(!out.success);
    assert_eq!(out.message, "Post does not exist!");
    let found = db.get_user_post_favorite(s("alice"), s("none"), false);
    assert!(!found.success);
    assert_eq!(found.message, "Post does not exist!");
}

#[test]
fn counters_follow_the_logs_of_each_post() {
    let mut db = with_users(&["alice", "bob", "carol"]);
    post(&mut db, "bob", "one", "", "p1", 1);
    post(&mut db, "bob", "two", "", "p2", 2);
    db.toggle_user_post_favorite_with(s("alice"), s("p1"), s("f1"), 3);
    db.toggle_user_post_favorite_with(s("carol"), s("p1"), s("f2"), 4);
    db.toggle_user_post_favorite_with(s("alice"), s("p2"), s("f3"), 5);
    assert_eq!(db.get_post_favorites(s("p1")).payload, 2);
    assert_eq!(db.get_post_favorites(s("p2")).payload, 1);
    db.toggle_user_post_favorite_with(s("alice"), s("p1"), s("f4"), 6);
    assert_eq!(db.get_post_favorites(s("p1")).payload, 1);
    assert_eq!(db.get_post_favorites(s("p2")).payload, 1);
    assert!(db.get_user_post_favorite(s("carol"), s("p1"), false).success);
    assert!(!db.get_user_post_favorite(s("alice"), s("p1"), false).success);
}

#[test]
fn database_hands_user_operations_on() {
    let mut db = Database::new();
    let made = db.create_user_with(s("alice"), s("abc"), 1);
    assert!(made.success);
    db.create_user(s("bob"));
    assert!(db.get_user_by_username(s("alice")).success);
    assert!(db.get_user_by_hashed(made.payload.unwrap()).success);
    assert!(db.get_user_by_unhashed(s("abc")).success);
    assert!(!db.get_user_by_unhashed_st(s("abc")).success);
    assert_eq!(db.get_level_by_role(s("member")).payload.level.elevation, 0);
    assert!(!db.ban_user_by_name(s("alice")).success);
    let follow = guppy::db::records::UserFollow { user: s("alice"), is_following: s("bob") };
    assert!(db.toggle_user_follow(&follow).success);
    assert!(db.get_follow_by_user(s("alice"), s("bob")).success);
    assert_eq!(db.get_user_follow_count(s("bob")).payload, 1);
    assert_eq!(db.get_user_following_count(s("alice")).payload, 1);
    assert_eq!(db.get_user_followers(s("bob"), None).payload.unwrap().len(), 1);
    assert_eq!(db.get_user_following(s("alice"), None).payload.unwrap().len(), 1);
    assert!(db.toggle_user_follow_with(&follow, s("x"), 9).success);
    assert_eq!(db.get_user_follow_count(s("bob")).payload, 0);
}

#[test]
fn counter_steps_only_with_the_log() {
    let mut db = with_users(&["alice", "bob", "carol"]);
    post(&mut db, "bob", "bobs post", "", "p1", 1);
    let follow = guppy::db::records::UserFollow { user: s("carol"), is_following: s("bob") };
    assert!(db.toggle_user_follow_with(&follow, s("x"), 2).success);
    let refused = db.toggle_user_post_favorite_with(s("alice"), s("p1"), s("x"), 3);
    assert!(!refused.success);
    assert_eq!(refused.message, "A row with this key exists already");
    assert_eq!(refused.payload, None);
    assert_eq!(db.get_post_favorites(s("p1")).payload, 0);
    assert!(!db.get_user_post_favorite(s("alice"), s("p1"), true).success);
    let made = db.toggle_user_post_favorite_with(s("alice"), s("p1"), s("y"), 4);
    assert!(made.success);
    assert_eq!(db.get_post_favorites(s("p1")).payload, 1);
    assert!(db.toggle_user_post_favorite_with(s("alice"), s("p1"), s("x"), 5).success);
    assert_eq!(db.get_post_favorites(s("p1")).payload, 0);
}
