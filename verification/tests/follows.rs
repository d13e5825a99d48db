use guppy::db::content::follow_content_text;
use guppy::db::content::follow_needle_text;
use guppy::db::guppydb::deserialize_userfollow;
use guppy::db::guppydb::toggle_added;
use guppy::db::guppydb::GuppyDB;
use guppy::db::records::UserFollow;

fn s(text: &str) -> String {
    String::from(text)
}

fn pair(user: &str, is_following: &str) -> UserFollow {
    UserFollow { user: s(user), is_following: s(is_following) }
}

fn with_users(names: &[&str]) -> GuppyDB {
    let mut db = GuppyDB::new();
    for name in names {
        assert!(db.create_user(s(name)).success);
    }
    db
}

#[test]
fn follow_content_is_json() {
    assert_eq!(follow_content_text("alice", "bob"), "{\"user\":\"alice\",\"is_following\":\"bob\"}");
    assert_eq!(follow_needle_text("alice", "bob"), "\"user\":\"alice\",\"is_following\":\"bob\"");
    assert_eq!(
        follow_content_text("a\"b\\c", "tab\there\u{1}"),
        "{\"user\":\"a\\\"b\\\\c\",\"is_following\":\"tab\\there\\u0001\"}"
    );
}

#[test]
fn toggle_twice_returns_to_not_following() {
    let mut db = with_users(&["alice", "bob"]);
    assert!(!db.get_follow_by_user(s("alice"), s("bob")).success);
    let first = db.toggle_user_follow(&pair("alice", "bob"));
    assert!(first.success);
    assert_eq!(first.message, "Log created!");
    let found = db.get_follow_by_user(s("alice"), s("bob"));
    assert!(found.success);
    assert_eq!(found.message, "Follow exists");
    let log = found.payload.unwrap();
    assert_eq!(Some(log.id.clone()), first.payload);
    assert_eq!(log.logtype, "follow");
    assert_eq!(log.content, "{\"user\":\"alice\",\"is_following\":\"bob\"}");
    assert!(!db.get_follow_by_user(s("bob"), s("alice")).success);
    let second = db.toggle_user_follow(&pair("alice", "bob"));
    assert!(second.success);
    assert_eq!(second.message, "Log deleted!");
    assert_eq!(second.payload, Some(log.id));
    let found = db.get_follow_by_user(s("alice"), s("bob"));
    assert!(!found.success);
    assert_eq!(found.message, "Follow does not exist");
    assert_eq!(db.get_user_follow_count(s("bob")).payload, 0);
}

#[test]
fn self_follow_is_refused() {
    let mut db = with_users(&["alice"]);
    let out = db.toggle_user_follow(&pair("alice", "alice"));
    assert!(!out.success);
    assert_eq!(out.message, "Cannot follow yourself!");
    assert_eq!(out.payload, None);
    assert_eq!(db.get_user_following_count(s("alice")).payload, 0);
    assert_eq!(db.get_user_follow_count(s("alice")).payload, 0);
}

#[test]
fn both_users_must_exist() {
    let mut db = with_users(&["alice"]);
    let out = db.toggle_user_follow(&pair("ghost", "alice"));
    assert!(!out.success);
    assert_eq!(out.message, "User does not exist!");
    let out = db.toggle_user_follow(&pair("alice", "ghost"));
    assert!(!out.success);
    assert_eq!(out.message, "User (2) does not exist!");
    assert_eq!(db.get_user_following_count(s("alice")).payload, 0);
}

#[test]
fn taken_log_id_is_a_store_failure() {
    let mut db = with_users(&["alice", "bob", "carol"]);
    assert!(db.toggle_user_follow_with(&pair("alice", "bob"), s("one"), 1).success);
    let out = db.toggle_user_follow_with(&pair("alice", "carol"), s("one"), 2);
    assert!(!out.success);
    assert_eq!(out.message, "A row with this key exists already");
    assert_eq!(db.get_user_following_count(s("alice")).payload, 1);
}

#[test]
fn followers_and_following_are_counted() {
    let mut db = with_users(&["alice", "bob", "carol"]);
    db.toggle_user_follow_with(&pair("alice", "bob"), s("f1"), 10);
    db.toggle_user_follow_with(&pair("carol", "bob"), s("f2"), 20);
    db.toggle_user_follow_with(&pair("alice", "carol"), s("f3"), 30);
    let count = db.get_user_follow_count(s("bob"));
    assert!(count.success);
    assert_eq!(count.message, "Follow exists");
    assert_eq!(count.payload, 2);
    assert_eq!(db.get_user_following_count(s("alice")).payload, 2);
    assert_eq!(db.get_user_following_count(s("bob")).payload, 0);
    let followers = db.get_user_followers(s("bob"), None);
    assert!(followers.success);
    assert_eq!(followers.message, "Followers exists");
    let ids: Vec<String> = followers.payload.unwrap().into_iter().map(|log| log.id).collect();
    assert_eq!(ids, vec![s("f2"), s("f1")]);
    let following = db.get_user_following(s("alice"), Some(0));
    assert_eq!(following.message, "Following exists");
    let ids: Vec<String> = following.payload.unwrap().into_iter().map(|log| log.id).collect();
    assert_eq!(ids, vec![s("f3"), s("f1")]);
}

#[test]
fn pages_of_followers_do_not_overlap() {
    let mut db = with_users(&["star"]);
    for i in 0..105u128 {
        let name = format!("fan{}", i);
        assert!(db.create_user(name.clone()).success);
        let out = db.toggle_user_follow_with(&pair(&name, "star"), format!("f{}", i), 1000 + i);
        assert!(out.success);
    }
    assert_eq!(db.get_user_follow_count(s("star")).payload, 105);
    let first = db.get_user_followers(s("star"), Some(0)).payload.unwrap();
    let second = db.get_user_followers(s("star"), Some(50)).payload.unwrap();
    let third = db.get_user_followers(s("star"), Some(100)).payload.unwrap();
    let beyond = db.get_user_followers(s("star"), Some(500)).payload.unwrap();
    let below = db.get_user_followers(s("star"), Some(-4)).payload.unwrap();
    assert_eq!(first.len(), 50);
    assert_eq!(second.len(), 50);
    assert_eq!(third.len(), 5);
    assert_eq!(beyond.len(), 0);
    assert_eq!(below, first);
    assert_eq!(first[0].timestamp, 1104);
    assert_eq!(first[49].timestamp, 1055);
    assert_eq!(second[0].timestamp, 1054);
    assert_eq!(second[49].timestamp, 1005);
    for page in [&first, &second, &third] {
        for two in page.windows(2) {
            assert!(two[0].timestamp >= two[1].timestamp);
        }
    }
    for log in &first {
        assert!(second.iter().all(|other| other.id != log.id));
    }
    assert_eq!(db.get_user_followers(s("star"), None).payload.unwrap(), first);
}

#[test]
fn logs_are_created_edited_and_deleted() {
    let mut db = GuppyDB::new();
    let made = db.create_log_with(s("note"), s("first"), s("n1"), 3);
    assert!(made.success);
    assert_eq!(made.message, "Log created!");
    assert_eq!(made.payload, Some(s("n1")));
    let found = db.get_log_by_id(s("n1"));
    assert!(found.success);
    assert_eq!(found.message, "Log exists");
    assert_eq!(found.payload.clone().unwrap().content, "first");
    assert_eq!(found.payload.unwrap().timestamp, 3);
    assert_eq!(db.get_log_by_id(s("n1")).message, "Log exists (cache)");
    let edited = db.edit_log(s("n1"), s("second"));
    assert!(edited.success);
    assert_eq!(edited.message, "Log updated!");
    assert_eq!(db.get_log_by_id(s("n1")).payload.unwrap().content, "second");
    let gone = db.delete_log(s("n1"));
    assert!(gone.success);
    assert_eq!(gone.message, "Log deleted!");
    let found = db.get_log_by_id(s("n1"));
    assert!(!found.success);
    assert_eq!(found.message, "Log does not exist");
    assert_eq!(db.edit_log(s("n1"), s("x")).message, "Log does not exist!");
    assert_eq!(db.delete_log(s("n1")).message, "Log does not exist!");
}

#[test]
fn fresh_log_ids_are_digests() {
    let mut db = GuppyDB::new();
    let one = db.create_log(s("note"), s("a")).payload.unwrap();
    let two = db.create_log(s("note"), s("b")).payload.unwrap();
    assert_eq!(one.len(), 64);
    assert_ne!(one, two);
}

#[test]
fn follow_is_read_from_the_content_of_its_log() {
    let mut db = with_users(&["alice", "bob"]);
    db.toggle_user_follow(&pair("alice", "bob"));
    let log = db.get_follow_by_user(s("alice"), s("bob")).payload.unwrap();
    assert_eq!(deserialize_userfollow(log.content), Some(pair("alice", "bob")));
    assert_eq!(deserialize_userfollow(s("{\"user\":\"alice\"}")), None);
    assert_eq!(deserialize_userfollow(s("nothing")), None);
}

#[test]
fn toggle_tells_what_it_did() {
    let mut db = with_users(&["alice", "bob"]);
    let on = db.toggle_user_follow(&pair("alice", "bob"));
    assert_eq!(toggle_added(&on), Some(true));
    let off = db.toggle_user_follow(&pair("alice", "bob"));
    assert_eq!(toggle_added(&off), Some(false));
    let refused = db.toggle_user_follow(&pair("alice", "alice"));
    assert_eq!(toggle_added(&refused), None);
}
