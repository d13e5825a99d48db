use guppy::api::auth::Handled;
use guppy::api::auth::OffsetQueryProps;
use guppy::api::mail::open_stream_request;
use guppy::api::mail::stream_was_created;
use guppy::api::mail::streams_request;
use guppy::db::content::stream_metadata_text;
use guppy::db::records::MailStreamEntry;
use guppy::db::records::UserMailStreamIdentifier;
use guppy::db::records::UserMetadata;
use guppy::db::Database;

fn s(text: &str) -> String {
    String::from(text)
}

fn pair(user1: &str, user2: &str) -> UserMailStreamIdentifier {
    UserMailStreamIdentifier { user1: s(user1), user2: s(user2) }
}

fn with_users(names: &[&str]) -> Database {
    let mut db = Database::new();
    for name in names {
        assert!(db.create_user(s(name)).success);
    }
    db
}

#[test]
fn stream_metadata_carries_the_mark() {
    assert_eq!(
        stream_metadata_text("alice", "bob"),
        "{\"is_private\":\"yes\",\"allow_open_posting\":\"yes\",\"about\":\"{\\\"_is_user_mail_stream\\\":true,\\\"user1\\\":\\\"alice\\\",\\\"user2\\\":\\\"bob\\\"}\"}"
    );
}

#[test]
fn mail_stream_is_created_once_for_a_pair() {
    let mut db = with_users(&["alice", "bob"]);
    let first = db.create_mail_stream(&pair("alice", "bob"));
    assert!(first.success);
    assert_eq!(first.message, "Mail stream created");
    let board = first.payload.unwrap();
    assert!(board.name.starts_with("inbox-"));
    assert_eq!(board.name.len(), 6 + 64);
    assert_eq!(board.metadata, stream_metadata_text("alice", "bob"));
    let second = db.create_mail_stream(&pair("bob", "alice"));
    assert!(second.success);
    assert_eq!(second.message, "Mail stream exists");
    assert_eq!(second.payload.unwrap().name, board.name);
    let third = db.create_mail_stream(&pair("alice", "bob"));
    assert!(third.success);
    assert_eq!(third.payload.unwrap().name, board.name);
}

#[test]
fn lookup_of_a_stream_is_by_order() {
    let mut db = with_users(&["alice", "bob"]);
    assert!(!db.get_mail_stream_by_users(s("alice"), s("bob")).success);
    let made = db.create_mail_stream_with(&pair("alice", "bob"), s("one"), 5);
    assert_eq!(made.payload.clone().unwrap().name, "inbox-one");
    assert_eq!(made.payload.unwrap().timestamp, 5);
    let found = db.get_mail_stream_by_users(s("alice"), s("bob"));
    assert!(found.success);
    assert_eq!(found.message, "Mail stream exists");
    assert_eq!(found.payload.unwrap().name, "inbox-one");
    let found = db.get_mail_stream_by_users(s("bob"), s("alice"));
    assert!(!found.success);
    assert_eq!(found.message, "Mail stream does not exist");
    assert_eq!(found.payload, None);
}

#[test]
fn second_user_must_exist_and_accept_mail() {
    let mut db = with_users(&["alice", "bob"]);
    let out = db.create_mail_stream(&pair("alice", "ghost"));
    assert!(!out.success);
    assert_eq!(out.message, "User does not exist");
    let metadata = UserMetadata {
        about: s(""),
        avatar_url: None,
        secondary_token: None,
        allow_mail: Some(s("no")),
        nickname: None,
        page_template: None,
    };
    assert!(db.edit_user_metadata_by_name(s("bob"), metadata).success);
    let out = db.create_mail_stream(&pair("alice", "bob"));
    assert!(!out.success);
    assert_eq!(out.message, "User is not accepting mail");
    assert_eq!(out.payload, None);
    assert!(db.create_mail_stream(&pair("bob", "alice")).success);
    assert!(db.create_mail_stream(&pair("ghost", "alice")).success);
}

#[test]
fn taken_board_name_is_a_store_failure() {
    let mut db = with_users(&["alice", "bob", "carol"]);
    assert!(db.create_mail_stream_with(&pair("alice", "bob"), s("one"), 1).success);
    let out = db.create_mail_stream_with(&pair("alice", "carol"), s("one"), 2);
    assert!(!out.success);
    assert_eq!(out.message, "A row with this key exists already");
}

#[test]
fn streams_of_a_user_name_the_other_user() {
    let mut db = with_users(&["alice", "bob", "carol", "al"]);
    db.create_mail_stream_with(&pair("alice", "bob"), s("one"), 1);
    db.create_mail_stream_with(&pair("carol", "alice"), s("two"), 2);
    db.create_mail_stream_with(&pair("bob", "carol"), s("three"), 3);
    let streams = db.get_user_mail_streams(s("alice"), None);
    assert!(streams.success);
    assert_eq!(streams.message, "Mail streams exist");
    assert_eq!(
        streams.payload,
        Some(vec![
            MailStreamEntry { name: s("inbox-two"), other: s("carol") },
            MailStreamEntry { name: s("inbox-one"), other: s("bob") },
        ])
    );
    assert_eq!(db.get_user_mail_streams(s("alice"), Some(1)).payload.unwrap().len(), 1);
    assert_eq!(db.get_user_mail_streams(s("al"), None).payload, Some(Vec::new()));
    assert_eq!(db.get_user_mail_streams(s("carol"), None).payload.unwrap().len(), 2);
}

#[test]
fn mail_requests_need_an_account() {
    let mut db = with_users(&[]);
    let alice = db.create_user(s("alice")).message;
    let bob = db.create_user(s("bob")).message;
    let query = OffsetQueryProps { offset: None };
    assert_eq!(open_stream_request(&mut db, None, s("bob")), Handled::AccountRequired);
    assert_eq!(streams_request(&mut db, Some(s("nobody")), &query), Handled::AccountRequired);
    let made = match open_stream_request(&mut db, Some(alice), s("bob")) {
        Handled::Done(made) => made,
        other => panic!("{:?}", other),
    };
    assert!(made.success);
    let board = made.payload.unwrap();
    let again = match open_stream_request(&mut db, Some(bob.clone()), s("alice")) {
        Handled::Done(again) => again,
        other => panic!("{:?}", other),
    };
    assert_eq!(again.payload.unwrap().name, board.name);
    let listed = match streams_request(&mut db, Some(bob), &query) {
        Handled::Done(listed) => listed,
        other => panic!("{:?}", other),
    };
    assert_eq!(listed.payload, Some(vec![MailStreamEntry { name: board.name, other: s("alice") }]));
}

#[test]
fn only_a_new_stream_counts_as_created() {
    let mut db = with_users(&["alice", "bob"]);
    let first = db.create_mail_stream(&pair("alice", "bob"));
    assert!(stream_was_created(&first));
    let second = db.create_mail_stream(&pair("bob", "alice"));
    assert!(second.success);
    assert!(!stream_was_created(&second));
    let refused = db.create_mail_stream(&pair("alice", "ghost"));
    assert!(!stream_was_created(&refused));
}
