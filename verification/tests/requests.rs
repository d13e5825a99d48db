use guppy::api::auth::anonymous_level;
use guppy::api::auth::can_manage_user;
use guppy::api::auth::is_listed;
use guppy::api::auth::is_valid_about;
use guppy::api::auth::refresh_cookie_text;
use guppy::api::auth::registration_cookie;
use guppy::api::auth::registration_gate;
use guppy::api::auth::session_cookie_text;
use guppy::api::auth::OffsetQueryProps;
use guppy::api::auth::RegistrationGate;
use guppy::db::records::DefaultReturn;
use guppy::db::records::FullUser;
use guppy::db::records::RoleLevel;
use guppy::db::records::UserState;
use guppy::db::Database;
use guppy::pages::auth::can_edit;
use guppy::pages::auth::escape_slashes;
use guppy::pages::auth::user_nick;
use guppy::pages::auth::CallbackQueryProps;
use guppy::pages::auth::FollowersQueryProps;
use guppy::pages::auth::QueryProps;
use guppy::pages::base::check_auth_status;
use guppy::pages::base::escape_html;
use guppy::pages::base::get_base_values;

fn s(text: &str) -> String {
    String::from(text)
}

fn user(name: &str, permissions: &[&str]) -> FullUser<String> {
    FullUser {
        user: UserState {
            username: s(name),
            id_hashed: s("h"),
            role: s("member"),
            timestamp: 1,
            metadata: s("{}"),
        },
        level: RoleLevel {
            elevation: 0,
            name: s("member"),
            permissions: permissions.iter().map(|p| s(p)).collect(),
        },
    }
}

#[test]
fn cookies_have_their_form() {
    assert_eq!(
        session_cookie_text("abc"),
        "__Secure-Token=abc; SameSite=Lax; Secure; Path=/; HostOnly=true; HttpOnly=true; Max-Age=31536000"
    );
    assert_eq!(60 * 60 * 24 * 365, 31536000);
    assert_eq!(
        refresh_cookie_text(),
        "__Secure-Token=refresh; SameSite=Strict; Secure; Path=/; HostOnly=true; HttpOnly=true; Max-Age=0"
    );
    let made = DefaultReturn { success: true, message: s("secret"), payload: Some(s("hashed")) };
    assert_eq!(registration_cookie(&made), session_cookie_text("secret"));
    let failed = DefaultReturn { success: false, message: s("User already exists!"), payload: None };
    assert_eq!(registration_cookie(&failed), "");
}

#[test]
fn invite_codes_are_listed_between_commas() {
    assert!(is_listed("one,two,three", "one"));
    assert!(is_listed("one,two,three", "two"));
    assert!(is_listed("one,two,three", "three"));
    assert!(!is_listed("one,two,three", "tw"));
    assert!(!is_listed("one,two,three", "one,two"));
    assert!(!is_listed("one,two,three", ""));
    assert!(is_listed("one,,three", ""));
    assert!(is_listed("one,", ""));
    assert!(is_listed("", ""));
    assert!(!is_listed("", "one"));
    assert!(is_listed("one", "one"));
    for (codes, code) in [("a,b", "a"), ("a,b", "c"), ("", ""), ("a,", ""), (",a", "a"), ("ab", "a")] {
        assert_eq!(is_listed(codes, code), codes.split(",").any(|part| part == code));
    }
}

#[test]
fn registration_passes_the_gate() {
    assert_eq!(registration_gate(true, &None, &None), RegistrationGate::Disabled);
    assert_eq!(registration_gate(true, &Some(s("a")), &Some(s("a"))), RegistrationGate::Disabled);
    assert_eq!(registration_gate(false, &None, &None), RegistrationGate::Open);
    assert_eq!(registration_gate(false, &None, &Some(s("x"))), RegistrationGate::Open);
    assert_eq!(registration_gate(false, &Some(s("a,b")), &None), RegistrationGate::CodeMissing);
    assert_eq!(registration_gate(false, &Some(s("a,b")), &Some(s("c"))), RegistrationGate::CodeInvalid);
    assert_eq!(registration_gate(false, &Some(s("a,b")), &Some(s("b"))), RegistrationGate::Open);
    assert_eq!(RegistrationGate::Disabled.message(), "This server requires has registration disabled.");
    assert_eq!(RegistrationGate::CodeMissing.message(), "This server requires an invite code to register.");
    assert_eq!(RegistrationGate::CodeInvalid.message(), "Invalid invite code.");
    assert_eq!(RegistrationGate::Open.message(), "");
}

#[test]
fn own_profile_or_manage_users() {
    assert!(can_manage_user(&user("alice", &[]), &s("alice")));
    assert!(!can_manage_user(&user("alice", &[]), &s("bob")));
    assert!(!can_manage_user(&user("alice", &["ManagePosts"]), &s("bob")));
    assert!(can_manage_user(&user("alice", &["ManagePosts", "ManageUsers"]), &s("bob")));
    assert!(!can_manage_user(&user("alice", &["ManageUsersX"]), &s("bob")));
    assert!(!can_manage_user(&user("alice", &["ManageUser"]), &s("bob")));
}

#[test]
fn about_has_a_length() {
    assert!(!is_valid_about(&s("")));
    assert!(!is_valid_about(&s("a")));
    assert!(is_valid_about(&s("ab")));
    assert!(is_valid_about(&"a".repeat(200_000)));
    assert!(!is_valid_about(&"a".repeat(200_001)));
}

#[test]
fn anonymous_has_no_rights() {
    let level = anonymous_level();
    assert_eq!(level.elevation, -1000);
    assert_eq!(level.name, "anonymous");
    assert!(level.permissions.is_empty());
}

#[test]
fn queries_have_defaults() {
    assert_eq!(OffsetQueryProps { offset: None }.offset_or_zero(), 0);
    assert_eq!(OffsetQueryProps { offset: Some(50) }.offset_or_zero(), 50);
    assert_eq!(FollowersQueryProps { offset: None }.offset_or_zero(), 0);
    assert_eq!(FollowersQueryProps { offset: Some(-2) }.offset_or_zero(), -2);
    let query = QueryProps { edit: None, offset: None };
    assert!(!query.edit_mode());
    assert_eq!(query.offset_or_zero(), 0);
    let query = QueryProps { edit: Some(true), offset: Some(100) };
    assert!(query.edit_mode());
    assert_eq!(query.offset_or_zero(), 100);
    assert!(!QueryProps { edit: Some(false), offset: None }.edit_mode());
    assert_eq!(CallbackQueryProps { callback: s("/") }.callback, "/");
}

#[test]
fn profile_shows_nickname_and_edit_rights() {
    assert_eq!(user_nick(&Some(s("Al")), &s("alice")), "Al");
    assert_eq!(user_nick(&None, &s("alice")), "alice");
    assert!(can_edit(&Some(s("alice")), &s("alice")));
    assert!(!can_edit(&Some(s("bob")), &s("alice")));
    assert!(!can_edit(&None, &s("alice")));
    assert_eq!(escape_slashes("{\"avatar_url\":\"https://a.b/c\"}"), "{\"avatar_url\":\"https:\\/\\/a.b\\/c\"}");
    assert_eq!(escape_slashes("no slash é"), "no slash é");
    assert_eq!(escape_slashes(""), "");
    assert_eq!(escape_slashes("/"), "\\/");
}

#[test]
fn base_values_have_defaults() {
    let base = get_base_values(true, None, None, None, None, None);
    assert!(base.auth_state);
    assert_eq!(base.info, "/pub/info");
    assert_eq!(base.body_embed, "");
    assert_eq!(base.bundlrs, "");
    assert_eq!(base.deducktive, "");
    assert_eq!(base.site_name, "Guppy");
    let base = get_base_values(
        false,
        Some(s("/about")),
        Some(s("<b>")),
        Some(s("https://b")),
        Some(s("https://d")),
        Some(s("Pond")),
    );
    assert!(!base.auth_state);
    assert_eq!(base.info, "/about");
    assert_eq!(base.body_embed, "<b>");
    assert_eq!(base.bundlrs, "https://b");
    assert_eq!(base.deducktive, "https://d");
    assert_eq!(base.site_name, "Pond");
}

#[test]
fn token_tells_the_user() {
    let mut db = Database::new();
    let made = db.create_user(s("alice"));
    let (cookie, found) = check_auth_status(&mut db, None);
    assert_eq!(cookie, "");
    assert_eq!(found, None);
    let (cookie, found) = check_auth_status(&mut db, Some(made.message.clone()));
    assert_eq!(cookie, "");
    assert_eq!(found.unwrap().user.username, "alice");
    let (cookie, found) = check_auth_status(&mut db, Some(s("not a token")));
    assert_eq!(cookie, refresh_cookie_text());
    assert_eq!(found, None);
}

#[test]
fn rows_are_taken_in() {
    let mut db = Database::new();
    let alice = user("alice", &[]).user;
    assert!(db.load_user(alice.clone()).is_ok());
    assert!(db.load_user(alice).is_err());
    assert_eq!(db.get_user_by_username(s("alice")).payload.unwrap().user.id_hashed, "h");
    let log = guppy::db::records::Log { id: s("l"), logtype: s("note"), timestamp: 2, content: s("c") };
    assert!(db.load_log(log.clone()).is_ok());
    assert!(db.load_log(log.clone()).is_err());
    assert_eq!(db.get_log_by_id(s("l")).payload, Some(log));
    let post = guppy::db::records::ActivityPost {
        id: s("p"),
        content: s("hi there"),
        content_html: s("<p>hi there</p>"),
        author: s("alice"),
        reply: s(""),
        timestamp: 3,
    };
    assert_eq!(db.get_user_activity(s("alice"), None).payload, Some(Vec::new()));
    assert!(db.load_post(post.clone()).is_ok());
    assert!(db.load_post(post.clone()).is_err());
    db.load_favorites(s("p"), 4);
    assert_eq!(db.get_user_activity(s("alice"), None).payload, Some(vec![(post, Vec::new(), 4)]));
    let board = guppy::db::records::Board {
        name: s("inbox-1"),
        timestamp: 5,
        metadata: guppy::db::content::stream_metadata_text("alice", "bob"),
    };
    assert!(db.load_board(board.clone()).is_ok());
    assert!(db.load_board(board.clone()).is_err());
    assert_eq!(db.get_mail_stream_by_users(s("alice"), s("bob")).payload, Some(board));
}

#[test]
fn page_text_is_escaped() {
    assert_eq!(escape_html("<b>\"Tom\" & 'Jerry'</b>"), "&lt;b&gt;&quot;Tom&quot; &amp; &#x27;Jerry&#x27;&lt;/b&gt;");
    assert_eq!(escape_html("plain é/"), "plain é/");
    assert_eq!(escape_html(""), "");
}
