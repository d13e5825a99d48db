use guppy::api::auth::avatar_request;
use guppy::api::auth::ban_request;
use guppy::api::auth::delete_activity_request;
use guppy::api::auth::edit_about_request;
use guppy::api::auth::favorite_request;
use guppy::api::auth::follow_request;
use guppy::api::auth::level_request;
use guppy::api::auth::login;
use guppy::api::auth::login_cookie;
use guppy::api::auth::login_secondary_token;
use guppy::api::auth::logout;
use guppy::api::auth::manage;
use guppy::api::auth::post_activity_request;
use guppy::api::auth::refresh_secondary_token_request;
use guppy::api::auth::refresh_secondary_token_with;
use guppy::api::auth::register;
use guppy::api::auth::session_cookie_text;
use guppy::api::auth::update_request;
use guppy::api::auth::whoami;
use guppy::api::auth::AvatarSource;
use guppy::api::auth::Handled;
use guppy::api::auth::OffsetQueryProps;
use guppy::api::auth::SignedOut;
use guppy::db::guppydb::decode_metadata;
use guppy::db::records::PCreatePost;
use guppy::db::records::UserMetadata;
use guppy::db::Database;
use guppy::pages::auth::home_request;
use guppy::pages::auth::profile_view_request;
use guppy::pages::auth::user_settings_request;
use guppy::pages::auth::view_post_request;
use guppy::pages::auth::FollowersQueryProps;
use guppy::pages::auth::QueryProps;
use guppy::pages::auth::SettingsView;

fn s(text: &str) -> String {
    String::from(text)
}

/// A database with alice, bob and a member of staff, and their tokens.
fn world() -> (Database, String, String, String) {
    let mut db = Database::new();
    let staff = s("{\"elevation\":5,\"name\":\"banned\",\"permissions\":[\"ManageUsers\",\"ManagePosts\"]}");
    assert!(db.create_log(s("level"), staff).success);
    let alice = db.create_user(s("alice")).message;
    let bob = db.create_user(s("bob")).message;
    let admin = db.create_user(s("admin")).message;
    (db, alice, bob, admin)
}

/// A database in which every member holds the rights of staff.
fn staffed() -> (Database, String, String) {
    let mut db = Database::new();
    let staff = s("{\"elevation\":5,\"name\":\"member\",\"permissions\":[\"ManageUsers\",\"ManagePosts\"]}");
    assert!(db.create_log(s("level"), staff).success);
    let alice = db.create_user(s("alice")).message;
    let bob = db.create_user(s("bob")).message;
    (db, alice, bob)
}

fn done<T>(out: Handled<T>) -> T {
    match out {
        Handled::Done(out) => out,
        _ => panic!("the request did not run"),
    }
}

#[test]
fn managing_needs_account_profile_and_right() {
    let (mut db, alice, bob, _) = world();
    assert_eq!(manage(&mut db, None, &s("alice")), Handled::AccountRequired);
    assert_eq!(manage(&mut db, Some(s("nobody")), &s("alice")), Handled::AccountRequired);
    assert_eq!(manage(&mut db, Some(alice.clone()), &s("ghost")), Handled::ProfileMissing);
    assert_eq!(manage(&mut db, Some(bob), &s("alice")), Handled::Forbidden);
    let profile = done(manage(&mut db, Some(alice), &s("alice")));
    assert_eq!(profile.user.username, "alice");
    let (mut db, alice, _) = staffed();
    assert_eq!(done(manage(&mut db, Some(alice), &s("bob"))).user.username, "bob");
    assert_eq!(Handled::<()>::AccountRequired.status(), 406);
    assert_eq!(Handled::<()>::ProfileMissing.status(), 404);
    assert_eq!(Handled::<()>::Forbidden.status(), 404);
    assert_eq!(Handled::<()>::StaffOnly.status(), 406);
    assert_eq!(Handled::Done(1).status(), 200);
    assert_eq!(Handled::<()>::AccountRequired.words(), "An account is required to do this");
    assert_eq!(Handled::<()>::ProfileMissing.words(), "Profile does not exist!");
    assert_eq!(
        Handled::<()>::Forbidden.words(),
        "You do not have permission to manage this user's contents."
    );
    assert_eq!(Handled::<()>::StaffOnly.words(), "Only staff can do this");
    assert_eq!(Handled::Done(1).words(), "");
}

#[test]
fn about_is_edited_by_who_may() {
    let (mut db, alice, bob, _) = world();
    let out = edit_about_request(&mut db, Some(bob), s("alice"), s("hacked"));
    assert_eq!(out, Handled::Forbidden);
    let out = done(edit_about_request(&mut db, Some(alice.clone()), s("alice"), s("x")));
    assert!(!out.success);
    assert_eq!(out.message, "Content is invalid");
    let out = done(edit_about_request(&mut db, Some(alice), s("alice"), s("I am alice")));
    assert!(out.success);
    assert_eq!(out.message, "User updated!");
    let held = db.get_user_by_username(s("alice")).payload.unwrap().user.metadata;
    let metadata = decode_metadata(&held).unwrap();
    assert_eq!(metadata.about, "I am alice");
    assert_eq!(metadata.nickname, Some(s("alice")));
    assert_eq!(metadata.allow_mail, Some(s("yes")));
    let unchanged = db.get_user_by_username(s("bob")).payload.unwrap().user.metadata;
    assert_eq!(decode_metadata(&unchanged).unwrap().about, "");
}

#[test]
fn secondary_token_signs_in() {
    let (mut db, alice, bob, _) = world();
    let out = refresh_secondary_token_with(&mut db, Some(bob), s("alice"), s("token"));
    assert_eq!(out, Handled::Forbidden);
    let out = done(refresh_secondary_token_with(&mut db, Some(alice.clone()), s("alice"), s("token")));
    assert!(out.success);
    assert_eq!(out.payload, "token");
    let found = login_secondary_token(&mut db, &s("  token \n"));
    assert!(found.success);
    assert_eq!(found.payload.unwrap().user.username, "alice");
    assert_eq!(whoami(&mut db, Some(s("token"))), "alice");
    let out = done(refresh_secondary_token_request(&mut db, Some(alice), s("alice")));
    assert!(out.success);
    assert_eq!(out.payload.len(), 36);
    assert!(!login_secondary_token(&mut db, &s("token")).success);
    assert!(login_secondary_token(&mut db, &out.payload).success);
}

#[test]
fn metadata_is_updated_by_who_may() {
    let (mut db, alice, bob, _) = world();
    let metadata = UserMetadata {
        about: s("new"),
        avatar_url: Some(s("https://example.com/a.png")),
        secondary_token: None,
        allow_mail: Some(s("no")),
        nickname: Some(s("Al")),
        page_template: None,
    };
    assert_eq!(update_request(&mut db, None, s("alice"), metadata.clone()), Handled::AccountRequired);
    assert_eq!(update_request(&mut db, Some(bob), s("alice"), metadata.clone()), Handled::Forbidden);
    assert_eq!(
        update_request(&mut db, Some(alice.clone()), s("ghost"), metadata.clone()),
        Handled::ProfileMissing
    );
    assert!(done(update_request(&mut db, Some(alice), s("alice"), metadata.clone())).success);
    let held = db.get_user_by_username(s("alice")).payload.unwrap().user.metadata;
    assert_eq!(decode_metadata(&held), Some(metadata));
    assert_eq!(avatar_request(&mut db, s("alice")), AvatarSource::Fetch(s("https://example.com/a.png")));
    assert_eq!(avatar_request(&mut db, s("bob")), AvatarSource::NoAvatar);
    assert_eq!(avatar_request(&mut db, s("ghost")), AvatarSource::ProfileMissing);
}

#[test]
fn follow_is_by_the_user_of_the_token() {
    let (mut db, alice, _, _) = world();
    assert_eq!(follow_request(&mut db, None, s("bob")), Handled::AccountRequired);
    let out = done(follow_request(&mut db, Some(alice.clone()), s("bob")));
    assert!(out.success);
    assert!(db.get_follow_by_user(s("alice"), s("bob")).success);
    assert!(!db.get_follow_by_user(s("bob"), s("alice")).success);
    let out = done(follow_request(&mut db, Some(alice.clone()), s("alice")));
    assert_eq!(out.message, "Cannot follow yourself!");
    let query = OffsetQueryProps { offset: None };
    assert_eq!(guppy::api::auth::followers_request(&db, s("bob"), &query).payload.unwrap().len(), 1);
    assert_eq!(guppy::api::auth::following_request(&db, s("alice"), &query).payload.unwrap().len(), 1);
    assert_eq!(guppy::api::auth::following_request(&db, s("bob"), &query).payload.unwrap().len(), 0);
}

#[test]
fn ban_is_for_staff() {
    let (mut db, alice, _, _) = world();
    assert_eq!(ban_request(&mut db, None, s("bob")), Handled::AccountRequired);
    assert_eq!(ban_request(&mut db, Some(alice), s("bob")), Handled::StaffOnly);
    assert!(db.get_user_by_username(s("bob")).success);
    let (mut db, alice, _) = staffed();
    let out = done(ban_request(&mut db, Some(alice.clone()), s("bob")));
    assert!(out.success);
    assert_eq!(out.message, "User banned!");
    assert!(!db.get_user_by_username(s("bob")).success);
    let out = done(ban_request(&mut db, Some(alice), s("ghost")));
    assert_eq!(out.message, "User does not exist!");
}

#[test]
fn posts_are_signed_by_the_token() {
    let (mut db, alice, bob, _) = world();
    let props = PCreatePost { content: s("hello"), author: s("bob"), reply: s("") };
    assert_eq!(
        post_activity_request(&mut db, None, &props, s("<p>hello</p>")),
        Handled::AccountRequired
    );
    let made = done(post_activity_request(&mut db, Some(alice.clone()), &props, s("<p>hello</p>")));
    assert!(made.success);
    let post = made.payload.unwrap();
    assert_eq!(post.author, "alice");
    assert_eq!(favorite_request(&mut db, None, post.id.clone()), Handled::AccountRequired);
    let own = done(favorite_request(&mut db, Some(alice.clone()), post.id.clone()));
    assert_eq!(own.message, "You're the post author!");
    assert!(done(favorite_request(&mut db, Some(bob.clone()), post.id.clone())).success);
    assert_eq!(db.get_post_favorites(post.id.clone()).payload, 1);
    assert_eq!(delete_activity_request(&mut db, None, post.id.clone()), Handled::AccountRequired);
    let out = done(delete_activity_request(&mut db, Some(bob), post.id.clone()));
    assert_eq!(out.message, "You do not have permission to do this.");
    assert!(done(delete_activity_request(&mut db, Some(alice), post.id.clone())).success);
    assert!(!db.get_post_by_id(post.id).success);
}

#[test]
fn registration_and_sign_in_trim() {
    let mut db = Database::new();
    let made = register(&mut db, &s("  alice\n"));
    assert!(made.success);
    assert!(db.get_user_by_username(s("alice")).success);
    let again = register(&mut db, &s("alice "));
    assert_eq!(again.message, "User already exists!");
    let uid = format!(" {} ", made.message);
    let found = login(&mut db, &uid);
    assert!(found.success);
    assert_eq!(found.payload.clone().unwrap().user.username, "alice");
    assert_eq!(login_cookie(&found, &uid), session_cookie_text(&uid));
    let missed = login(&mut db, &s("wrong"));
    assert!(!missed.success);
    assert_eq!(login_cookie(&missed, &s("wrong")), "");
    assert!(!login(&mut db, &made.payload.unwrap()).success);
}

#[test]
fn sign_out_and_who_am_i() {
    let (mut db, alice, _, _) = world();
    assert_eq!(logout(&mut db, None), SignedOut::MissingToken);
    assert_eq!(logout(&mut db, Some(s("nobody"))), SignedOut::InvalidToken);
    assert_eq!(logout(&mut db, Some(alice.clone())), SignedOut::Done);
    assert_eq!(SignedOut::MissingToken.words(), "Missing token");
    assert_eq!(SignedOut::InvalidToken.words(), "Invalid token");
    assert_eq!(SignedOut::Done.words(), "You have been signed out. You can now close this tab.");
    assert_eq!(whoami(&mut db, None), "");
    assert_eq!(whoami(&mut db, Some(s("nobody"))), "");
    assert_eq!(whoami(&mut db, Some(alice)), "alice");
}

#[test]
fn level_of_nobody_is_anonymous() {
    let (mut db, _, _) = staffed();
    let level = level_request(&mut db, s("alice"));
    assert_eq!(level.elevation, 5);
    assert_eq!(level.permissions, vec![s("ManageUsers"), s("ManagePosts")]);
    let level = level_request(&mut db, s("ghost"));
    assert_eq!(level.elevation, -1000);
    assert_eq!(level.name, "anonymous");
}

#[test]
fn profile_page_shows_the_user() {
    let (mut db, alice, bob, _) = world();
    let props = PCreatePost { content: s("hello"), author: s(""), reply: s("") };
    let post = done(post_activity_request(&mut db, Some(alice.clone()), &props, s("<p>hello</p>")))
        .payload
        .unwrap();
    done(follow_request(&mut db, Some(bob.clone()), s("alice")));
    let query = QueryProps { edit: Some(true), offset: None };
    let view = profile_view_request(&mut db, Some(bob.clone()), s("alice"), &query).unwrap();
    assert_eq!(view.set_cookie, "");
    assert_eq!(view.user.username, "alice");
    assert_eq!(view.user_nick, "alice");
    assert!(!view.can_edit);
    assert!(view.edit_mode);
    assert!(view.is_following);
    assert_eq!(view.followers_count, 1);
    assert_eq!(view.following_count, 0);
    assert_eq!(view.activity, vec![(post.clone(), Vec::new(), 0)]);
    assert_eq!(view.offset, 0);
    assert_eq!(view.meta.allow_mail, Some(s("yes")));
    let query = QueryProps { edit: None, offset: Some(50) };
    let view = profile_view_request(&mut db, Some(alice.clone()), s("alice"), &query).unwrap();
    assert!(view.can_edit);
    assert!(!view.edit_mode);
    assert!(!view.is_following);
    assert_eq!(view.activity, Vec::new());
    assert_eq!(view.offset, 50);
    let view = profile_view_request(&mut db, Some(s("nobody")), s("alice"), &query).unwrap();
    assert_eq!(view.set_cookie, guppy::api::auth::refresh_cookie_text());
    assert!(!view.can_edit);
    let view = profile_view_request(&mut db, None, s("alice"), &query).unwrap();
    assert_eq!(view.set_cookie, "");
    assert_eq!(profile_view_request(&mut db, Some(alice), s("ghost"), &query), None);
}

#[test]
fn post_page_shows_replies_and_favorites() {
    let (mut db, alice, bob, _) = world();
    let props = PCreatePost { content: s("hello"), author: s(""), reply: s("") };
    let post = done(post_activity_request(&mut db, Some(alice.clone()), &props, s("<p>hello</p>")))
        .payload
        .unwrap();
    let props = PCreatePost { content: s("hi"), author: s(""), reply: post.id.clone() };
    let reply = done(post_activity_request(&mut db, Some(bob.clone()), &props, s("<p>hi</p>")))
        .payload
        .unwrap();
    done(favorite_request(&mut db, Some(bob.clone()), post.id.clone()));
    let view = view_post_request(&mut db, Some(alice), s("alice"), post.id.clone()).unwrap();
    assert!(view.can_edit);
    assert_eq!(view.user.username, "alice");
    assert_eq!(view.post, post);
    assert_eq!(view.replies, vec![(reply, Vec::new(), 0)]);
    assert_eq!(view.favorites_count, 1);
    let view = view_post_request(&mut db, Some(bob.clone()), s("alice"), post.id.clone()).unwrap();
    assert!(!view.can_edit);
    assert_eq!(view_post_request(&mut db, Some(bob.clone()), s("ghost"), post.id), None);
    assert_eq!(view_post_request(&mut db, Some(bob), s("alice"), s("none")), None);
}

#[test]
fn follows_pages_list_logs() {
    let (mut db, alice, bob, _) = world();
    done(follow_request(&mut db, Some(alice.clone()), s("bob")));
    let query = FollowersQueryProps { offset: None };
    let view = guppy::pages::auth::followers_request(&mut db, Some(bob), s("bob"), &query).unwrap();
    assert_eq!(view.user.username, "bob");
    assert_eq!(view.logs.len(), 1);
    assert_eq!(view.logs[0].content, "{\"user\":\"alice\",\"is_following\":\"bob\"}");
    assert_eq!(view.offset, 0);
    let query = FollowersQueryProps { offset: Some(7) };
    let view = guppy::pages::auth::following_request(&mut db, None, s("alice"), &query).unwrap();
    assert_eq!(view.logs.len(), 0);
    assert_eq!(view.offset, 7);
    let query = FollowersQueryProps { offset: Some(0) };
    let view = guppy::pages::auth::following_request(&mut db, None, s("alice"), &query).unwrap();
    assert_eq!(view.logs.len(), 1);
    assert_eq!(guppy::pages::auth::followers_request(&mut db, Some(alice), s("ghost"), &query), None);
}

#[test]
fn settings_page_is_for_who_may_manage() {
    let (mut db, alice, bob, _) = world();
    let out = user_settings_request(&mut db, Some(alice.clone()), s("ghost"));
    assert_eq!(out, SettingsView::NotFound(s("User does not exist")));
    assert_eq!(user_settings_request(&mut db, None, s("alice")), SettingsView::AccountRequired);
    assert_eq!(user_settings_request(&mut db, Some(bob), s("alice")), SettingsView::Forbidden);
    let metadata = UserMetadata {
        about: s("a/b"),
        avatar_url: None,
        secondary_token: None,
        allow_mail: None,
        nickname: None,
        page_template: None,
    };
    done(update_request(&mut db, Some(alice.clone()), s("alice"), metadata));
    match user_settings_request(&mut db, Some(alice), s("alice")) {
        SettingsView::Page(cookie, profile, metadata) => {
            assert_eq!(cookie, "");
            assert_eq!(profile.username, "alice");
            assert_eq!(
                metadata,
                "{\"about\":\"a\\/b\",\"avatar_url\":null,\"secondary_token\":null,\"allow_mail\":null,\"nickname\":null,\"page_template\":null}"
            );
        }
        other => panic!("{:?}", other),
    }
}

#[test]
fn home_page_knows_who_is_signed_in() {
    let (mut db, alice, _, _) = world();
    assert_eq!(home_request(&mut db, None), (s(""), false));
    assert_eq!(home_request(&mut db, Some(alice)), (s(""), true));
    assert_eq!(
        home_request(&mut db, Some(s("nobody"))),
        (guppy::api::auth::refresh_cookie_text(), false)
    );
}
