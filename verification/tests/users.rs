use guppy::db::guppydb::decode_level;
use guppy::db::guppydb::is_valid_username;
use guppy::db::guppydb::GuppyDB;
use guppy::db::records::RoleLevel;
use guppy::db::records::UserMetadata;

fn s(text: &str) -> String {
    String::from(text)
}

fn staff_level() -> String {
    s("{\"elevation\":1,\"name\":\"member\",\"permissions\":[\"ManageUsers\"]}")
}

fn plain_metadata(about: &str) -> UserMetadata {
    UserMetadata {
        about: s(about),
        avatar_url: None,
        secondary_token: None,
        allow_mail: Some(s("yes")),
        nickname: Some(s("Alice")),
        page_template: None,
    }
}

#[test]
fn create_user_then_again() {
    let mut db = GuppyDB::new();
    let first = db.create_user(s("alice"));
    assert!(first.success);
    let hashed = first.payload.clone().unwrap();
    assert_ne!(hashed, first.message);
    assert_eq!(first.message.len(), 36);
    assert_eq!(hashed.len(), 64);
    let second = db.create_user(s("alice"));
    assert!(!second.success);
    assert_eq!(second.message, "User already exists!");
    assert_eq!(second.payload, None);
}

#[test]
fn hashed_id_is_the_digest_of_the_unhashed_id() {
    let mut db = GuppyDB::new();
    let made = db.create_user_with(s("alice"), s("abc"), 7);
    assert!(made.success);
    assert_eq!(made.message, "abc");
    assert_eq!(
        made.payload,
        Some(s("ba7816bf8f01cfea414140de5dae2223b00361a396177a9cb410ff61f20015ad"))
    );
}

#[test]
fn new_user_is_a_member_with_first_metadata() {
    let mut db = GuppyDB::new();
    db.create_user_with(s("alice"), s("abc"), 7);
    let found = db.get_user_by_username(s("alice"));
    assert!(found.success);
    assert_eq!(found.message, "User exists (new)");
    let user = found.payload.unwrap();
    assert_eq!(user.user.username, "alice");
    assert_eq!(user.user.role, "member");
    assert_eq!(user.user.timestamp, 7);
    assert_eq!(
        user.user.id_hashed,
        "ba7816bf8f01cfea414140de5dae2223b00361a396177a9cb410ff61f20015ad"
    );
    assert_eq!(
        user.user.metadata,
        "{\"about\":\"\",\"avatar_url\":null,\"secondary_token\":null,\"allow_mail\":\"yes\",\"nickname\":\"alice\",\"page_template\":null}"
    );
    assert_eq!(
        user.level,
        RoleLevel { elevation: 0, name: s("member"), permissions: Vec::new() }
    );
}

#[test]
fn second_lookup_comes_from_the_cache() {
    let mut db = GuppyDB::new();
    db.create_user_with(s("alice"), s("abc"), 7);
    let first = db.get_user_by_username(s("alice"));
    let second = db.get_user_by_username(s("alice"));
    assert_eq!(first.message, "User exists (new)");
    assert_eq!(second.message, "User exists (cache)");
    assert_eq!(first.payload, second.payload);
}

#[test]
fn missing_user_is_not_found() {
    let mut db = GuppyDB::new();
    let found = db.get_user_by_username(s("nobody"));
    assert!(!found.success);
    assert_eq!(found.message, "User does not exist");
    assert_eq!(found.payload, None);
    let found = db.get_user_by_hashed(s("00"));
    assert!(!found.success);
    assert_eq!(found.message, "User does not exist");
    let found = db.get_user_by_unhashed(s("00"));
    assert!(!found.success);
    assert_eq!(found.message, "User does not exist");
}

#[test]
fn usernames_are_checked() {
    assert!(is_valid_username(&s("alice")));
    assert!(is_valid_username(&s("a.b_c-d!")));
    assert!(is_valid_username(&s("ab")));
    assert!(!is_valid_username(&s("a")));
    assert!(!is_valid_username(&s("")));
    assert!(!is_valid_username(&s("al ice")));
    assert!(!is_valid_username(&s("al/ice")));
    assert!(!is_valid_username(&s("al:ice")));
    assert!(is_valid_username(&"a".repeat(500)));
    assert!(!is_valid_username(&"a".repeat(501)));
    assert!(is_valid_username(&s("é")));
    assert!(is_valid_username(&"é".repeat(250)));
    assert!(!is_valid_username(&"é".repeat(251)));
    assert!(!is_valid_username(&s("alice\nnot a name")));
    assert!(!is_valid_username(&s("not a name\nalice")));
    assert!(!is_valid_username(&s("alice\n")));
    assert!(!is_valid_username(&s("alice\nbob")));
}

#[test]
fn invalid_username_is_refused() {
    let mut db = GuppyDB::new();
    let made = db.create_user(s("a"));
    assert!(!made.success);
    assert_eq!(made.message, "Username is invalid");
    assert_eq!(made.payload, None);
    let made = db.create_user(s("not a name"));
    assert!(!made.success);
    assert_eq!(made.message, "Username is invalid");
    assert!(!db.get_user_by_username(s("a")).success);
}

#[test]
fn lookup_by_hashed_and_unhashed_id() {
    let mut db = GuppyDB::new();
    let made = db.create_user(s("alice"));
    let unhashed = made.message.clone();
    let hashed = made.payload.clone().unwrap();
    let by_hashed = db.get_user_by_hashed(hashed.clone());
    assert!(by_hashed.success);
    assert_eq!(by_hashed.message, "User exists");
    assert_eq!(by_hashed.payload.unwrap().user.username, "alice");
    let by_unhashed = db.get_user_by_unhashed(unhashed.clone());
    assert!(by_unhashed.success);
    assert_eq!(by_unhashed.payload.unwrap().user.username, "alice");
    assert!(!db.get_user_by_hashed(unhashed).success);
    assert!(!db.get_user_by_unhashed(hashed).success);
}

#[test]
fn lookup_by_secondary_token() {
    let mut db = GuppyDB::new();
    db.create_user(s("alice"));
    db.create_user(s("bob"));
    let mut metadata = plain_metadata("hi");
    metadata.secondary_token = Some(dorsal::utility::hash(s("my token")));
    assert!(db.edit_user_metadata_by_name(s("bob"), metadata).success);
    let found = db.get_user_by_unhashed_st(s("my token"));
    assert!(found.success);
    assert_eq!(found.payload.unwrap().user.username, "bob");
    let found = db.get_user_by_unhashed(s("my token"));
    assert!(found.success);
    assert_eq!(found.payload.unwrap().user.username, "bob");
    assert!(!db.get_user_by_unhashed_st(s("another token")).success);
}

#[test]
fn edit_metadata_reaches_table_and_cache() {
    let mut db = GuppyDB::new();
    db.create_user(s("alice"));
    assert!(db.get_user_by_username(s("alice")).success);
    let edited = db.edit_user_metadata_by_name(s("alice"), plain_metadata("say \"hi\"\n"));
    assert!(edited.success);
    assert_eq!(edited.message, "User updated!");
    assert_eq!(edited.payload, Some(s("alice")));
    let expected = "{\"about\":\"say \\\"hi\\\"\\n\",\"avatar_url\":null,\"secondary_token\":null,\"allow_mail\":\"yes\",\"nickname\":\"Alice\",\"page_template\":null}";
    let cached = db.get_user_by_username(s("alice"));
    assert_eq!(cached.message, "User exists (cache)");
    assert_eq!(cached.payload.unwrap().user.metadata, expected);
    let hashed = db.get_user_by_username(s("alice")).payload.unwrap().user.id_hashed;
    assert_eq!(db.get_user_by_hashed(hashed).payload.unwrap().user.metadata, expected);
}

#[test]
fn edit_metadata_of_missing_user_fails() {
    let mut db = GuppyDB::new();
    let edited = db.edit_user_metadata_by_name(s("alice"), plain_metadata("x"));
    assert!(!edited.success);
    assert_eq!(edited.message, "User does not exist!");
    assert_eq!(edited.payload, None);
}

#[test]
fn member_of_elevation_zero_is_not_banned() {
    let mut db = GuppyDB::new();
    db.create_user(s("alice"));
    let banned = db.ban_user_by_name(s("alice"));
    assert!(!banned.success);
    assert_eq!(banned.message, "User must be of level elevation 0");
    assert!(db.get_user_by_username(s("alice")).success);
    let banned = db.ban_user_by_name(s("nobody"));
    assert!(!banned.success);
    assert_eq!(banned.message, "User does not exist!");
}

#[test]
fn banned_user_is_invisible() {
    let mut db = GuppyDB::new();
    assert!(db.create_log(s("level"), staff_level()).success);
    let made = db.create_user(s("alice"));
    let unhashed = made.message.clone();
    let hashed = made.payload.clone().unwrap();
    assert!(db.get_user_by_username(s("alice")).success);
    let banned = db.ban_user_by_name(s("alice"));
    assert!(banned.success);
    assert_eq!(banned.message, "User banned!");
    assert_eq!(banned.payload, Some(s("alice")));
    let found = db.get_user_by_username(s("alice"));
    assert!(!found.success);
    assert_eq!(found.message, "User is banned");
    assert_eq!(found.payload, None);
    let found = db.get_user_by_hashed(hashed);
    assert!(!found.success);
    assert_eq!(found.message, "User is banned");
    let found = db.get_user_by_unhashed(unhashed);
    assert!(!found.success);
    assert_eq!(found.payload, None);
    assert!(!db.ban_user_by_name(s("alice")).success);
    assert!(!db.edit_user_metadata_by_name(s("alice"), plain_metadata("x")).success);
}

#[test]
fn name_of_a_banned_user_stays_taken() {
    let mut db = GuppyDB::new();
    db.create_log(s("level"), staff_level());
    db.create_user(s("alice"));
    assert!(db.ban_user_by_name(s("alice")).success);
    let again = db.create_user(s("alice"));
    assert!(!again.success);
    assert_eq!(again.message, "User already exists!");
    assert_eq!(again.payload, None);
}

#[test]
fn level_of_a_role() {
    let mut db = GuppyDB::new();
    let level = db.get_level_by_role(s("member"));
    assert!(level.success);
    assert_eq!(level.message, "Level does not exist, using default");
    assert_eq!(level.payload.id, "");
    assert_eq!(
        level.payload.level,
        RoleLevel { elevation: 0, name: s("member"), permissions: Vec::new() }
    );
    let log = db.create_log_with(s("level"), staff_level(), s("log1"), 5);
    assert!(log.success);
    let level = db.get_level_by_role(s("member"));
    assert_eq!(level.message, "Level exists (new)");
    assert_eq!(level.payload.id, "log1");
    assert_eq!(
        level.payload.level,
        RoleLevel { elevation: 1, name: s("member"), permissions: vec![s("ManageUsers")] }
    );
    let level = db.get_level_by_role(s("member"));
    assert_eq!(level.message, "Level exists (cache)");
    assert_eq!(level.payload.level.elevation, 1);
    let level = db.get_level_by_role(s("staff"));
    assert_eq!(level.message, "Level does not exist, using default");
}

#[test]
fn malformed_level_is_a_failure() {
    let mut db = GuppyDB::new();
    db.create_log(s("level"), s("{\"name\":\"odd\",\"elevation\":\"high\"}"));
    let level = db.get_level_by_role(s("odd"));
    assert!(!level.success);
    assert_eq!(level.message, "Level is malformed");
    assert_eq!(level.payload.level.elevation, 0);
    assert_eq!(level.payload.level.name, "member");
}

#[test]
fn levels_are_decoded() {
    assert_eq!(
        decode_level(&s("{\"elevation\":-3,\"name\":\"low\",\"permissions\":[\"A\",\"B\"]}")),
        Some(RoleLevel { elevation: -3, name: s("low"), permissions: vec![s("A"), s("B")] })
    );
    assert_eq!(decode_level(&s("{\"elevation\":1,\"name\":\"x\"}")), None);
    assert_eq!(
        decode_level(&s("{\"elevation\":4294967296,\"name\":\"x\",\"permissions\":[]}")),
        None
    );
    assert_eq!(decode_level(&s("{\"elevation\":1,\"name\":\"x\",\"permissions\":[1]}")), None);
    assert_eq!(decode_level(&s("not json")), None);
}

#[test]
fn taken_name_is_refused_before_its_form_is_checked() {
    let mut db = GuppyDB::new();
    assert!(db.create_user(s("alice")).success);
    let cached = db.get_user_by_username(s("alice"));
    assert_eq!(cached.message, "User exists (new)");
    let again = db.create_user(s("alice"));
    assert_eq!(again.message, "User already exists!");
    assert_eq!(db.get_user_by_username(s("alice")).message, "User exists (cache)");
    let odd = db.create_user(s("not a name"));
    assert_eq!(odd.message, "Username is invalid");
}
