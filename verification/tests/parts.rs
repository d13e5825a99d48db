use guppy::db::cachedb::CacheDB;
use guppy::db::content::escaped_text;
use guppy::db::content::first_user_needle_text;
use guppy::db::content::json_option_text;
use guppy::db::content::level_needle_text;
use guppy::db::content::metadata_json_text;
use guppy::db::content::second_user_needle_text;
use guppy::db::content::stream_mark_text;
use guppy::db::content::stream_name_text;
use guppy::db::content::stream_needle_text;
use guppy::db::content::token_needle_text;
use guppy::db::content::followers_needle_text;
use guppy::db::content::following_needle_text;
use guppy::db::guppydb::decode_metadata;
use guppy::db::guppydb::LogLike;
use guppy::db::keys::favorites_key_text;
use guppy::db::keys::feed_key_text;
use guppy::db::keys::feed_prefix_text;
use guppy::db::keys::level_key_text;
use guppy::db::keys::log_key_text;
use guppy::db::keys::post_key_text;
use guppy::db::keys::replies_key_text;
use guppy::db::keys::user_key_text;
use guppy::db::records::Log;
use guppy::db::records::RoleLevelLog;
use guppy::db::records::UserMetadata;
use guppy::db::rows::board_from_row;
use guppy::db::rows::log_from_row;
use guppy::db::rows::parse_u128;
use guppy::db::rows::post_from_row;
use guppy::db::rows::user_from_row;
use guppy::db::rows::DatabaseReturn;
use guppy::db::sql::StoreError;
use guppy::db::sql::Table;
use guppy::db::statement::delete_statement_text;
use guppy::db::statement::dialect_of;
use guppy::db::statement::insert_statement_text;
use guppy::db::statement::like_pattern_text;
use guppy::db::statement::placeholders_text;
use guppy::db::statement::select_all_statement_text;
use guppy::db::statement::update_statement_text;
use guppy::db::statement::Dialect;
use guppy::text::chars_of;
use guppy::text::decimal_text;
use guppy::text::digits_text;
use guppy::text::join;
use guppy::text::text_contains;
use guppy::text::text_is;
use guppy::text::text_len;
use guppy::text::text_starts_with;

fn s(text: &str) -> String {
    String::from(text)
}

fn log(id: &str, logtype: &str, timestamp: u128, content: &str) -> Log {
    Log { id: s(id), logtype: s(logtype), timestamp, content: s(content) }
}

fn row(columns: &[(&str, &str)]) -> DatabaseReturn {
    DatabaseReturn { data: columns.iter().map(|(name, value)| (s(name), s(value))).collect() }
}

#[test]
fn texts_are_searched() {
    assert!(text_contains("hello world", "o w"));
    assert!(text_contains("hello world", "hello world"));
    assert!(text_contains("hello world", ""));
    assert!(text_contains("", ""));
    assert!(text_contains("hello", "lo"));
    assert!(!text_contains("hello", "low"));
    assert!(!text_contains("hello", "hello!"));
    assert!(!text_contains("", "a"));
    assert!(text_contains("naïve café", "ve ca"));
    assert!(text_contains("aab", "ab"));
    assert!(text_starts_with("user-posts:alice:offset0", "user-posts:alice:offset"));
    assert!(!text_starts_with("user-posts:alice:offset0", "user-posts:al:offset"));
    assert!(text_starts_with("abc", ""));
    assert!(!text_starts_with("ab", "abc"));
    assert!(text_is("abc", "abc"));
    assert!(!text_is("abc", "abd"));
    assert!(!text_is("abc", "ab"));
    assert_eq!(chars_of("héllo"), vec!['h', 'é', 'l', 'l', 'o']);
    assert_eq!(text_len("héllo"), 6);
    assert_eq!(join("ab", "cd"), "abcd");
}

#[test]
fn numbers_are_written() {
    assert_eq!(decimal_text(0), "0");
    assert_eq!(decimal_text(7), "7");
    assert_eq!(decimal_text(50), "50");
    assert_eq!(decimal_text(-1), "-1");
    assert_eq!(decimal_text(i32::MAX), "2147483647");
    assert_eq!(decimal_text(i32::MIN), "-2147483648");
    assert_eq!(digits_text(1713370000000), "1713370000000");
    assert_eq!(digits_text(u128::MAX), "340282366920938463463374607431768211455");
}

#[test]
fn numbers_are_read() {
    assert_eq!(parse_u128("0"), Some(0));
    assert_eq!(parse_u128("007"), Some(7));
    assert_eq!(parse_u128("+15"), Some(15));
    assert_eq!(parse_u128("1713370000000"), Some(1713370000000));
    assert_eq!(parse_u128("340282366920938463463374607431768211455"), Some(u128::MAX));
    assert_eq!(parse_u128("340282366920938463463374607431768211456"), None);
    assert_eq!(parse_u128("9999999999999999999999999999999999999999"), None);
    assert_eq!(parse_u128(""), None);
    assert_eq!(parse_u128("+"), None);
    assert_eq!(parse_u128("-1"), None);
    assert_eq!(parse_u128("12a"), None);
    assert_eq!(parse_u128(" 12"), None);
    assert_eq!(parse_u128("++1"), None);
    for text in ["0", "+15", "12a", "", "340282366920938463463374607431768211456"] {
        assert_eq!(parse_u128(text), text.parse::<u128>().ok());
    }
}

#[test]
fn cache_identifiers_keep_their_form() {
    assert_eq!(user_key_text("alice"), "user:alice");
    assert_eq!(level_key_text("member"), "level:member");
    assert_eq!(log_key_text("abc"), "log:abc");
    assert_eq!(post_key_text("abc"), "post:abc");
    assert_eq!(replies_key_text("abc"), "post-replies:abc");
    assert_eq!(favorites_key_text("abc"), "social:post-favorites:abc");
    assert_eq!(feed_prefix_text("alice"), "user-posts:alice:offset");
    assert_eq!(feed_key_text("alice", 0), "user-posts:alice:offset0");
    assert_eq!(feed_key_text("alice", 50), "user-posts:alice:offset50");
    assert_eq!(feed_key_text("alice", -3), "user-posts:alice:offset-3");
}

#[test]
fn contents_are_json() {
    assert_eq!(followers_needle_text("bob"), "\"is_following\":\"bob\"");
    assert_eq!(following_needle_text("alice"), "\"user\":\"alice\"");
    assert_eq!(token_needle_text("abc"), "\"secondary_token\":\"abc\"");
    assert_eq!(level_needle_text("staff"), "\"name\":\"staff\"");
    assert_eq!(json_option_text(&None), "null");
    assert_eq!(json_option_text(&Some(s("a/b"))), "\"a/b\"");
    assert_eq!(escaped_text("a\"b"), "a\\\"b");
    assert_eq!(escaped_text("\u{8}\u{c}\n\r\t\u{1f}\u{7f}é"), "\\b\\f\\n\\r\\t\\u001f\u{7f}é");
    assert_eq!(
        stream_mark_text("alice", "bob"),
        "{\"_is_user_mail_stream\":true,\"user1\":\"alice\",\"user2\":\"bob\"}"
    );
    assert_eq!(
        stream_needle_text("alice", "bob"),
        "\"about\":\"{\\\"_is_user_mail_stream\\\":true,\\\"user1\\\":\\\"alice\\\",\\\"user2\\\":\\\"bob\\\"}\""
    );
    assert_eq!(first_user_needle_text("alice"), "\\\"user1\\\":\\\"alice\\\"");
    assert_eq!(second_user_needle_text("bob"), "\\\"user2\\\":\\\"bob\\\"");
    assert_eq!(stream_name_text("abc"), "inbox-abc");
}

#[test]
fn metadata_goes_to_json_and_back() {
    let metadata = UserMetadata {
        about: s("I said \"hi\""),
        avatar_url: Some(s("https://example.com/a.png")),
        secondary_token: None,
        allow_mail: Some(s("no")),
        nickname: Some(s("Al")),
        page_template: None,
    };
    let text = metadata_json_text(&metadata);
    assert_eq!(
        text,
        "{\"about\":\"I said \\\"hi\\\"\",\"avatar_url\":\"https://example.com/a.png\",\"secondary_token\":null,\"allow_mail\":\"no\",\"nickname\":\"Al\",\"page_template\":null}"
    );
    assert_eq!(decode_metadata(&text), Some(metadata));
    assert_eq!(decode_metadata(&s("{\"nickname\":\"x\"}")), None);
    assert_eq!(decode_metadata(&s("")), None);
    let old = decode_metadata(&s("{\"about\":\"\"}")).unwrap();
    assert_eq!(old.about, "");
    assert_eq!(old.allow_mail, None);
}

#[test]
fn default_level_is_member() {
    let level = RoleLevelLog::default();
    assert_eq!(level.id, "");
    assert_eq!(level.level.name, "member");
    assert_eq!(level.level.elevation, 0);
    assert!(level.level.permissions.is_empty());
}

#[test]
fn statements_follow_the_dialect() {
    assert_eq!(dialect_of(&s("sqlite")), Dialect::Positional);
    assert_eq!(dialect_of(&s("mysql")), Dialect::Positional);
    assert_eq!(dialect_of(&s("postgres")), Dialect::Numbered);
    assert_eq!(dialect_of(&s("")), Dialect::Numbered);
    assert_eq!(placeholders_text(Dialect::Positional, 0), "");
    assert_eq!(placeholders_text(Dialect::Numbered, 1), "$1");
    assert_eq!(
        insert_statement_text("Users", 5, Dialect::Positional),
        "INSERT INTO \"Users\" VALUES (?, ?, ?, ?, ?)"
    );
    assert_eq!(
        insert_statement_text("Users", 5, Dialect::Numbered),
        "INSERT INTO \"Users\" VALUES ($1, $2, $3, $4, $5)"
    );
    assert_eq!(
        insert_statement_text("gup_posts", 6, Dialect::Numbered),
        "INSERT INTO \"gup_posts\" VALUES ($1, $2, $3, $4, $5, $6)"
    );
    assert_eq!(
        insert_statement_text("Logs", 12, Dialect::Numbered),
        "INSERT INTO \"Logs\" VALUES ($1, $2, $3, $4, $5, $6, $7, $8, $9, $10, $11, $12)"
    );
    assert_eq!(
        update_statement_text("Users", "metadata", "username", Dialect::Positional),
        "UPDATE \"Users\" SET \"metadata\" = ? WHERE \"username\" = ?"
    );
    assert_eq!(
        update_statement_text("Users", "role", "username", Dialect::Numbered),
        "UPDATE \"Users\" SET (\"role\") = ($1) WHERE \"username\" = $2"
    );
    assert_eq!(
        delete_statement_text("Logs", "id", Dialect::Positional),
        "DELETE FROM \"Logs\" WHERE \"id\" = ?"
    );
    assert_eq!(
        delete_statement_text("gup_posts", "id", Dialect::Numbered),
        "DELETE FROM \"gup_posts\" WHERE \"id\" = $1"
    );
    assert_eq!(select_all_statement_text("Boards"), "SELECT * FROM \"Boards\"");
    assert_eq!(like_pattern_text("\"user\":\"alice\""), "%\"user\":\"alice\"%");
}

#[test]
fn rows_are_read() {
    let user = user_from_row(&row(&[
        ("username", "alice"),
        ("id_hashed", "abc"),
        ("role", "member"),
        ("timestamp", "1713370000000"),
        ("metadata", "{}"),
    ]))
    .unwrap();
    assert_eq!(user.username, "alice");
    assert_eq!(user.id_hashed, "abc");
    assert_eq!(user.role, "member");
    assert_eq!(user.timestamp, 1713370000000);
    assert_eq!(user.metadata, "{}");
    let old = user_from_row(&row(&[
        ("username", "alice"),
        ("id_hashed", "abc"),
        ("role", "member"),
        ("timestamp", "5"),
    ]))
    .unwrap();
    assert_eq!(old.metadata, "");
    assert_eq!(user_from_row(&row(&[("username", "alice"), ("role", "member")])), None);
    assert_eq!(
        user_from_row(&row(&[
            ("username", "alice"),
            ("id_hashed", "abc"),
            ("role", "member"),
            ("timestamp", "yesterday"),
        ])),
        None
    );
    assert_eq!(
        log_from_row(&row(&[("id", "l1"), ("logtype", "follow"), ("timestamp", "9"), ("content", "{}")])),
        Some(log("l1", "follow", 9, "{}"))
    );
    assert_eq!(log_from_row(&row(&[("id", "l1")])), None);
    let post = post_from_row(&row(&[
        ("id", "p1"),
        ("author", "alice"),
        ("content", "hi"),
        ("content_html", "<p>hi</p>"),
        ("reply", ""),
        ("timestamp", "3"),
    ]))
    .unwrap();
    assert_eq!(post.author, "alice");
    assert_eq!(post.content_html, "<p>hi</p>");
    assert_eq!(post.reply, "");
    assert_eq!(post.timestamp, 3);
    assert_eq!(post_from_row(&row(&[("id", "p1"), ("timestamp", "3")])), None);
    let board = board_from_row(&row(&[("name", "inbox-1"), ("timestamp", "4"), ("metadata", "{}")])).unwrap();
    assert_eq!(board.name, "inbox-1");
    assert_eq!(board.timestamp, 4);
    assert_eq!(board_from_row(&row(&[("name", "inbox-1")])), None);
    let twice = row(&[("id", "first"), ("id", "second")]);
    assert_eq!(twice.get("id"), Some(s("second")));
    assert_eq!(twice.get("name"), None);
}

#[test]
fn cache_holds_objects_by_identifier() {
    let mut cache: CacheDB<String> = CacheDB::new();
    assert_eq!(cache.get(&s("user:alice")), None);
    cache.set(s("user:alice"), s("one"));
    cache.set(s("user:bob"), s("two"));
    cache.set(s("user-posts:alice:offset0"), s("three"));
    cache.set(s("user-posts:alice:offset50"), s("four"));
    cache.set(s("user-posts:al:offset0"), s("five"));
    assert_eq!(cache.get(&s("user:alice")), Some(s("one")));
    cache.update(s("user:alice"), s("six"));
    assert_eq!(cache.get(&s("user:alice")), Some(s("six")));
    assert_eq!(cache.get(&s("user:bob")), Some(s("two")));
    cache.remove(&s("user:bob"));
    cache.remove(&s("user:nobody"));
    assert_eq!(cache.get(&s("user:bob")), None);
    cache.remove_starting_with(&s("user-posts:alice:offset"));
    assert_eq!(cache.get(&s("user-posts:alice:offset0")), None);
    assert_eq!(cache.get(&s("user-posts:alice:offset50")), None);
    assert_eq!(cache.get(&s("user-posts:al:offset0")), Some(s("five")));
    assert_eq!(cache.get(&s("user:alice")), Some(s("six")));
}

#[test]
fn cache_counts() {
    let mut cache: CacheDB<i32> = CacheDB::new();
    cache.incr(s("n"));
    assert_eq!(cache.get(&s("n")), Some(1));
    cache.incr(s("n"));
    cache.decr(s("n"));
    cache.decr(s("n"));
    cache.decr(s("n"));
    assert_eq!(cache.get(&s("n")), Some(-1));
    cache.decr(s("m"));
    assert_eq!(cache.get(&s("m")), Some(-1));
    cache.set(s("top"), i32::MAX);
    cache.incr(s("top"));
    assert_eq!(cache.get(&s("top")), Some(i32::MAX));
    cache.set(s("bottom"), i32::MIN);
    cache.decr(s("bottom"));
    assert_eq!(cache.get(&s("bottom")), Some(i32::MIN));
}

#[test]
fn table_keeps_rows_newest_first_with_unique_keys() {
    let mut table: Table<Log> = Table::new();
    assert_eq!(table.len(), 0);
    assert_eq!(table.insert(log("a", "follow", 10, "x")), Ok(()));
    assert_eq!(table.insert(log("b", "follow", 30, "y")), Ok(()));
    assert_eq!(table.insert(log("c", "level", 20, "z")), Ok(()));
    assert_eq!(table.insert(log("d", "follow", 20, "xy")), Ok(()));
    assert_eq!(table.insert(log("a", "follow", 99, "again")), Err(StoreError::DuplicateKey));
    assert_eq!(table.len(), 4);
    let all = LogLike { logtype: s("follow"), needle: s("") };
    let ids: Vec<String> = table.page(&all, 10, 0).into_iter().map(|row| row.id).collect();
    assert_eq!(ids, vec![s("b"), s("d"), s("a")]);
    let ids: Vec<String> = table.page(&all, 1, 1).into_iter().map(|row| row.id).collect();
    assert_eq!(ids, vec![s("d")]);
    assert_eq!(table.page(&all, 0, 0), Vec::new());
    assert_eq!(table.page(&all, 5, 3), Vec::new());
    assert_eq!(table.count(&all), 3);
    let with_x = LogLike { logtype: s("follow"), needle: s("x") };
    assert_eq!(table.count(&with_x), 2);
    assert_eq!(table.first(&with_x).unwrap().id, "d");
    assert_eq!(table.get(&s("c")).unwrap().content, "z");
    assert_eq!(table.get(&s("e")), None);
    table.delete(&s("d"));
    table.delete(&s("e"));
    assert_eq!(table.first(&with_x).unwrap().id, "a");
    assert_eq!(table.len(), 3);
    assert_eq!(StoreError::DuplicateKey.to_string(), "A row with this key exists already");
}
