use vstd::prelude::*;
use crate::db::cachedb::CacheDB;
use crate::db::content::first_metadata;
use crate::db::content::first_metadata_of;
use crate::db::content::follow_content;
use crate::db::content::follow_content_text;
use crate::db::content::follow_needle;
use crate::db::content::follow_needle_text;
use crate::db::content::followers_needle;
use crate::db::content::followers_needle_text;
use crate::db::content::following_needle;
use crate::db::content::following_needle_text;
use crate::db::content::level_needle;
use crate::db::content::level_needle_text;
use crate::db::content::metadata_json;
use crate::db::content::metadata_json_text;
use crate::db::content::token_needle;
use crate::db::content::token_needle_text;
use crate::db::keys::lemma_same_prefix;
use crate::db::keys::level_key;
use crate::db::keys::level_key_text;
use crate::db::keys::log_key;
use crate::db::keys::log_key_text;
use crate::db::keys::user_key;
use crate::db::keys::user_key_text;
use crate::db::plain::Plain;
use crate::db::records::DefaultReturn;
use crate::db::records::DefaultReturnModel;
use crate::db::records::FullUser;
use crate::db::records::FullUserModel;
use crate::db::records::Log;
use crate::db::records::LogModel;
use crate::db::records::RoleLevel;
use crate::db::records::RoleLevelLog;
use crate::db::records::RoleLevelLogModel;
use crate::db::records::RoleLevelModel;
use crate::db::records::UserFollow;
use crate::db::records::UserFollowModel;
use crate::db::records::UserMetadata;
use crate::db::records::UserMetadataModel;
use crate::db::records::UserModel;
use crate::db::records::UserState;
use crate::db::records::UserStateModel;
use crate::db::records::default_level;
use crate::db::sql::Filter;
use crate::db::sql::Patch;
use crate::db::sql::Record;
use crate::db::sql::StoreError;
use crate::db::sql::Table;
use crate::db::sql::duplicate_key_words;
use crate::db::sql::find_key;
use crate::db::sql::first_admitted;
use crate::db::sql::has_key;
use crate::db::sql::keys_unique;
use crate::db::sql::lemma_rewritten;
use crate::db::sql::lemma_with_row;
use crate::db::sql::lemma_without_key;
use crate::db::sql::newest_first;
use crate::db::sql::rewritten;
use crate::db::sql::window;
use crate::db::sql::with_row;
use crate::db::sql::without_key;
use crate::json::parse;
use crate::json::parsed_of;
use crate::json::string_field;
use crate::json::text_member;
use crate::json::text_member_of;
use crate::json::texts_member;
use crate::json::texts_member_of;
use crate::json::whole_member;
use crate::json::whole_member_of;
use crate::json::Json;
use crate::json::string_field_of;
use crate::text::contains;
use crate::text::text_contains;
use crate::text::text_is;
use crate::text::text_len;
use crate::text::utf8_len;
use crate::utility::hash;
use crate::utility::hash_of;
use crate::utility::match_of;
use crate::utility::pattern_matches;
use crate::utility::random_id;
use crate::utility::unix_epoch_timestamp;
use crate::utility::uuid;

verus! {

/// The users with the hashed id.
pub open spec fn user_by_hashed(hashed: Seq<char>) -> spec_fn(UserModel) -> bool {
    |row: UserModel| row.id_hashed == hashed
}

/// The users whose metadata holds the text.
pub open spec fn user_metadata_like(needle: Seq<char>) -> spec_fn(UserModel) -> bool {
    |row: UserModel| contains(row.metadata, needle)
}

/// The logs of a type whose content holds the text.
pub open spec fn log_like(logtype: Seq<char>, needle: Seq<char>) -> spec_fn(LogModel) -> bool {
    |row: LogModel| row.logtype == logtype && contains(row.content, needle)
}

/// The logs of a type with the content.
pub open spec fn log_is(logtype: Seq<char>, content: Seq<char>) -> spec_fn(LogModel) -> bool {
    |row: LogModel| row.logtype == logtype && row.content == content
}

/// The user with other metadata.
pub open spec fn with_metadata(metadata: Seq<char>) -> spec_fn(UserModel) -> UserModel {
    |row: UserModel| UserStateModel { metadata, ..row }
}

/// The user with another role.
pub open spec fn with_role(role: Seq<char>) -> spec_fn(UserModel) -> UserModel {
    |row: UserModel| UserStateModel { role, ..row }
}

/// The log with other content.
pub open spec fn with_content(content: Seq<char>) -> spec_fn(LogModel) -> LogModel {
    |row: LogModel| LogModel { content, ..row }
}

/// `WHERE "id_hashed" = ?`
pub struct UserByHashed {
    pub hashed: String,
}

impl Filter<UserState<String>> for UserByHashed {
    open spec fn condition(&self) -> spec_fn(UserModel) -> bool {
        user_by_hashed(self.hashed@)
    }

    fn test(&self, row: &UserState<String>) -> (admitted: bool) {
        row.id_hashed == self.hashed
    }
}

/// `WHERE "metadata" LIKE ?`, with the text between two `%`.
pub struct UserMetadataLike {
    pub needle: String,
}

impl Filter<UserState<String>> for UserMetadataLike {
    open spec fn condition(&self) -> spec_fn(UserModel) -> bool {
        user_metadata_like(self.needle@)
    }

    fn test(&self, row: &UserState<String>) -> (admitted: bool) {
        text_contains(row.metadata.as_str(), self.needle.as_str())
    }
}

/// `WHERE "logtype" = ? AND "content" LIKE ?`, with the text between two `%`.
pub struct LogLike {
    pub logtype: String,
    pub needle: String,
}

impl Filter<Log> for LogLike {
    open spec fn condition(&self) -> spec_fn(LogModel) -> bool {
        log_like(self.logtype@, self.needle@)
    }

    fn test(&self, row: &Log) -> (admitted: bool) {
        row.logtype == self.logtype && text_contains(row.content.as_str(), self.needle.as_str())
    }
}

/// `WHERE "logtype" = ? AND "content" = ?`
pub struct LogIs {
    pub logtype: String,
    pub content: String,
}

impl Filter<Log> for LogIs {
    open spec fn condition(&self) -> spec_fn(LogModel) -> bool {
        log_is(self.logtype@, self.content@)
    }

    fn test(&self, row: &Log) -> (admitted: bool) {
        row.logtype == self.logtype && row.content == self.content
    }
}

/// `SET "metadata" = ?`
pub struct SetMetadata {
    pub metadata: String,
}

impl Patch<UserState<String>> for SetMetadata {
    open spec fn change(&self) -> spec_fn(UserModel) -> UserModel {
        with_metadata(self.metadata@)
    }

    proof fn keeps_place(&self, row: UserModel) {
    }

    fn patched(&self, row: &UserState<String>) -> (out: UserState<String>) {
        UserState {
            username: row.username.clone(),
            id_hashed: row.id_hashed.clone(),
            role: row.role.clone(),
            timestamp: row.timestamp,
            metadata: self.metadata.clone(),
        }
    }
}

/// `SET "role" = ?`
pub struct SetRole {
    pub role: String,
}

impl Patch<UserState<String>> for SetRole {
    open spec fn change(&self) -> spec_fn(UserModel) -> UserModel {
        with_role(self.role@)
    }

    proof fn keeps_place(&self, row: UserModel) {
    }

    fn patched(&self, row: &UserState<String>) -> (out: UserState<String>) {
        UserState {
            username: row.username.clone(),
            id_hashed: row.id_hashed.clone(),
            role: self.role.clone(),
            timestamp: row.timestamp,
            metadata: row.metadata.clone(),
        }
    }
}

/// `SET "content" = ?`
pub struct SetContent {
    pub content: String,
}

impl Patch<Log> for SetContent {
    open spec fn change(&self) -> spec_fn(LogModel) -> LogModel {
        with_content(self.content@)
    }

    proof fn keeps_place(&self, row: LogModel) {
    }

    fn patched(&self, row: &Log) -> (out: Log) {
        Log {
            id: row.id.clone(),
            logtype: row.logtype.clone(),
            timestamp: row.timestamp,
            content: self.content.clone(),
        }
    }
}

/// The pattern of a username: word characters, `_`, `-`, `.` and `!`, one or more, and
/// nothing else.
pub open spec fn username_pattern() -> Seq<char> {
    "^[\\w\\_\\-\\.\\!]+$"@
}

/// A username that a new user may take: it has the pattern's form, and its UTF-8 form has
/// 2 to 500 bytes.
pub open spec fn valid_username(username: Seq<char>) -> bool {
    &&& match_of(username_pattern(), false, username) == Some(true)
    &&& 2 <= utf8_len(username) <= 500
}

/// Whether a new user may take the username.
pub fn is_valid_username(username: &String) -> (valid: bool)
    ensures
        valid == valid_username(username@),
{
    match pattern_matches("^[\\w\\_\\-\\.\\!]+$", false, username.as_str()) {
        Some(true) => {
            let size: usize = text_len(username.as_str());
            2 <= size && size <= 500
        },
        _ => false,
    }
}

/// The level that a value defines, where it defines one: an object with the number
/// `elevation`, which fits 32 bits with a sign, the text `name` and the list of texts
/// `permissions`.
pub open spec fn level_of(json: Json) -> Option<RoleLevelModel> {
    match (
        whole_member_of(json, "elevation"@),
        text_member_of(json, "name"@),
        texts_member_of(json, "permissions"@),
    ) {
        (Some(elevation), Some(name), Some(permissions)) => if i32::MIN <= elevation
            <= i32::MAX {
            Some(RoleLevelModel { elevation, name, permissions })
        } else {
            None
        },
        _ => None,
    }
}

/// The level that the content of a log defines, where it is JSON that defines one.
pub open spec fn decoded_level(content: Seq<char>) -> Option<RoleLevelModel> {
    match parsed_of(content) {
        Some(json) => level_of(json),
        None => None,
    }
}

/// The level that the content of a log defines.
pub fn decode_level(content: &String) -> (level: Option<RoleLevel>)
    ensures
        level.model() == decoded_level(content@),
{
    let value = match parse(content.as_str()) {
        Some(value) => value,
        None => {
            return None;
        },
    };
    let elevation = whole_member(&value, "elevation");
    let name = text_member(&value, "name");
    let permissions = texts_member(&value, "permissions");
    match (elevation, name, permissions) {
        (Some(elevation), Some(name), Some(permissions)) => {
            if -2147483648 <= elevation && elevation <= 2147483647 {
                Some(RoleLevel { elevation: elevation as i32, name, permissions })
            } else {
                None
            }
        },
        _ => None,
    }
}

/// The metadata that a value holds, where it is an object that says something about the
/// user; each other part is missing where the object has no text for it.
pub open spec fn metadata_of(json: Json) -> Option<UserMetadataModel> {
    match text_member_of(json, "about"@) {
        Some(about) => Some(
            UserMetadataModel {
                about,
                avatar_url: text_member_of(json, "avatar_url"@),
                secondary_token: text_member_of(json, "secondary_token"@),
                allow_mail: text_member_of(json, "allow_mail"@),
                nickname: text_member_of(json, "nickname"@),
                page_template: text_member_of(json, "page_template"@),
            },
        ),
        None => None,
    }
}

/// The metadata that a text of the `Users` table holds, where it is JSON that holds some.
pub open spec fn decoded_metadata(text: Seq<char>) -> Option<UserMetadataModel> {
    match parsed_of(text) {
        Some(json) => metadata_of(json),
        None => None,
    }
}

/// The metadata that a text of the `Users` table holds.
pub fn decode_metadata(text: &String) -> (metadata: Option<UserMetadata>)
    ensures
        metadata.model() == decoded_metadata(text@),
{
    let value = match parse(text.as_str()) {
        Some(value) => value,
        None => {
            return None;
        },
    };
    match text_member(&value, "about") {
        Some(about) => Some(
            UserMetadata {
                about,
                avatar_url: text_member(&value, "avatar_url"),
                secondary_token: text_member(&value, "secondary_token"),
                allow_mail: text_member(&value, "allow_mail"),
                nickname: text_member(&value, "nickname"),
                page_template: text_member(&value, "page_template"),
            },
        ),
        None => None,
    }
}

/// The follow that the content of a log holds, where it is JSON of an object with the
/// texts `user` and `is_following`.
pub open spec fn decoded_follow(content: Seq<char>) -> Option<UserFollowModel> {
    match (string_field_of(content, "user"@), string_field_of(content, "is_following"@)) {
        (Some(user), Some(is_following)) => Some(UserFollowModel { user, is_following }),
        _ => None,
    }
}

/// The follow that the content of a log holds.
pub fn deserialize_userfollow(input: String) -> (follow: Option<UserFollow>)
    ensures
        follow.model() == decoded_follow(input@),
{
    let value = match parse(input.as_str()) {
        Some(value) => value,
        None => {
            return None;
        },
    };
    match (text_member(&value, "user"), text_member(&value, "is_following")) {
        (Some(user), Some(is_following)) => Some(UserFollow { user, is_following }),
        _ => None,
    }
}

/// A failure with its message.
pub open spec fn failure<P>(message: Seq<char>, payload: P) -> DefaultReturnModel<P> {
    DefaultReturnModel { success: false, message, payload }
}

/// A success with its message.
pub open spec fn success<P>(message: Seq<char>, payload: P) -> DefaultReturnModel<P> {
    DefaultReturnModel { success: true, message, payload }
}

/// The state of the database of users and logs: the two tables, and what the cache holds
/// of users, levels and logs.
pub struct GuppyView {
    pub users: Seq<UserModel>,
    pub logs: Seq<LogModel>,
    pub user_cache: Map<Seq<char>, UserModel>,
    pub level_cache: Map<Seq<char>, RoleLevelLogModel>,
    pub log_cache: Map<Seq<char>, LogModel>,
}

/// The result of a user lookup.
pub type UserReturn = DefaultReturnModel<Option<FullUserModel<Seq<char>>>>;

/// The result of an operation that names what it changed.
pub type NameReturn = DefaultReturnModel<Option<Seq<char>>>;

impl GuppyView {
    /// The state of a database that holds nothing.
    pub open spec fn empty() -> GuppyView {
        GuppyView {
            users: Seq::empty(),
            logs: Seq::empty(),
            user_cache: Map::empty(),
            level_cache: Map::empty(),
            log_cache: Map::empty(),
        }
    }

    /// What holds of every state that the operations reach: keys are unique, rows stand
    /// newest first, and whatever the cache holds of a user or a log is the row of the table.
    pub open spec fn coherent(self) -> bool {
        &&& keys_unique::<UserState<String>>(self.users)
        &&& newest_first::<UserState<String>>(self.users)
        &&& keys_unique::<Log>(self.logs)
        &&& newest_first::<Log>(self.logs)
        &&& forall|username: Seq<char>| #[trigger]
            self.user_cache.contains_key(user_key(username)) ==> find_key::<UserState<String>>(
                self.users,
                username,
            ) == Some(self.user_cache[user_key(username)])
        &&& forall|id: Seq<char>| #[trigger]
            self.log_cache.contains_key(log_key(id)) ==> find_key::<Log>(
                self.logs,
                id,
            ) == Some(self.log_cache[log_key(id)])
    }

    /// The log that defines the level of a role.
    pub open spec fn level_log(self, role: Seq<char>) -> Option<LogModel> {
        first_admitted(self.logs, log_like("level"@, level_needle(role)))
    }

    /// `get_level_by_role`: the level of a role, from the cache, else from the log that
    /// defines it, else the default. A log whose content defines no level is a failure, with
    /// the default level as payload.
    pub open spec fn get_level_by_role(self, role: Seq<char>) -> (
        GuppyView,
        DefaultReturnModel<RoleLevelLogModel>,
    ) {
        if self.level_cache.contains_key(level_key(role)) {
            (self, success("Level exists (cache)"@, self.level_cache[level_key(role)]))
        } else {
            match self.level_log(role) {
                None => (self, success("Level does not exist, using default"@, default_level())),
                Some(log) => match decoded_level(log.content) {
                    None => (self, failure("Level is malformed"@, default_level())),
                    Some(level) => {
                        let found = RoleLevelLogModel { id: log.id, level };
                        (
                            GuppyView {
                                level_cache: self.level_cache.insert(level_key(role), found),
                                ..self
                            },
                            success("Level exists (new)"@, found),
                        )
                    },
                },
            }
        }
    }

    /// What a lookup makes of the row it found: nothing where there is none or the user is
    /// banned, else the user with the level of their role.
    pub open spec fn shown(self, row: Option<UserModel>, message: Seq<char>) -> (
        GuppyView,
        UserReturn,
    ) {
        match row {
            None => (self, failure("User does not exist"@, None)),
            Some(user) => if user.role == "banned"@ {
                (self, failure("User is banned"@, None))
            } else {
                let (next, level) = self.get_level_by_role(user.role);
                (next, success(message, Some(FullUserModel { user, level: level.payload.level })))
            },
        }
    }

    /// `get_user_by_hashed`: the first user with the hashed id.
    pub open spec fn get_user_by_hashed(self, hashed: Seq<char>) -> (GuppyView, UserReturn) {
        self.shown(first_admitted(self.users, user_by_hashed(hashed)), "User exists"@)
    }

    /// `get_user_by_unhashed_st`: the first user whose metadata holds the hash of the token.
    pub open spec fn get_user_by_unhashed_st(self, unhashed: Seq<char>) -> (
        GuppyView,
        UserReturn,
    ) {
        self.shown(
            first_admitted(self.users, user_metadata_like(token_needle(hash_of(unhashed)))),
            "User exists"@,
        )
    }

    /// `get_user_by_unhashed`: the user whose hashed id is the hash of the text, else the
    /// user whose secondary token it is.
    pub open spec fn get_user_by_unhashed(self, unhashed: Seq<char>) -> (GuppyView, UserReturn) {
        let (next, found) = self.get_user_by_hashed(hash_of(unhashed));
        if found.success {
            (next, found)
        } else {
            next.get_user_by_unhashed_st(unhashed)
        }
    }

    /// `get_user_by_username`: the user of the name. The message tells whether the cache
    /// held the user; a user found in the table is in the cache from then on.
    pub open spec fn get_user_by_username(self, username: Seq<char>) -> (GuppyView, UserReturn) {
        let cached = self.user_cache.contains_key(user_key(username));
        let row = find_key::<UserState<String>>(self.users, username);
        let (next, found) = self.shown(
            row,
            if cached {
                "User exists (cache)"@
            } else {
                "User exists (new)"@
            },
        );
        if found.success && !cached {
            (
                GuppyView {
                    user_cache: next.user_cache.insert(user_key(username), row->0),
                    ..next
                },
                found,
            )
        } else {
            (next, found)
        }
    }

    /// The row of a new user.
    pub open spec fn new_user(username: Seq<char>, unhashed: Seq<char>, now: int) -> UserModel {
        UserStateModel {
            username,
            id_hashed: hash_of(unhashed),
            role: "member"@,
            timestamp: now,
            metadata: metadata_json(first_metadata(username)),
        }
    }

    /// `create_user`: a new member of the name, with the hash of `unhashed` as hashed id.
    /// A name that the table holds is taken, whether its user is banned or not; a name
    /// that is free must be valid. The message of a success is the unhashed id, its
    /// payload the hashed one.
    pub open spec fn create_user(self, username: Seq<char>, unhashed: Seq<char>, now: int) -> (
        GuppyView,
        NameReturn,
    ) {
        if has_key::<UserState<String>>(self.users, username) {
            (self, failure("User already exists!"@, None))
        } else if !valid_username(username) {
            (self, failure("Username is invalid"@, None))
        } else {
            (
                GuppyView {
                    users: with_row::<UserState<String>>(
                        self.users,
                        Self::new_user(username, unhashed, now),
                    ),
                    ..self
                },
                success(unhashed, Some(hash_of(unhashed))),
            )
        }
    }

    /// The state with one column of a user changed, in the table and in the cache.
    pub open spec fn with_user_changed(
        self,
        username: Seq<char>,
        change: spec_fn(UserModel) -> UserModel,
    ) -> GuppyView {
        GuppyView {
            users: rewritten::<UserState<String>>(self.users, username, change),
            user_cache: if self.user_cache.contains_key(user_key(username)) {
                self.user_cache.insert(
                    user_key(username),
                    change(self.user_cache[user_key(username)]),
                )
            } else {
                self.user_cache
            },
            ..self
        }
    }

    /// `edit_user_metadata_by_name`: other metadata for a user that a lookup finds.
    pub open spec fn edit_user_metadata_by_name(
        self,
        username: Seq<char>,
        metadata: UserMetadataModel,
    ) -> (GuppyView, NameReturn) {
        let (next, existing) = self.get_user_by_username(username);
        if !existing.success {
            (next, failure("User does not exist!"@, None))
        } else {
            (
                next.with_user_changed(username, with_metadata(metadata_json(metadata))),
                success("User updated!"@, Some(username)),
            )
        }
    }

    /// `ban_user_by_name`: the role "banned" for a user that a lookup finds and whose level
    /// is not of elevation 0.
    pub open spec fn ban_user_by_name(self, username: Seq<char>) -> (GuppyView, NameReturn) {
        let (next, existing) = self.get_user_by_username(username);
        if !existing.success {
            (next, failure("User does not exist!"@, None))
        } else if existing.payload->0.level.elevation == 0 {
            (next, failure("User must be of level elevation 0"@, None))
        } else {
            (
                next.with_user_changed(username, with_role("banned"@)),
                success("User banned!"@, Some(username)),
            )
        }
    }
}

/// The result of a lookup of one log.
pub type LogReturn = DefaultReturnModel<Option<LogModel>>;

/// The result of a lookup of several logs.
pub type LogsReturn = DefaultReturnModel<Option<Seq<LogModel>>>;

/// How many logs a page of followers holds at most.
pub const FOLLOW_PAGE: usize = 50;

impl GuppyView {
    /// `get_log_by_id`: the log of the id. The message tells whether the cache held it; a
    /// log found in the table is in the cache from then on.
    pub open spec fn get_log_by_id(self, id: Seq<char>) -> (GuppyView, LogReturn) {
        match find_key::<Log>(self.logs, id) {
            None => (self, failure("Log does not exist"@, None)),
            Some(log) => if self.log_cache.contains_key(log_key(id)) {
                (self, success("Log exists (cache)"@, Some(log)))
            } else {
                (
                    GuppyView { log_cache: self.log_cache.insert(log_key(id), log), ..self },
                    success("Log exists"@, Some(log)),
                )
            },
        }
    }

    /// `create_log`: a new log of the type with the content. The store refuses an id that
    /// is taken.
    pub open spec fn create_log(
        self,
        logtype: Seq<char>,
        content: Seq<char>,
        id: Seq<char>,
        now: int,
    ) -> (GuppyView, NameReturn) {
        if has_key::<Log>(self.logs, id) {
            (self, failure(duplicate_key_words(), None))
        } else {
            (
                GuppyView {
                    logs: with_row::<Log>(
                        self.logs,
                        LogModel { id, logtype, timestamp: now, content },
                    ),
                    ..self
                },
                success("Log created!"@, Some(id)),
            )
        }
    }

    /// `edit_log`: other content for the log of the id, in the table and in the cache.
    pub open spec fn edit_log(self, id: Seq<char>, content: Seq<char>) -> (GuppyView, NameReturn) {
        let (next, existing) = self.get_log_by_id(id);
        if !existing.success {
            (next, failure("Log does not exist!"@, None))
        } else {
            (
                GuppyView {
                    logs: rewritten::<Log>(next.logs, id, with_content(content)),
                    log_cache: next.log_cache.insert(
                        log_key(id),
                        with_content(content)(next.log_cache[log_key(id)]),
                    ),
                    ..next
                },
                success("Log updated!"@, Some(id)),
            )
        }
    }

    /// `delete_log`: the log of the id leaves the table and the cache.
    pub open spec fn delete_log(self, id: Seq<char>) -> (GuppyView, NameReturn) {
        let (next, existing) = self.get_log_by_id(id);
        if !existing.success {
            (next, failure("Log does not exist!"@, None))
        } else {
            (
                GuppyView {
                    logs: without_key::<Log>(next.logs, id),
                    log_cache: next.log_cache.remove(log_key(id)),
                    ..next
                },
                success("Log deleted!"@, Some(id)),
            )
        }
    }

    /// The log that says that `user` follows `is_following`.
    pub open spec fn follow_log(self, user: Seq<char>, is_following: Seq<char>) -> Option<
        LogModel,
    > {
        first_admitted(self.logs, log_like("follow"@, follow_needle(user, is_following)))
    }

    /// `get_follow_by_user`: the log that says that `user` follows `is_following`.
    pub open spec fn get_follow_by_user(self, user: Seq<char>, is_following: Seq<char>) -> LogReturn {
        match self.follow_log(user, is_following) {
            None => failure("Follow does not exist"@, None),
            Some(log) => success("Follow exists"@, Some(log)),
        }
    }

    /// The logs of the followers of a user, newest first.
    pub open spec fn followers(self, user: Seq<char>) -> Seq<LogModel> {
        self.logs.filter(log_like("follow"@, followers_needle(user)))
    }

    /// The logs of the users that a user follows, newest first.
    pub open spec fn following(self, user: Seq<char>) -> Seq<LogModel> {
        self.logs.filter(log_like("follow"@, following_needle(user)))
    }

    /// `get_user_followers`: one page of the logs of a user's followers.
    pub open spec fn get_user_followers(self, user: Seq<char>, offset: Option<int>) -> LogsReturn {
        success(
            "Followers exists"@,
            Some(window(self.followers(user), offset.unwrap_or(0), FOLLOW_PAGE as int)),
        )
    }

    /// `get_user_following`: one page of the logs of the users that a user follows.
    pub open spec fn get_user_following(self, user: Seq<char>, offset: Option<int>) -> LogsReturn {
        success(
            "Following exists"@,
            Some(window(self.following(user), offset.unwrap_or(0), FOLLOW_PAGE as int)),
        )
    }

    /// `get_user_follow_count`: how many followers a user has.
    pub open spec fn get_user_follow_count(self, user: Seq<char>) -> DefaultReturnModel<int> {
        success("Follow exists"@, self.followers(user).len() as int)
    }

    /// `get_user_following_count`: how many users a user follows.
    pub open spec fn get_user_following_count(self, user: Seq<char>) -> DefaultReturnModel<int> {
        success("Follow exists"@, self.following(user).len() as int)
    }

    /// `toggle_user_follow`: nobody follows themselves, and both users must be found.
    /// Then the log of the follow leaves, where there is one; else a new log says that
    /// `user` follows `is_following`.
    pub open spec fn toggle_user_follow(
        self,
        user: Seq<char>,
        is_following: Seq<char>,
        id: Seq<char>,
        now: int,
    ) -> (GuppyView, NameReturn) {
        if user == is_following {
            (self, failure("Cannot follow yourself!"@, None))
        } else {
            let (first, one) = self.get_user_by_username(user);
            if !one.success {
                (first, failure("User does not exist!"@, None))
            } else {
                let (second, other) = first.get_user_by_username(is_following);
                if !other.success {
                    (second, failure("User (2) does not exist!"@, None))
                } else {
                    match second.follow_log(user, is_following) {
                        Some(log) => second.delete_log(log.id),
                        None => second.create_log(
                            "follow"@,
                            follow_content(user, is_following),
                            id,
                            now,
                        ),
                    }
                }
            }
        }
    }
}

/// The database of users and logs: the relational store's two tables and the cache, held
/// in memory. Its operations run one at a time, each on the state that the one before left.
pub struct GuppyDB {
    users: Table<UserState<String>>,
    logs: Table<Log>,
    user_cache: CacheDB<UserState<String>>,
    level_cache: CacheDB<RoleLevelLog>,
    log_cache: CacheDB<Log>,
}

/// What a toggle did to the logs: `Some(true)` where it added a log, `Some(false)` where
/// it took one out, nothing where it failed.
pub fn toggle_added(out: &DefaultReturn<Option<String>>) -> (added: Option<bool>)
    ensures
        added == (if out.success {
            Some(out.message@ == "Log created!"@)
        } else {
            None
        }),
{
    if out.success {
        Some(text_is(out.message.as_str(), "Log created!"))
    } else {
        None
    }
}

/// A failure with its message.
pub fn fail<T>(message: &str, payload: T) -> (out: DefaultReturn<T>)
    ensures
        out.success == false,
        out.message@ == message@,
        out.payload == payload,
{
    DefaultReturn { success: false, message: String::from_str(message), payload }
}

/// A success with its message.
pub fn succeed<T>(message: &str, payload: T) -> (out: DefaultReturn<T>)
    ensures
        out.success == true,
        out.message@ == message@,
        out.payload == payload,
{
    DefaultReturn { success: true, message: String::from_str(message), payload }
}

impl GuppyDB {
    /// The state of the database.
    pub closed spec fn view(&self) -> GuppyView {
        GuppyView {
            users: self.users@,
            logs: self.logs@,
            user_cache: self.user_cache@,
            level_cache: self.level_cache@,
            log_cache: self.log_cache@,
        }
    }

    /// What the database keeps true of itself.
    pub closed spec fn wf(&self) -> bool {
        &&& self.users.wf()
        &&& self.logs.wf()
        &&& self.user_cache.wf()
        &&& self.level_cache.wf()
        &&& self.log_cache.wf()
        &&& self@.coherent()
    }

    /// A well-formed database is in a coherent state.
    pub proof fn lemma_coherent(&self)
        requires
            self.wf(),
        ensures
            self@.coherent(),
    {
    }

    /// A database with empty tables and an empty cache.
    pub fn new() -> (db: GuppyDB)
        ensures
            db.wf(),
            db@ == GuppyView::empty(),
    {
        GuppyDB {
            users: Table::new(),
            logs: Table::new(),
            user_cache: CacheDB::new(),
            level_cache: CacheDB::new(),
            log_cache: CacheDB::new(),
        }
    }

    /// The first log that a filter admits.
    pub fn first_log<F: Filter<Log>>(&self, filter: &F) -> (found: Option<Log>)
        requires
            self.wf(),
        ensures
            found.model() == first_admitted(self@.logs, filter.condition()),
    {
        self.logs.first(filter)
    }

    /// Get a [`RoleLevel`] by the name of its role.
    pub fn get_level_by_role(&mut self, name: String) -> (out: DefaultReturn<RoleLevelLog>)
        requires
            old(self).wf(),
        ensures
            final(self).wf(),
            (final(self)@, out.model()) == old(self)@.get_level_by_role(name@),
    {
        let key = level_key_text(name.as_str());
        match self.level_cache.get(&key) {
            Some(level) => {
                return succeed("Level exists (cache)", level);
            },
            None => {},
        }
        let filter = LogLike {
            logtype: String::from_str("level"),
            needle: level_needle_text(name.as_str()),
        };
        match self.logs.first(&filter) {
            None => succeed("Level does not exist, using default", RoleLevelLog::default()),
            Some(log) => match decode_level(&log.content) {
                None => fail("Level is malformed", RoleLevelLog::default()),
                Some(level) => {
                    let found = RoleLevelLog { id: log.id, level };
                    self.level_cache.set(key, found.replica());
                    succeed("Level exists (new)", found)
                },
            },
        }
    }

    /// What a lookup makes of the row it found.
    fn show(&mut self, row: Option<UserState<String>>, message: &str) -> (out: DefaultReturn<
        Option<FullUser<String>>,
    >)
        requires
            old(self).wf(),
        ensures
            final(self).wf(),
            (final(self)@, out.model()) == old(self)@.shown(row.model(), message@),
    {
        match row {
            None => fail("User does not exist", None),
            Some(user) => {
                if user.role == String::from_str("banned") {
                    return fail("User is banned", None);
                }
                let level = self.get_level_by_role(user.role.clone());
                succeed(message, Some(FullUser { user, level: level.payload.level }))
            },
        }
    }

    /// Get a user by their hashed id.
    pub fn get_user_by_hashed(&mut self, hashed: String) -> (out: DefaultReturn<
        Option<FullUser<String>>,
    >)
        requires
            old(self).wf(),
        ensures
            final(self).wf(),
            (final(self)@, out.model()) == old(self)@.get_user_by_hashed(hashed@),
    {
        let row = self.users.first(&UserByHashed { hashed });
        self.show(row, "User exists")
    }

    /// Get a user by their unhashed secondary token.
    pub fn get_user_by_unhashed_st(&mut self, unhashed: String) -> (out: DefaultReturn<
        Option<FullUser<String>>,
    >)
        requires
            old(self).wf(),
        ensures
            final(self).wf(),
            (final(self)@, out.model()) == old(self)@.get_user_by_unhashed_st(unhashed@),
    {
        let needle = token_needle_text(hash(unhashed).as_str());
        let row = self.users.first(&UserMetadataLike { needle });
        self.show(row, "User exists")
    }

    /// Get a user by their unhashed id; where no user has it, by their unhashed secondary
    /// token.
    pub fn get_user_by_unhashed(&mut self, unhashed: String) -> (out: DefaultReturn<
        Option<FullUser<String>>,
    >)
        requires
            old(self).wf(),
        ensures
            final(self).wf(),
            (final(self)@, out.model()) == old(self)@.get_user_by_unhashed(unhashed@),
    {
        let found = self.get_user_by_hashed(hash(unhashed.clone()));
        if !found.success {
            return self.get_user_by_unhashed_st(unhashed);
        }
        found
    }

    /// Get a user by their username.
    pub fn get_user_by_username(&mut self, username: String) -> (out: DefaultReturn<
        Option<FullUser<String>>,
    >)
        requires
            old(self).wf(),
        ensures
            final(self).wf(),
            (final(self)@, out.model()) == old(self)@.get_user_by_username(username@),
    {
        let key = user_key_text(username.as_str());
        match self.user_cache.get(&key) {
            Some(user) => {
                return self.show(Some(user), "User exists (cache)");
            },
            None => {},
        }
        let row = self.users.get(&username);
        let copy = row.replica();
        let found = self.show(row, "User exists (new)");
        if found.success {
            match copy {
                Some(user) => {
                    self.user_cache.set(key, user);
                    proof {
                        let ghost state = self@;
                        assert forall|other: Seq<char>| #[trigger]
                            state.user_cache.contains_key(user_key(other)) implies find_key::<
                            UserState<String>,
                        >(state.users, other) == Some(state.user_cache[user_key(other)]) by {
                            if user_key(other) == user_key(username@) {
                                lemma_same_prefix("user:"@, other, username@);
                            }
                        }
                    }
                },
                None => {},
            }
        }
        found
    }

    /// Create a new user given their username, with a fresh unhashed id and the time of
    /// the clock.
    pub fn create_user(&mut self, username: String) -> (out: DefaultReturn<Option<String>>)
        requires
            old(self).wf(),
        ensures
            final(self).wf(),
            exists|unhashed: Seq<char>, now: int|
                (final(self)@, out.model()) == old(self)@.create_user(username@, unhashed, now),
    {
        let unhashed = uuid();
        let now: u128 = unix_epoch_timestamp();
        self.create_user_with(username, unhashed, now)
    }

    /// Create a new user given their username, their unhashed id and the time.
    pub fn create_user_with(&mut self, username: String, unhashed: String, now: u128) -> (out:
        DefaultReturn<Option<String>>)
        requires
            old(self).wf(),
        ensures
            final(self).wf(),
            (final(self)@, out.model()) == old(self)@.create_user(username@, unhashed@, now as int),
    {
        if self.users.get(&username).is_some() {
            return fail("User already exists!", None);
        }
        if !is_valid_username(&username) {
            return fail("Username is invalid", None);
        }
        let hashed = hash(unhashed.clone());
        let metadata = metadata_json_text(&first_metadata_of(&username));
        let row = UserState {
            username,
            id_hashed: hashed.clone(),
            role: String::from_str("member"),
            timestamp: now,
            metadata,
        };
        proof {
            if !has_key::<UserState<String>>(self@.users, row.model().username) {
                lemma_with_row::<UserState<String>>(self@.users, row.model());
            }
        }
        match self.users.insert(row) {
            Err(_) => fail("User already exists!", None),
            Ok(()) => DefaultReturn { success: true, message: unhashed, payload: Some(hashed) },
        }
    }

    /// Changes one column of a user, in the table and in the cache.
    fn change_user<P: Patch<UserState<String>>>(&mut self, username: &String, patch: &P)
        requires
            old(self).wf(),
        ensures
            final(self).wf(),
            final(self)@ == old(self)@.with_user_changed(username@, patch.change()),
    {
        let key = user_key_text(username.as_str());
        proof {
            assert forall|row: UserModel|
                UserState::<String>::key_of(#[trigger] (patch.change())(row)) == UserState::<
                    String,
                >::key_of(row) && UserState::<String>::stamp_of((patch.change())(row))
                    == UserState::<String>::stamp_of(row) by {
                patch.keeps_place(row);
            }
            lemma_rewritten::<UserState<String>>(self@.users, username@, patch.change());
        }
        let ghost before = self@;
        self.users.amend(username, patch);
        match self.user_cache.get(&key) {
            Some(user) => {
                self.user_cache.update(key, patch.patched(&user));
            },
            None => {},
        }
        proof {
            let state = self@;
            assert(state.logs == before.logs);
            assert(state.log_cache == before.log_cache);
            assert forall|id: Seq<char>| #[trigger]
                state.log_cache.contains_key(log_key(id)) implies find_key::<Log>(state.logs, id)
                == Some(state.log_cache[log_key(id)]) by {
                assert(before.log_cache.contains_key(log_key(id)));
            }
            assert(before.user_cache.contains_key(user_key(username@)) ==> find_key::<
                UserState<String>,
            >(before.users, username@) == Some(before.user_cache[user_key(username@)]));
            assert forall|other: Seq<char>| #[trigger]
                state.user_cache.contains_key(user_key(other)) implies find_key::<
                UserState<String>,
            >(state.users, other) == Some(state.user_cache[user_key(other)]) by {
                if user_key(other) == user_key(username@) {
                    lemma_same_prefix("user:"@, other, username@);
                } else {
                    assert(before.user_cache.contains_key(user_key(other)));
                }
            }
        }
    }

    /// Update a user's metadata by their username.
    pub fn edit_user_metadata_by_name(&mut self, name: String, metadata: UserMetadata) -> (out:
        DefaultReturn<Option<String>>)
        requires
            old(self).wf(),
        ensures
            final(self).wf(),
            (final(self)@, out.model()) == old(self)@.edit_user_metadata_by_name(
                name@,
                metadata.model(),
            ),
    {
        let existing = self.get_user_by_username(name.clone());
        if !existing.success {
            return fail("User does not exist!", None);
        }
        let patch = SetMetadata { metadata: metadata_json_text(&metadata) };
        self.change_user(&name, &patch);
        succeed("User updated!", Some(name))
    }

    /// Ban a user by their username.
    pub fn ban_user_by_name(&mut self, name: String) -> (out: DefaultReturn<Option<String>>)
        requires
            old(self).wf(),
        ensures
            final(self).wf(),
            (final(self)@, out.model()) == old(self)@.ban_user_by_name(name@),
    {
        let existing = self.get_user_by_username(name.clone());
        if !existing.success {
            return fail("User does not exist!", None);
        }
        let elevation: i32 = match &existing.payload {
            Some(found) => found.level.elevation,
            None => 0,
        };
        if elevation == 0 {
            return fail("User must be of level elevation 0", None);
        }
        let patch = SetRole { role: String::from_str("banned") };
        self.change_user(&name, &patch);
        succeed("User banned!", Some(name))
    }

    /// Get a log by its id.
    pub fn get_log_by_id(&mut self, id: String) -> (out: DefaultReturn<Option<Log>>)
        requires
            old(self).wf(),
        ensures
            final(self).wf(),
            (final(self)@, out.model()) == old(self)@.get_log_by_id(id@),
    {
        let key = log_key_text(id.as_str());
        match self.log_cache.get(&key) {
            Some(log) => {
                return succeed("Log exists (cache)", Some(log));
            },
            None => {},
        }
        let ghost before = self@;
        match self.logs.get(&id) {
            None => fail("Log does not exist", None),
            Some(log) => {
                self.log_cache.set(key, log.replica());
                proof {
                    let state = self@;
                    assert forall|other: Seq<char>| #[trigger]
                        state.log_cache.contains_key(log_key(other)) implies find_key::<Log>(
                        state.logs,
                        other,
                    ) == Some(state.log_cache[log_key(other)]) by {
                        if log_key(other) == log_key(id@) {
                            lemma_same_prefix("log:"@, other, id@);
                        } else {
                            assert(before.log_cache.contains_key(log_key(other)));
                        }
                    }
                }
                succeed("Log exists", Some(log))
            },
        }
    }

    /// Create a log given its type and content, with a fresh id and the time of the clock.
    pub fn create_log(&mut self, logtype: String, content: String) -> (out: DefaultReturn<
        Option<String>,
    >)
        requires
            old(self).wf(),
        ensures
            final(self).wf(),
            exists|id: Seq<char>, now: int|
                (final(self)@, out.model()) == old(self)@.create_log(logtype@, content@, id, now),
    {
        let id = random_id();
        let now: u128 = unix_epoch_timestamp();
        self.create_log_with(logtype, content, id, now)
    }

    /// Create a log given its type, its content, its id and the time.
    pub fn create_log_with(&mut self, logtype: String, content: String, id: String, now: u128) -> (out:
        DefaultReturn<Option<String>>)
        requires
            old(self).wf(),
        ensures
            final(self).wf(),
            (final(self)@, out.model()) == old(self)@.create_log(
                logtype@,
                content@,
                id@,
                now as int,
            ),
    {
        let row = Log { id: id.clone(), logtype, timestamp: now, content };
        proof {
            if !has_key::<Log>(self@.logs, id@) {
                lemma_with_row::<Log>(self@.logs, row.model());
            }
        }
        match self.logs.insert(row) {
            Err(error) => DefaultReturn { success: false, message: error.to_string(), payload: None },
            Ok(()) => succeed("Log created!", Some(id)),
        }
    }

    /// Edit a log given its id.
    pub fn edit_log(&mut self, id: String, content: String) -> (out: DefaultReturn<Option<String>>)
        requires
            old(self).wf(),
        ensures
            final(self).wf(),
            (final(self)@, out.model()) == old(self)@.edit_log(id@, content@),
    {
        let existing = self.get_log_by_id(id.clone());
        if !existing.success {
            return fail("Log does not exist!", None);
        }
        let key = log_key_text(id.as_str());
        let patch = SetContent { content };
        let ghost before = self@;
        proof {
            lemma_rewritten::<Log>(before.logs, id@, patch.change());
        }
        self.logs.amend(&id, &patch);
        match self.log_cache.get(&key) {
            Some(log) => {
                self.log_cache.update(key, patch.patched(&log));
            },
            None => {},
        }
        proof {
            let state = self@;
            assert(before.log_cache.contains_key(log_key(id@)));
            assert forall|other: Seq<char>| #[trigger]
                state.log_cache.contains_key(log_key(other)) implies find_key::<Log>(
                state.logs,
                other,
            ) == Some(state.log_cache[log_key(other)]) by {
                if log_key(other) == log_key(id@) {
                    lemma_same_prefix("log:"@, other, id@);
                } else {
                    assert(before.log_cache.contains_key(log_key(other)));
                }
            }
        }
        succeed("Log updated!", Some(id))
    }

    /// Delete a log given its id.
    pub fn delete_log(&mut self, id: String) -> (out: DefaultReturn<Option<String>>)
        requires
            old(self).wf(),
        ensures
            final(self).wf(),
            (final(self)@, out.model()) == old(self)@.delete_log(id@),
    {
        let existing = self.get_log_by_id(id.clone());
        if !existing.success {
            return fail("Log does not exist!", None);
        }
        let key = log_key_text(id.as_str());
        let ghost before = self@;
        proof {
            lemma_without_key::<Log>(before.logs, id@);
        }
        self.logs.delete(&id);
        self.log_cache.remove(&key);
        proof {
            let state = self@;
            assert forall|other: Seq<char>| #[trigger]
                state.log_cache.contains_key(log_key(other)) implies find_key::<Log>(
                state.logs,
                other,
            ) == Some(state.log_cache[log_key(other)]) by {
                if other == id@ {
                } else {
                    assert(before.log_cache.contains_key(log_key(other)));
                }
            }
        }
        succeed("Log deleted!", Some(id))
    }

    /// Get the log that says that `user` follows `is_following`.
    pub fn get_follow_by_user(&self, user: String, is_following: String) -> (out: DefaultReturn<
        Option<Log>,
    >)
        requires
            self.wf(),
        ensures
            out.model() == self@.get_follow_by_user(user@, is_following@),
    {
        let filter = LogLike {
            logtype: String::from_str("follow"),
            needle: follow_needle_text(user.as_str(), is_following.as_str()),
        };
        match self.logs.first(&filter) {
            None => fail("Follow does not exist", None),
            Some(log) => succeed("Follow exists", Some(log)),
        }
    }

    /// Get one page of the logs of the users that follow `user`, newest first.
    pub fn get_user_followers(&self, user: String, offset: Option<i32>) -> (out: DefaultReturn<
        Option<Vec<Log>>,
    >)
        requires
            self.wf(),
        ensures
            out.model() == self@.get_user_followers(user@, offset.model()),
    {
        let filter = LogLike {
            logtype: String::from_str("follow"),
            needle: followers_needle_text(user.as_str()),
        };
        let from: i32 = match offset {
            Some(offset) => offset,
            None => 0,
        };
        succeed("Followers exists", Some(self.logs.page(&filter, FOLLOW_PAGE, from)))
    }

    /// Get one page of the logs of the users that `user` follows, newest first.
    pub fn get_user_following(&self, user: String, offset: Option<i32>) -> (out: DefaultReturn<
        Option<Vec<Log>>,
    >)
        requires
            self.wf(),
        ensures
            out.model() == self@.get_user_following(user@, offset.model()),
    {
        let filter = LogLike {
            logtype: String::from_str("follow"),
            needle: following_needle_text(user.as_str()),
        };
        let from: i32 = match offset {
            Some(offset) => offset,
            None => 0,
        };
        succeed("Following exists", Some(self.logs.page(&filter, FOLLOW_PAGE, from)))
    }

    /// Get the number of followers that a user has.
    pub fn get_user_follow_count(&self, user: String) -> (out: DefaultReturn<usize>)
        requires
            self.wf(),
        ensures
            out.model() == self@.get_user_follow_count(user@),
    {
        let filter = LogLike {
            logtype: String::from_str("follow"),
            needle: followers_needle_text(user.as_str()),
        };
        succeed("Follow exists", self.logs.count(&filter))
    }

    /// Get the number of users that a user follows.
    pub fn get_user_following_count(&self, user: String) -> (out: DefaultReturn<usize>)
        requires
            self.wf(),
        ensures
            out.model() == self@.get_user_following_count(user@),
    {
        let filter = LogLike {
            logtype: String::from_str("follow"),
            needle: following_needle_text(user.as_str()),
        };
        succeed("Follow exists", self.logs.count(&filter))
    }

    /// Toggle whether `user` follows `is_following`, with a fresh id and the time of the
    /// clock for a new log.
    pub fn toggle_user_follow(&mut self, props: &UserFollow) -> (out: DefaultReturn<
        Option<String>,
    >)
        requires
            old(self).wf(),
        ensures
            final(self).wf(),
            exists|id: Seq<char>, now: int|
                (final(self)@, out.model()) == old(self)@.toggle_user_follow(
                    props.user@,
                    props.is_following@,
                    id,
                    now,
                ),
    {
        let id = random_id();
        let now: u128 = unix_epoch_timestamp();
        self.toggle_user_follow_with(props, id, now)
    }

    /// Toggle whether `user` follows `is_following`, given the id and the time for a new
    /// log.
    pub fn toggle_user_follow_with(&mut self, props: &UserFollow, id: String, now: u128) -> (out:
        DefaultReturn<Option<String>>)
        requires
            old(self).wf(),
        ensures
            final(self).wf(),
            (final(self)@, out.model()) == old(self)@.toggle_user_follow(
                props.user@,
                props.is_following@,
                id@,
                now as int,
            ),
    {
        if props.user == props.is_following {
            return fail("Cannot follow yourself!", None);
        }
        let existing = self.get_user_by_username(props.user.clone());
        if !existing.success {
            return fail("User does not exist!", None);
        }
        let existing = self.get_user_by_username(props.is_following.clone());
        if !existing.success {
            return fail("User (2) does not exist!", None);
        }
        let existing = self.get_follow_by_user(props.user.clone(), props.is_following.clone());
        match existing.payload {
            Some(log) => self.delete_log(log.id),
            None => self.create_log_with(
                String::from_str("follow"),
                follow_content_text(props.user.as_str(), props.is_following.as_str()),
                id,
                now,
            ),
        }
    }

    /// Takes in a user as the relational store holds it, unless the username is taken.
    pub fn load_user(&mut self, row: UserState<String>) -> (res: Result<(), StoreError>)
        requires
            old(self).wf(),
        ensures
            final(self).wf(),
            res is Err <==> has_key::<UserState<String>>(old(self)@.users, row.username@),
            res is Err ==> final(self)@ == old(self)@,
            res is Ok ==> final(self)@ == (GuppyView {
                users: with_row::<UserState<String>>(old(self)@.users, row.model()),
                ..old(self)@
            }),
    {
        proof {
            if !has_key::<UserState<String>>(self@.users, row.username@) {
                lemma_with_row::<UserState<String>>(self@.users, row.model());
            }
        }
        self.users.insert(row)
    }

    /// Takes in a log as the relational store holds it, unless the id is taken.
    pub fn load_log(&mut self, row: Log) -> (res: Result<(), StoreError>)
        requires
            old(self).wf(),
        ensures
            final(self).wf(),
            res is Err <==> has_key::<Log>(old(self)@.logs, row.id@),
            res is Err ==> final(self)@ == old(self)@,
            res is Ok ==> final(self)@ == (GuppyView {
                logs: with_row::<Log>(old(self)@.logs, row.model()),
                ..old(self)@
            }),
    {
        proof {
            if !has_key::<Log>(self@.logs, row.id@) {
                lemma_with_row::<Log>(self@.logs, row.model());
            }
        }
        self.logs.insert(row)
    }
}

} // verus!
