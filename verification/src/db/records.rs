use vstd::prelude::*;
use crate::db::plain::Plain;
use crate::db::sql::Record;

verus! {

/// What every operation of the database hands back: whether it succeeded, a message for
/// people, and the payload.
#[derive(Clone, Debug, PartialEq)]
pub struct DefaultReturn<T> {
    pub success: bool,
    pub message: String,
    pub payload: T,
}

/// The model of a [`DefaultReturn`].
pub struct DefaultReturnModel<P> {
    pub success: bool,
    pub message: Seq<char>,
    pub payload: P,
}

impl<T: Plain> Plain for DefaultReturn<T> {
    type Model = DefaultReturnModel<T::Model>;

    open spec fn model(&self) -> DefaultReturnModel<T::Model> {
        DefaultReturnModel {
            success: self.success,
            message: self.message@,
            payload: self.payload.model(),
        }
    }

    fn replica(&self) -> (out: DefaultReturn<T>) {
        DefaultReturn {
            success: self.success,
            message: self.message.clone(),
            payload: self.payload.replica(),
        }
    }
}

/// A user object.
#[derive(Clone, Debug, PartialEq)]
pub struct UserState<M> {
    pub username: String,
    /// Users sign in with their unhashed id; the hashed id is the only one that is ever public.
    pub id_hashed: String,
    pub role: String,
    pub timestamp: u128,
    pub metadata: M,
}

/// The model of a [`UserState`].
pub struct UserStateModel<MM> {
    pub username: Seq<char>,
    pub id_hashed: Seq<char>,
    pub role: Seq<char>,
    pub timestamp: int,
    pub metadata: MM,
}

impl<M: Plain> Plain for UserState<M> {
    type Model = UserStateModel<M::Model>;

    open spec fn model(&self) -> UserStateModel<M::Model> {
        UserStateModel {
            username: self.username@,
            id_hashed: self.id_hashed@,
            role: self.role@,
            timestamp: self.timestamp as int,
            metadata: self.metadata.model(),
        }
    }

    fn replica(&self) -> (out: UserState<M>) {
        UserState {
            username: self.username.clone(),
            id_hashed: self.id_hashed.clone(),
            role: self.role.clone(),
            timestamp: self.timestamp,
            metadata: self.metadata.replica(),
        }
    }
}

/// A row of the `Users` table: a user with the metadata as text.
pub type UserModel = UserStateModel<Seq<char>>;

impl Record for UserState<String> {
    open spec fn key_of(row: UserModel) -> Seq<char> {
        row.username
    }

    open spec fn stamp_of(row: UserModel) -> int {
        row.timestamp
    }

    fn key(&self) -> (key: &String) {
        &self.username
    }

    fn stamp(&self) -> (stamp: u128) {
        self.timestamp
    }
}

/// A named bundle of permissions.
#[derive(Clone, Debug, PartialEq)]
pub struct RoleLevel {
    /// The rank of the role; 0 is always member.
    pub elevation: i32,
    /// The role's name, shown on user profiles.
    pub name: String,
    /// The permissions, such as "ManagePosts".
    pub permissions: Vec<String>,
}

/// The model of a [`RoleLevel`].
pub struct RoleLevelModel {
    pub elevation: int,
    pub name: Seq<char>,
    pub permissions: Seq<Seq<char>>,
}

impl Plain for RoleLevel {
    type Model = RoleLevelModel;

    open spec fn model(&self) -> RoleLevelModel {
        RoleLevelModel {
            elevation: self.elevation as int,
            name: self.name@,
            permissions: self.permissions.model(),
        }
    }

    fn replica(&self) -> (out: RoleLevel) {
        RoleLevel {
            elevation: self.elevation,
            name: self.name.clone(),
            permissions: self.permissions.replica(),
        }
    }
}

/// A user with the level of their role.
#[derive(Clone, Debug, PartialEq)]
pub struct FullUser<M> {
    pub user: UserState<M>,
    pub level: RoleLevel,
}

/// The model of a [`FullUser`].
pub struct FullUserModel<MM> {
    pub user: UserStateModel<MM>,
    pub level: RoleLevelModel,
}

impl<M: Plain> Plain for FullUser<M> {
    type Model = FullUserModel<M::Model>;

    open spec fn model(&self) -> FullUserModel<M::Model> {
        FullUserModel { user: self.user.model(), level: self.level.model() }
    }

    fn replica(&self) -> (out: FullUser<M>) {
        FullUser { user: self.user.replica(), level: self.level.replica() }
    }
}

/// A level with the id of the log that defines it.
#[derive(Clone, Debug, PartialEq)]
pub struct RoleLevelLog {
    pub id: String,
    pub level: RoleLevel,
}

/// The model of a [`RoleLevelLog`].
pub struct RoleLevelLogModel {
    pub id: Seq<char>,
    pub level: RoleLevelModel,
}

impl Plain for RoleLevelLog {
    type Model = RoleLevelLogModel;

    open spec fn model(&self) -> RoleLevelLogModel {
        RoleLevelLogModel { id: self.id@, level: self.level.model() }
    }

    fn replica(&self) -> (out: RoleLevelLog) {
        RoleLevelLog { id: self.id.clone(), level: self.level.replica() }
    }
}

/// The level of a role that no log defines: member, of elevation 0, with no permission.
pub open spec fn default_level() -> RoleLevelLogModel {
    RoleLevelLogModel {
        id: Seq::empty(),
        level: RoleLevelModel { elevation: 0, name: "member"@, permissions: Seq::empty() },
    }
}

impl Default for RoleLevelLog {
    fn default() -> (out: RoleLevelLog)
        ensures
            out.model() == default_level(),
    {
        let out = RoleLevelLog {
            id: String::new(),
            level: RoleLevel {
                elevation: 0,
                name: String::from_str("member"),
                permissions: Vec::new(),
            },
        };
        assert(out.level.permissions.model() =~= Seq::<Seq<char>>::empty());
        out
    }
}

/// What a user says of themselves.
#[derive(Clone, Debug, PartialEq)]
pub struct UserMetadata {
    pub about: String,
    pub avatar_url: Option<String>,
    pub secondary_token: Option<String>,
    /// "yes" or "no".
    pub allow_mail: Option<String>,
    /// The user's display name.
    pub nickname: Option<String>,
    /// The template of the profile page.
    pub page_template: Option<String>,
}

/// The model of a [`UserMetadata`].
pub struct UserMetadataModel {
    pub about: Seq<char>,
    pub avatar_url: Option<Seq<char>>,
    pub secondary_token: Option<Seq<char>>,
    pub allow_mail: Option<Seq<char>>,
    pub nickname: Option<Seq<char>>,
    pub page_template: Option<Seq<char>>,
}

impl Plain for UserMetadata {
    type Model = UserMetadataModel;

    open spec fn model(&self) -> UserMetadataModel {
        UserMetadataModel {
            about: self.about@,
            avatar_url: self.avatar_url.model(),
            secondary_token: self.secondary_token.model(),
            allow_mail: self.allow_mail.model(),
            nickname: self.nickname.model(),
            page_template: self.page_template.model(),
        }
    }

    fn replica(&self) -> (out: UserMetadata) {
        UserMetadata {
            about: self.about.clone(),
            avatar_url: self.avatar_url.replica(),
            secondary_token: self.secondary_token.replica(),
            allow_mail: self.allow_mail.replica(),
            nickname: self.nickname.replica(),
            page_template: self.page_template.replica(),
        }
    }
}

/// A record of the `Logs` table. Follows, favorites and level definitions are logs, told
/// apart by `logtype`, with their payload as text in `content`.
#[derive(Clone, Debug, PartialEq)]
pub struct Log {
    pub id: String,
    pub logtype: String,
    pub timestamp: u128,
    pub content: String,
}

/// The model of a [`Log`].
pub struct LogModel {
    pub id: Seq<char>,
    pub logtype: Seq<char>,
    pub timestamp: int,
    pub content: Seq<char>,
}

impl Plain for Log {
    type Model = LogModel;

    open spec fn model(&self) -> LogModel {
        LogModel {
            id: self.id@,
            logtype: self.logtype@,
            timestamp: self.timestamp as int,
            content: self.content@,
        }
    }

    fn replica(&self) -> (out: Log) {
        Log {
            id: self.id.clone(),
            logtype: self.logtype.clone(),
            timestamp: self.timestamp,
            content: self.content.clone(),
        }
    }
}

impl Record for Log {
    open spec fn key_of(row: LogModel) -> Seq<char> {
        row.id
    }

    open spec fn stamp_of(row: LogModel) -> int {
        row.timestamp
    }

    fn key(&self) -> (key: &String) {
        &self.id
    }

    fn stamp(&self) -> (stamp: u128) {
        self.timestamp
    }
}

/// The id of a log.
#[derive(Clone, Debug, PartialEq)]
pub struct LogIdentifier {
    pub id: String,
}

impl Plain for LogIdentifier {
    type Model = Seq<char>;

    open spec fn model(&self) -> Seq<char> {
        self.id@
    }

    fn replica(&self) -> (out: LogIdentifier) {
        LogIdentifier { id: self.id.clone() }
    }
}

/// That `user` follows `is_following`.
#[derive(Clone, Debug, PartialEq)]
pub struct UserFollow {
    /// The user that follows.
    pub user: String,
    /// The user that is followed.
    pub is_following: String,
}

/// The model of a [`UserFollow`].
pub struct UserFollowModel {
    pub user: Seq<char>,
    pub is_following: Seq<char>,
}

impl Plain for UserFollow {
    type Model = UserFollowModel;

    open spec fn model(&self) -> UserFollowModel {
        UserFollowModel { user: self.user@, is_following: self.is_following@ }
    }

    fn replica(&self) -> (out: UserFollow) {
        UserFollow { user: self.user.clone(), is_following: self.is_following.clone() }
    }
}

/// A post of the activity feed.
#[derive(Clone, Debug, PartialEq)]
pub struct ActivityPost {
    pub id: String,
    pub content: String,
    pub content_html: String,
    pub author: String,
    /// The id of the post that this post replies to; empty for a post of its own.
    pub reply: String,
    pub timestamp: u128,
}

/// The model of an [`ActivityPost`].
pub struct PostModel {
    pub id: Seq<char>,
    pub content: Seq<char>,
    pub content_html: Seq<char>,
    pub author: Seq<char>,
    pub reply: Seq<char>,
    pub timestamp: int,
}

impl Plain for ActivityPost {
    type Model = PostModel;

    open spec fn model(&self) -> PostModel {
        PostModel {
            id: self.id@,
            content: self.content@,
            content_html: self.content_html@,
            author: self.author@,
            reply: self.reply@,
            timestamp: self.timestamp as int,
        }
    }

    fn replica(&self) -> (out: ActivityPost) {
        ActivityPost {
            id: self.id.clone(),
            content: self.content.clone(),
            content_html: self.content_html.clone(),
            author: self.author.clone(),
            reply: self.reply.clone(),
            timestamp: self.timestamp,
        }
    }
}

impl Record for ActivityPost {
    open spec fn key_of(row: PostModel) -> Seq<char> {
        row.id
    }

    open spec fn stamp_of(row: PostModel) -> int {
        row.timestamp
    }

    fn key(&self) -> (key: &String) {
        &self.id
    }

    fn stamp(&self) -> (stamp: u128) {
        self.timestamp
    }
}

/// That `user` favorited the post `id`.
#[derive(Clone, Debug, PartialEq)]
pub struct PostFavoriteLog {
    /// The username of the user that favorited the post.
    pub user: String,
    /// The id of the post that was favorited.
    pub id: String,
}

/// What a caller gives to create a post.
#[derive(Clone, Debug, PartialEq)]
pub struct PCreatePost {
    pub content: String,
    pub author: String,
    /// The id of the post to reply to; empty for a post of its own.
    pub reply: String,
}

/// A record of the `Boards` table. A mail stream between two users is a board whose
/// metadata carries the mark of the two.
#[derive(Clone, Debug, PartialEq)]
pub struct Board {
    pub name: String,
    pub timestamp: u128,
    pub metadata: String,
}

/// The model of a [`Board`].
pub struct BoardModel {
    pub name: Seq<char>,
    pub timestamp: int,
    pub metadata: Seq<char>,
}

impl Plain for Board {
    type Model = BoardModel;

    open spec fn model(&self) -> BoardModel {
        BoardModel { name: self.name@, timestamp: self.timestamp as int, metadata: self.metadata@ }
    }

    fn replica(&self) -> (out: Board) {
        Board {
            name: self.name.clone(),
            timestamp: self.timestamp,
            metadata: self.metadata.clone(),
        }
    }
}

impl Record for Board {
    open spec fn key_of(row: BoardModel) -> Seq<char> {
        row.name
    }

    open spec fn stamp_of(row: BoardModel) -> int {
        row.timestamp
    }

    fn key(&self) -> (key: &String) {
        &self.name
    }

    fn stamp(&self) -> (stamp: u128) {
        self.timestamp
    }
}

/// The two users of a mail stream.
#[derive(Clone, Debug, PartialEq)]
pub struct UserMailStreamIdentifier {
    pub user1: String,
    pub user2: String,
}

/// A mail stream as the list of a user's streams shows it: the board's name and the other
/// of the two users.
#[derive(Clone, Debug, PartialEq)]
pub struct MailStreamEntry {
    pub name: String,
    pub other: String,
}

/// The model of a [`MailStreamEntry`].
pub struct MailStreamEntryModel {
    pub name: Seq<char>,
    pub other: Seq<char>,
}

impl Plain for MailStreamEntry {
    type Model = MailStreamEntryModel;

    open spec fn model(&self) -> MailStreamEntryModel {
        MailStreamEntryModel { name: self.name@, other: self.other@ }
    }

    fn replica(&self) -> (out: MailStreamEntry) {
        MailStreamEntry { name: self.name.clone(), other: self.other.clone() }
    }
}

} // verus!
