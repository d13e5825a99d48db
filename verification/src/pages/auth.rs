use vstd::prelude::*;
use crate::api::auth::can_manage_user;
use crate::api::auth::may_manage;
use crate::api::auth::refresh_cookie;
use crate::db::guppydb::decode_metadata;
use crate::db::guppydb::decoded_metadata;
use crate::db::records::ActivityPost;
use crate::db::records::Log;
use crate::db::records::LogModel;
use crate::db::records::PostModel;
use crate::db::records::UserMetadata;
use crate::db::records::UserMetadataModel;
use crate::db::records::UserModel;
use crate::db::records::UserState;
use crate::db::Database;
use crate::db::DatabaseView;
use crate::db::JoinedPost;
use crate::pages::base::check_auth_status;
use crate::pages::base::signed_in;
use crate::db::plain::Plain;
use crate::text::chars_of;
use crate::text::push_char;

verus! {

/// The query of the pages that sign a user in: where to go afterwards.
#[derive(Clone, Debug, PartialEq)]
pub struct CallbackQueryProps {
    pub callback: String,
}

/// The query of a profile page.
#[derive(Clone, Debug, PartialEq)]
pub struct QueryProps {
    pub edit: Option<bool>,
    pub offset: Option<i32>,
}

/// The query of the pages of followers and of followed users.
#[derive(Clone, Debug, PartialEq)]
pub struct FollowersQueryProps {
    pub offset: Option<i32>,
}

impl QueryProps {
    /// Whether the page is asked for in edit mode; no answer counts as no.
    pub fn edit_mode(&self) -> (edit: bool)
        ensures
            edit == (self.edit == Some(true)),
    {
        match self.edit {
            Some(edit) => edit,
            None => false,
        }
    }

    /// The offset of the query; none counts as zero.
    pub fn offset_or_zero(&self) -> (offset: i32)
        ensures
            offset == match self.offset {
                Some(offset) => offset,
                None => 0,
            },
    {
        match self.offset {
            Some(offset) => offset,
            None => 0,
        }
    }
}

impl FollowersQueryProps {
    /// The offset of the query; none counts as zero.
    pub fn offset_or_zero(&self) -> (offset: i32)
        ensures
            offset == match self.offset {
                Some(offset) => offset,
                None => 0,
            },
    {
        match self.offset {
            Some(offset) => offset,
            None => 0,
        }
    }
}

/// The name that a profile shows: the nickname, or the username where there is none.
pub fn user_nick(nickname: &Option<String>, username: &String) -> (nick: String)
    ensures
        nick@ == match nickname.model() {
            Some(nickname) => nickname,
            None => username@,
        },
{
    match nickname {
        Some(nickname) => nickname.clone(),
        None => username.clone(),
    }
}

/// Whether the signed-in user may edit the profile of a name: only their own.
pub fn can_edit(active: &Option<String>, username: &String) -> (allowed: bool)
    ensures
        allowed == (active.model() == Some(username@)),
{
    match active {
        Some(active) => *active == *username,
        None => false,
    }
}

/// A text with a backslash before each slash.
pub open spec fn slashes_escaped(text: Seq<char>) -> Seq<char>
    decreases text.len(),
{
    if text.len() == 0 {
        Seq::empty()
    } else if text.last() == '/' {
        slashes_escaped(text.drop_last()) + seq!['\\', '/']
    } else {
        slashes_escaped(text.drop_last()).push(text.last())
    }
}

/// A text with a backslash before each slash, as the settings page embeds metadata.
pub fn escape_slashes(text: &str) -> (out: String)
    ensures
        out@ == slashes_escaped(text@),
{
    let chars = chars_of(text);
    let mut out = String::new();
    let mut i: usize = 0;
    proof {
        reveal_strlit("\\/");
        assert(text@.take(0) =~= Seq::<char>::empty());
    }
    while i < chars.len()
        invariant
            chars@ == text@,
            i <= chars@.len(),
            "\\/"@ == seq!['\\', '/'],
            out@ == slashes_escaped(text@.take(i as int)),
        decreases chars@.len() - i,
    {
        let c = chars[i];
        proof {
            assert(text@.take(i + 1).drop_last() =~= text@.take(i as int));
            assert(text@.take(i + 1).last() == c);
        }
        if c == '/' {
            out.append("\\/");
        } else {
            push_char(&mut out, c);
        }
        i += 1;
    }
    assert(text@.take(i as int) =~= text@);
    out
}

/// The cookie that goes with a page: the one that signs out for a token of nobody, else
/// none.
pub open spec fn page_cookie(token: Option<Seq<char>>, signed: bool) -> Seq<char> {
    if token is Some && !signed {
        refresh_cookie()
    } else {
        Seq::empty()
    }
}

/// What the page of a profile shows.
#[derive(Clone, Debug, PartialEq)]
pub struct ProfileView {
    pub set_cookie: String,
    pub user: UserState<String>,
    pub meta: UserMetadata,
    pub user_nick: String,
    pub can_edit: bool,
    pub edit_mode: bool,
    pub is_following: bool,
    pub followers_count: usize,
    pub following_count: usize,
    pub activity: Vec<(ActivityPost, Vec<ActivityPost>, i32)>,
    pub offset: i32,
}

/// The model of a [`ProfileView`].
pub struct ProfileViewModel {
    pub set_cookie: Seq<char>,
    pub user: UserModel,
    pub meta: UserMetadataModel,
    pub user_nick: Seq<char>,
    pub can_edit: bool,
    pub edit_mode: bool,
    pub is_following: bool,
    pub followers_count: int,
    pub following_count: int,
    pub activity: Seq<JoinedPost>,
    pub offset: int,
}

impl Plain for ProfileView {
    type Model = ProfileViewModel;

    open spec fn model(&self) -> ProfileViewModel {
        ProfileViewModel {
            set_cookie: self.set_cookie@,
            user: self.user.model(),
            meta: self.meta.model(),
            user_nick: self.user_nick@,
            can_edit: self.can_edit,
            edit_mode: self.edit_mode,
            is_following: self.is_following,
            followers_count: self.followers_count as int,
            following_count: self.following_count as int,
            activity: self.activity.model(),
            offset: self.offset as int,
        }
    }

    fn replica(&self) -> (out: ProfileView) {
        ProfileView {
            set_cookie: self.set_cookie.clone(),
            user: self.user.replica(),
            meta: self.meta.replica(),
            user_nick: self.user_nick.clone(),
            can_edit: self.can_edit,
            edit_mode: self.edit_mode,
            is_following: self.is_following,
            followers_count: self.followers_count,
            following_count: self.following_count,
            activity: self.activity.replica(),
            offset: self.offset,
        }
    }
}

/// The page of a profile: nothing for a user who is not found or whose metadata cannot
/// be read; else the user, their name to show, the numbers of their followers and of the
/// users they follow, whether who asks follows them and may edit, and one page of their
/// posts.
pub open spec fn profile_viewed(
    state: DatabaseView,
    token: Option<Seq<char>>,
    username: Seq<char>,
    edit: Option<bool>,
    offset: Option<int>,
) -> (DatabaseView, Option<ProfileViewModel>) {
    let (first, found) = state.on_base(state.base.get_user_by_username(username));
    match found.payload {
        None => (first, None),
        Some(profile) => {
            let (second, actor) = signed_in(first, token);
            let active = match actor {
                Some(actor) => Some(actor.user.username),
                None => None,
            };
            match decoded_metadata(profile.user.metadata) {
                None => (second, None),
                Some(meta) => {
                    let (third, activity) = second.get_user_activity(username, offset);
                    match activity.payload {
                        None => (third, None),
                        Some(rows) => (
                            third,
                            Some(
                                ProfileViewModel {
                                    set_cookie: page_cookie(token, actor is Some),
                                    user: profile.user,
                                    meta,
                                    user_nick: match meta.nickname {
                                        Some(nickname) => nickname,
                                        None => username,
                                    },
                                    can_edit: active == Some(profile.user.username),
                                    edit_mode: edit == Some(true),
                                    is_following: match active {
                                        Some(active) => second.base.follow_log(active, username)
                                            is Some,
                                        None => false,
                                    },
                                    followers_count: second.base.followers(username).len() as int,
                                    following_count: second.base.following(username).len() as int,
                                    activity: rows,
                                    offset: match offset {
                                        Some(offset) => offset,
                                        None => 0,
                                    },
                                },
                            ),
                        ),
                    }
                },
            }
        },
    }
}

/// What the page of the profile of a name shows, for a request with the token and the
/// query.
pub fn profile_view_request(
    db: &mut Database,
    token: Option<String>,
    username: String,
    info: &QueryProps,
) -> (out: Option<ProfileView>)
    requires
        old(db).wf(),
    ensures
        final(db).wf(),
        (final(db)@, out.model()) == profile_viewed(
            old(db)@,
            token.model(),
            username@,
            info.edit,
            info.offset.model(),
        ),
{
    let found = db.get_user_by_username(username.clone());
    let profile = match found.payload {
        Some(profile) => profile,
        None => {
            return None;
        },
    };
    let (set_cookie, actor) = check_auth_status(db, token);
    let active = match actor {
        Some(actor) => Some(actor.user.username),
        None => None,
    };
    let followers_count = db.get_user_follow_count(username.clone()).payload;
    let following_count = db.get_user_following_count(username.clone()).payload;
    let is_following = match &active {
        Some(active) => db.get_follow_by_user(active.clone(), username.clone()).payload.is_some(),
        None => false,
    };
    let meta = match decode_metadata(&profile.user.metadata) {
        Some(meta) => meta,
        None => {
            return None;
        },
    };
    let activity = match db.get_user_activity(username.clone(), info.offset).payload {
        Some(activity) => activity,
        None => {
            return None;
        },
    };
    Some(
        ProfileView {
            set_cookie,
            user_nick: user_nick(&meta.nickname, &username),
            can_edit: can_edit(&active, &profile.user.username),
            edit_mode: info.edit_mode(),
            is_following,
            followers_count,
            following_count,
            activity,
            offset: info.offset_or_zero(),
            user: profile.user,
            meta,
        },
    )
}

/// What the page of a post shows.
#[derive(Clone, Debug, PartialEq)]
pub struct PostView {
    pub set_cookie: String,
    pub user: UserState<String>,
    pub can_edit: bool,
    pub post: ActivityPost,
    pub replies: Vec<(ActivityPost, Vec<ActivityPost>, i32)>,
    pub favorites_count: i32,
}

/// The model of a [`PostView`].
pub struct PostViewModel {
    pub set_cookie: Seq<char>,
    pub user: UserModel,
    pub can_edit: bool,
    pub post: PostModel,
    pub replies: Seq<JoinedPost>,
    pub favorites_count: int,
}

impl Plain for PostView {
    type Model = PostViewModel;

    open spec fn model(&self) -> PostViewModel {
        PostViewModel {
            set_cookie: self.set_cookie@,
            user: self.user.model(),
            can_edit: self.can_edit,
            post: self.post.model(),
            replies: self.replies.model(),
            favorites_count: self.favorites_count as int,
        }
    }

    fn replica(&self) -> (out: PostView) {
        PostView {
            set_cookie: self.set_cookie.clone(),
            user: self.user.replica(),
            can_edit: self.can_edit,
            post: self.post.replica(),
            replies: self.replies.replica(),
            favorites_count: self.favorites_count,
        }
    }
}

/// The page of a post: nothing where the user of the page or the post is not found; else
/// the post, the replies to it with their own replies and favorites, and the count of its
/// favorites.
pub open spec fn post_viewed(
    state: DatabaseView,
    token: Option<Seq<char>>,
    username: Seq<char>,
    post_id: Seq<char>,
) -> (DatabaseView, Option<PostViewModel>) {
    let (first, found) = state.on_base(state.base.get_user_by_username(username));
    match found.payload {
        None => (first, None),
        Some(profile) => {
            let (second, actor) = signed_in(first, token);
            let active = match actor {
                Some(actor) => Some(actor.user.username),
                None => None,
            };
            let (third, post) = second.get_post_by_id(post_id);
            match post.payload {
                None => (third, None),
                Some(post) => {
                    let (fourth, replies) = third.get_post_replies_full(post_id, false);
                    match replies.payload {
                        None => (fourth, None),
                        Some(rows) => {
                            let (fifth, favorites) = fourth.get_post_favorites(post_id);
                            (
                                fifth,
                                Some(
                                    PostViewModel {
                                        set_cookie: page_cookie(token, actor is Some),
                                        user: profile.user,
                                        can_edit: active == Some(profile.user.username),
                                        post,
                                        replies: rows,
                                        favorites_count: favorites.payload,
                                    },
                                ),
                            )
                        },
                    }
                },
            }
        },
    }
}

/// What the page of a post shows, for a request with the token.
pub fn view_post_request(
    db: &mut Database,
    token: Option<String>,
    username: String,
    post_id: String,
) -> (out: Option<PostView>)
    requires
        old(db).wf(),
    ensures
        final(db).wf(),
        (final(db)@, out.model()) == post_viewed(old(db)@, token.model(), username@, post_id@),
{
    let found = db.get_user_by_username(username);
    let profile = match found.payload {
        Some(profile) => profile,
        None => {
            return None;
        },
    };
    let (set_cookie, actor) = check_auth_status(db, token);
    let active = match actor {
        Some(actor) => Some(actor.user.username),
        None => None,
    };
    let post = match db.get_post_by_id(post_id.clone()).payload {
        Some(post) => post,
        None => {
            return None;
        },
    };
    let replies = match db.get_post_replies_full(post_id.clone(), false).payload {
        Some(replies) => replies,
        None => {
            return None;
        },
    };
    let favorites_count: i32 = db.get_post_favorites(post_id).payload;
    Some(
        PostView {
            set_cookie,
            can_edit: can_edit(&active, &profile.user.username),
            user: profile.user,
            post,
            replies,
            favorites_count,
        },
    )
}

/// What the page of a user's followers, or of the users they follow, shows.
#[derive(Clone, Debug, PartialEq)]
pub struct FollowsView {
    pub set_cookie: String,
    pub user: UserState<String>,
    pub logs: Vec<Log>,
    pub offset: i32,
}

/// The model of a [`FollowsView`].
pub struct FollowsViewModel {
    pub set_cookie: Seq<char>,
    pub user: UserModel,
    pub logs: Seq<LogModel>,
    pub offset: int,
}

impl Plain for FollowsView {
    type Model = FollowsViewModel;

    open spec fn model(&self) -> FollowsViewModel {
        FollowsViewModel {
            set_cookie: self.set_cookie@,
            user: self.user.model(),
            logs: self.logs.model(),
            offset: self.offset as int,
        }
    }

    fn replica(&self) -> (out: FollowsView) {
        FollowsView {
            set_cookie: self.set_cookie.clone(),
            user: self.user.replica(),
            logs: self.logs.replica(),
            offset: self.offset,
        }
    }
}

/// The page of a user's followers, or of the users they follow: nothing for a user who is
/// not found; else one page of the logs.
pub open spec fn follows_viewed(
    state: DatabaseView,
    token: Option<Seq<char>>,
    username: Seq<char>,
    offset: Option<int>,
    followers: bool,
) -> (DatabaseView, Option<FollowsViewModel>) {
    let (first, found) = state.on_base(state.base.get_user_by_username(username));
    match found.payload {
        None => (first, None),
        Some(profile) => {
            let (second, actor) = signed_in(first, token);
            let logs = if followers {
                second.base.get_user_followers(username, offset)
            } else {
                second.base.get_user_following(username, offset)
            };
            (
                second,
                Some(
                    FollowsViewModel {
                        set_cookie: page_cookie(token, actor is Some),
                        user: profile.user,
                        logs: logs.payload->0,
                        offset: match offset {
                            Some(offset) => offset,
                            None => 0,
                        },
                    },
                ),
            )
        },
    }
}

/// What the page of a user's followers, or of the users they follow, shows.
fn follows_page(
    db: &mut Database,
    token: Option<String>,
    username: String,
    info: &FollowersQueryProps,
    followers: bool,
) -> (out: Option<FollowsView>)
    requires
        old(db).wf(),
    ensures
        final(db).wf(),
        (final(db)@, out.model()) == follows_viewed(
            old(db)@,
            token.model(),
            username@,
            info.offset.model(),
            followers,
        ),
{
    let found = db.get_user_by_username(username.clone());
    let profile = match found.payload {
        Some(profile) => profile,
        None => {
            return None;
        },
    };
    let (set_cookie, _) = check_auth_status(db, token);
    let listed = if followers {
        db.get_user_followers(username, info.offset)
    } else {
        db.get_user_following(username, info.offset)
    };
    let logs = match listed.payload {
        Some(logs) => logs,
        None => Vec::new(),
    };
    Some(FollowsView { set_cookie, user: profile.user, logs, offset: info.offset_or_zero() })
}

/// What the page of a user's followers shows, for a request with the token and the query.
pub fn followers_request(
    db: &mut Database,
    token: Option<String>,
    username: String,
    info: &FollowersQueryProps,
) -> (out: Option<FollowsView>)
    requires
        old(db).wf(),
    ensures
        final(db).wf(),
        (final(db)@, out.model()) == follows_viewed(
            old(db)@,
            token.model(),
            username@,
            info.offset.model(),
            true,
        ),
{
    follows_page(db, token, username, info, true)
}

/// What the page of the users that a user follows shows, for a request with the token
/// and the query.
pub fn following_request(
    db: &mut Database,
    token: Option<String>,
    username: String,
    info: &FollowersQueryProps,
) -> (out: Option<FollowsView>)
    requires
        old(db).wf(),
    ensures
        final(db).wf(),
        (final(db)@, out.model()) == follows_viewed(
            old(db)@,
            token.model(),
            username@,
            info.offset.model(),
            false,
        ),
{
    follows_page(db, token, username, info, false)
}

/// How a request for the settings of a user ends.
#[derive(Clone, Debug, PartialEq)]
pub enum SettingsView {
    /// The profile is not found; the words say why.
    NotFound(String),
    /// Nobody is signed in.
    AccountRequired,
    /// The user may not manage the profile.
    Forbidden,
    /// The page: the cookie to set, the profile's user, and their metadata with a backslash
    /// before each slash.
    Page(String, UserState<String>, String),
}

/// The model of a [`SettingsView`].
pub enum SettingsViewModel {
    NotFound(Seq<char>),
    AccountRequired,
    Forbidden,
    Page(Seq<char>, UserModel, Seq<char>),
}

impl Plain for SettingsView {
    type Model = SettingsViewModel;

    open spec fn model(&self) -> SettingsViewModel {
        match self {
            SettingsView::NotFound(words) => SettingsViewModel::NotFound(words@),
            SettingsView::AccountRequired => SettingsViewModel::AccountRequired,
            SettingsView::Forbidden => SettingsViewModel::Forbidden,
            SettingsView::Page(cookie, user, metadata) => SettingsViewModel::Page(
                cookie@,
                user.model(),
                metadata@,
            ),
        }
    }

    fn replica(&self) -> (out: SettingsView) {
        match self {
            SettingsView::NotFound(words) => SettingsView::NotFound(words.clone()),
            SettingsView::AccountRequired => SettingsView::AccountRequired,
            SettingsView::Forbidden => SettingsView::Forbidden,
            SettingsView::Page(cookie, user, metadata) => SettingsView::Page(
                cookie.clone(),
                user.replica(),
                metadata.clone(),
            ),
        }
    }
}

/// The page of the settings of a user: for who is signed in and may manage the profile.
pub open spec fn settings_viewed(state: DatabaseView, token: Option<Seq<char>>, name: Seq<char>) -> (
    DatabaseView,
    SettingsViewModel,
) {
    let (first, found) = state.on_base(state.base.get_user_by_username(name));
    match found.payload {
        None => (first, SettingsViewModel::NotFound(found.message)),
        Some(profile) => {
            let (second, actor) = signed_in(first, token);
            match actor {
                None => (second, SettingsViewModel::AccountRequired),
                Some(actor) => if may_manage(actor, profile.user.username) {
                    (
                        second,
                        SettingsViewModel::Page(
                            Seq::empty(),
                            profile.user,
                            slashes_escaped(profile.user.metadata),
                        ),
                    )
                } else {
                    (second, SettingsViewModel::Forbidden)
                },
            }
        },
    }
}

/// What the page of the settings of a user shows, for a request with the token.
pub fn user_settings_request(db: &mut Database, token: Option<String>, name: String) -> (out:
    SettingsView)
    requires
        old(db).wf(),
    ensures
        final(db).wf(),
        (final(db)@, out.model()) == settings_viewed(old(db)@, token.model(), name@),
{
    let found = db.get_user_by_username(name);
    let profile = match found.payload {
        Some(profile) => profile,
        None => {
            return SettingsView::NotFound(found.message);
        },
    };
    let (set_cookie, actor) = check_auth_status(db, token);
    match actor {
        None => SettingsView::AccountRequired,
        Some(actor) => if can_manage_user(&actor, &profile.user.username) {
            let metadata = escape_slashes(profile.user.metadata.as_str());
            SettingsView::Page(set_cookie, profile.user, metadata)
        } else {
            SettingsView::Forbidden
        },
    }
}

/// The home page: the cookie to set and whether somebody is signed in.
pub fn home_request(db: &mut Database, token: Option<String>) -> (out: (String, bool))
    requires
        old(db).wf(),
    ensures
        final(db).wf(),
        final(db)@ == signed_in(old(db)@, token.model()).0,
        out.1 == (signed_in(old(db)@, token.model()).1 is Some),
        out.0@ == page_cookie(token.model(), out.1),
{
    let (set_cookie, actor) = check_auth_status(db, token);
    (set_cookie, actor.is_some())
}

} // verus!
