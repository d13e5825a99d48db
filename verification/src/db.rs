pub mod plain;
pub mod sql;
pub mod cachedb;
pub mod records;
pub mod keys;
pub mod content;
pub mod guppydb;
pub mod statement;
pub mod rows;

use vstd::prelude::*;
use crate::db::cachedb::CacheDB;
use crate::db::cachedb::stepped_down;
use crate::db::cachedb::stepped_up;
use crate::db::cachedb::without_prefix;
use crate::db::content::favorite_content;
use crate::db::content::favorite_content_text;
use crate::db::content::first_user_needle;
use crate::db::content::first_user_needle_text;
use crate::db::content::second_user_needle;
use crate::db::content::second_user_needle_text;
use crate::db::content::stream_metadata;
use crate::db::content::stream_metadata_text;
use crate::db::content::stream_name;
use crate::db::content::stream_name_text;
use crate::db::content::stream_needle;
use crate::db::content::stream_needle_text;
use crate::db::guppydb::GuppyDB;
use crate::db::guppydb::GuppyView;
use crate::db::guppydb::LogIs;
use crate::db::guppydb::LogReturn;
use crate::db::guppydb::NameReturn;
use crate::db::guppydb::fail;
use crate::db::guppydb::failure;
use crate::db::guppydb::log_is;
use crate::db::guppydb::succeed;
use crate::db::guppydb::success;
use crate::db::keys::favorites_key;
use crate::db::keys::favorites_key_text;
use crate::db::keys::feed_key;
use crate::db::keys::feed_key_text;
use crate::db::keys::feed_prefix;
use crate::db::keys::feed_prefix_text;
use crate::db::keys::lemma_feed_key_begins;
use crate::db::keys::lemma_feed_key_tells;
use crate::db::keys::lemma_same_prefix;
use crate::db::keys::post_key;
use crate::db::keys::post_key_text;
use crate::db::keys::replies_key;
use crate::db::keys::replies_key_text;
use crate::db::plain::Plain;
use crate::db::plain::lemma_models_push;
use crate::db::records::ActivityPost;
use crate::db::records::Board;
use crate::db::records::BoardModel;
use crate::db::records::DefaultReturn;
use crate::db::records::DefaultReturnModel;
use crate::db::records::FullUser;
use crate::db::records::Log;
use crate::db::records::LogModel;
use crate::db::records::MailStreamEntry;
use crate::db::records::MailStreamEntryModel;
use crate::db::records::PCreatePost;
use crate::db::records::PostModel;
use crate::db::records::RoleLevel;
use crate::db::records::RoleLevelLog;
use crate::db::records::UserFollow;
use crate::db::records::UserMailStreamIdentifier;
use crate::db::records::UserMetadata;
use crate::db::records::UserState;
use crate::db::sql::Filter;
use crate::db::sql::StoreError;
use crate::db::sql::Table;
use crate::db::sql::duplicate_key_words;
use crate::db::sql::find_key;
use crate::db::sql::first_admitted;
use crate::db::sql::has_key;
use crate::db::sql::keys_unique;
use crate::db::sql::lemma_filter_with_row;
use crate::db::sql::lemma_filter_without_key;
use crate::db::sql::lemma_with_row;
use crate::db::sql::lemma_without_key;
use crate::db::sql::newest_first;
use crate::db::sql::row_not_found_words;
use crate::db::sql::window;
use crate::db::sql::with_row;
use crate::db::sql::without_key;
use crate::json::parse;
use crate::json::string_field;
use crate::json::text_member;
use crate::json::string_field_of;
use crate::text::contains;
use crate::text::text_contains;
use crate::text::text_is;
use crate::text::text_len;
use crate::text::utf8_len;
use crate::utility::random_id;
use crate::utility::unix_epoch_timestamp;

verus! {

/// The posts that reply to the post of the id.
pub open spec fn reply_to(parent: Seq<char>) -> spec_fn(PostModel) -> bool {
    |row: PostModel| row.reply == parent
}

/// The posts of an author that reply to no post.
pub open spec fn root_post_by(author: Seq<char>) -> spec_fn(PostModel) -> bool {
    |row: PostModel| row.author == author && row.reply.len() == 0
}

/// `WHERE "reply" = ?`
pub struct PostReplyTo {
    pub parent: String,
}

impl Filter<ActivityPost> for PostReplyTo {
    open spec fn condition(&self) -> spec_fn(PostModel) -> bool {
        reply_to(self.parent@)
    }

    fn test(&self, row: &ActivityPost) -> (admitted: bool) {
        row.reply == self.parent
    }
}

/// `WHERE "author" = ? AND "reply" = ''`
pub struct RootPostBy {
    pub author: String,
}

impl Filter<ActivityPost> for RootPostBy {
    open spec fn condition(&self) -> spec_fn(PostModel) -> bool {
        root_post_by(self.author@)
    }

    fn test(&self, row: &ActivityPost) -> (admitted: bool) {
        row.author == self.author && row.reply.as_str().unicode_len() == 0
    }
}

/// How many posts a page of a feed holds at most.
pub const FEED_PAGE: usize = 50;

/// How many replies to a post are handed out at most.
pub const REPLIES_LIMIT: usize = 100;

/// A content that a post may have: its UTF-8 form has 2 to 500 bytes.
pub open spec fn valid_content(content: Seq<char>) -> bool {
    2 <= utf8_len(content) <= 500
}

/// Whether a post may have the content.
pub fn is_valid_content(content: &String) -> (valid: bool)
    ensures
        valid == valid_content(content@),
{
    let size: usize = text_len(content.as_str());
    2 <= size && size <= 500
}

/// Whether a level holds a permission.
pub fn has_permission(level: &RoleLevel, permission: &str) -> (held: bool)
    ensures
        held == level.model().permissions.contains(permission@),
{
    let mut i: usize = 0;
    while i < level.permissions.len()
        invariant
            i <= level.permissions@.len(),
            forall|k: int| 0 <= k < i ==> level.permissions@[k]@ != permission@,
        decreases level.permissions@.len() - i,
    {
        if text_is(level.permissions[i].as_str(), permission) {
            assert(level.model().permissions[i as int] == permission@);
            return true;
        }
        i += 1;
    }
    proof {
        let held = level.model().permissions;
        assert forall|k: int| 0 <= k < held.len() implies held[k] != permission@ by {
            assert(held[k] == level.permissions@[k]@);
        }
    }
    false
}

/// The state of the whole database: that of users and logs, the tables of posts and of
/// boards, what the cache holds of posts, of replies and of feed pages, and the counters of
/// favorites.
pub struct DatabaseView {
    pub base: GuppyView,
    pub posts: Seq<PostModel>,
    pub boards: Seq<BoardModel>,
    pub post_cache: Map<Seq<char>, PostModel>,
    pub replies_cache: Map<Seq<char>, Seq<PostModel>>,
    pub feed_cache: Map<Seq<char>, Seq<PostModel>>,
    pub favorites: Map<Seq<char>, int>,
}

/// The result of a lookup of one post.
pub type PostReturn = DefaultReturnModel<Option<PostModel>>;

/// The result of a lookup of several posts.
pub type PostsReturn = DefaultReturnModel<Option<Seq<PostModel>>>;

impl DatabaseView {
    /// The state of a database that holds nothing.
    pub open spec fn empty() -> DatabaseView {
        DatabaseView {
            base: GuppyView::empty(),
            posts: Seq::empty(),
            boards: Seq::empty(),
            post_cache: Map::empty(),
            replies_cache: Map::empty(),
            feed_cache: Map::empty(),
            favorites: Map::empty(),
        }
    }

    /// Whatever the cache holds of a post is the row of the table.
    pub open spec fn posts_cached_right(self) -> bool {
        forall|id: Seq<char>| #[trigger]
            self.post_cache.contains_key(post_key(id)) ==> find_key::<ActivityPost>(
                self.posts,
                id,
            ) == Some(self.post_cache[post_key(id)])
    }

    /// Whatever the cache holds of the replies to a post are the replies that the table
    /// has. This is kept for every post with an id that is not empty: the posts that reply
    /// to no post are no replies.
    pub open spec fn replies_cached_right(self) -> bool {
        forall|id: Seq<char>|
            id.len() > 0 && #[trigger] self.replies_cache.contains_key(replies_key(id))
                ==> self.replies_cache[replies_key(id)] == self.replies_of(id)
    }

    /// Whatever the cache holds of a page of a feed is the page that the table has.
    pub open spec fn feeds_cached_right(self) -> bool {
        forall|username: Seq<char>, offset: int| #[trigger]
            self.feed_cache.contains_key(feed_key(username, offset))
                ==> self.feed_cache[feed_key(username, offset)] == self.feed_of(username, offset)
    }

    /// What holds of every state that the operations reach: the state of users and logs is
    /// coherent, keys are unique, rows stand newest first, and whatever the cache holds of
    /// a post, of the replies to a post or of a page of a feed is what the table has.
    pub open spec fn coherent(self) -> bool {
        &&& self.base.coherent()
        &&& keys_unique::<ActivityPost>(self.posts)
        &&& newest_first::<ActivityPost>(self.posts)
        &&& keys_unique::<Board>(self.boards)
        &&& newest_first::<Board>(self.boards)
        &&& self.posts_cached_right()
        &&& self.replies_cached_right()
        &&& self.feeds_cached_right()
    }

    /// A change that leaves the posts and the cache of posts alone leaves that cache right.
    pub proof fn lemma_post_cache_kept(self, after: DatabaseView)
        requires
            self.posts_cached_right(),
            after.posts == self.posts,
            after.post_cache == self.post_cache,
        ensures
            after.posts_cached_right(),
    {
        assert forall|id: Seq<char>| #[trigger]
            after.post_cache.contains_key(post_key(id)) implies find_key::<ActivityPost>(
            after.posts,
            id,
        ) == Some(after.post_cache[post_key(id)]) by {
            assert(self.post_cache.contains_key(post_key(id)));
        }
    }

    /// A change that leaves the posts alone and adds nothing to the cache of replies
    /// leaves that cache right.
    pub proof fn lemma_replies_kept(self, after: DatabaseView)
        requires
            self.replies_cached_right(),
            after.posts == self.posts,
            after.replies_cache.submap_of(self.replies_cache),
        ensures
            after.replies_cached_right(),
    {
        assert forall|id: Seq<char>|
            id.len() > 0 && #[trigger] after.replies_cache.contains_key(
                replies_key(id),
            ) implies after.replies_cache[replies_key(id)] == after.replies_of(id) by {
            assert(self.replies_cache.contains_key(replies_key(id)));
        }
    }

    /// A change that leaves the posts alone and adds nothing to the cache of feed pages
    /// leaves that cache right.
    pub proof fn lemma_feeds_kept(self, after: DatabaseView)
        requires
            self.feeds_cached_right(),
            after.posts == self.posts,
            after.feed_cache.submap_of(self.feed_cache),
        ensures
            after.feeds_cached_right(),
    {
        assert forall|username: Seq<char>, offset: int| #[trigger]
            after.feed_cache.contains_key(
                feed_key(username, offset),
            ) implies after.feed_cache[feed_key(username, offset)] == after.feed_of(
            username,
            offset,
        ) by {
            assert(self.feed_cache.contains_key(feed_key(username, offset)));
        }
    }

    /// A change that leaves the posts, the boards and the cache of posts alone, adds
    /// nothing to the caches of lists, and leaves the state of users and logs coherent,
    /// leaves the whole state coherent.
    pub proof fn lemma_posts_kept(self, after: DatabaseView)
        requires
            self.coherent(),
            after.base.coherent(),
            after.posts == self.posts,
            after.boards == self.boards,
            after.post_cache == self.post_cache,
            after.replies_cache.submap_of(self.replies_cache),
            after.feed_cache.submap_of(self.feed_cache),
        ensures
            after.coherent(),
    {
        self.lemma_post_cache_kept(after);
        self.lemma_replies_kept(after);
        self.lemma_feeds_kept(after);
    }

    /// The state after an operation on users and logs, with its result.
    pub open spec fn on_base<R>(self, step: (GuppyView, R)) -> (DatabaseView, R) {
        (DatabaseView { base: step.0, ..self }, step.1)
    }

    /// `get_post_by_id`: the post of the id. The message tells whether the cache held it;
    /// a post found in the table is in the cache from then on.
    pub open spec fn get_post_by_id(self, id: Seq<char>) -> (DatabaseView, PostReturn) {
        match find_key::<ActivityPost>(self.posts, id) {
            None => (self, failure("Post does not exist"@, None)),
            Some(post) => if self.post_cache.contains_key(post_key(id)) {
                (self, success("Post exists (cache)"@, Some(post)))
            } else {
                (
                    DatabaseView { post_cache: self.post_cache.insert(post_key(id), post), ..self },
                    success("Post exists"@, Some(post)),
                )
            },
        }
    }

    /// The replies to a post as the table has them: the newest hundred, newest first.
    pub open spec fn replies_of(self, id: Seq<char>) -> Seq<PostModel> {
        window(self.posts.filter(reply_to(id)), 0, REPLIES_LIMIT as int)
    }

    /// The replies to a post as a lookup hands them out: from the cache where it holds
    /// them, else from the table, and then into the cache.
    pub open spec fn replies_shown(self, id: Seq<char>) -> (DatabaseView, PostsReturn) {
        if self.replies_cache.contains_key(replies_key(id)) {
            (self, success("Successfully fetched posts"@, Some(self.replies_cache[replies_key(id)])))
        } else {
            (
                DatabaseView {
                    replies_cache: self.replies_cache.insert(replies_key(id), self.replies_of(id)),
                    ..self
                },
                success("Successfully fetched replies"@, Some(self.replies_of(id))),
            )
        }
    }

    /// `get_post_replies`: the replies to a post; where asked, only if the post exists.
    pub open spec fn get_post_replies(self, id: Seq<char>, run_existing_check: bool) -> (
        DatabaseView,
        PostsReturn,
    ) {
        if run_existing_check {
            let (next, existing) = self.get_post_by_id(id);
            if !existing.success {
                (next, failure("Post does not exist"@, None))
            } else {
                next.replies_shown(id)
            }
        } else {
            self.replies_shown(id)
        }
    }

    /// The count that the cache keeps of the favorites of a post; none counts as zero.
    pub open spec fn favorite_count(self, id: Seq<char>) -> int {
        if self.favorites.contains_key(favorites_key(id)) {
            self.favorites[favorites_key(id)]
        } else {
            0
        }
    }

    /// `get_post_favorites`: the count of the favorites of a post that exists. The message
    /// of a success is the id.
    pub open spec fn get_post_favorites(self, id: Seq<char>) -> (
        DatabaseView,
        DefaultReturnModel<int>,
    ) {
        let (next, existing) = self.get_post_by_id(id);
        if !existing.success {
            (next, failure("Post does not exist!"@, 0))
        } else {
            (next, success(id, next.favorite_count(id)))
        }
    }

    /// The state without what the cache holds of the lists that a post stands in: the
    /// pages of its author's feed for a post of its own, the replies to its parent for a
    /// reply.
    pub open spec fn without_lists_of(self, author: Seq<char>, reply: Seq<char>) -> DatabaseView {
        if reply.len() == 0 {
            DatabaseView {
                feed_cache: without_prefix(self.feed_cache, feed_prefix(author)),
                ..self
            }
        } else {
            DatabaseView { replies_cache: self.replies_cache.remove(replies_key(reply)), ..self }
        }
    }

    /// `create_activity_post`: a new post. Its content must be valid and its author found;
    /// a reply needs its parent. The lists that the post joins leave the cache. The store
    /// refuses an id that is taken.
    pub open spec fn create_activity_post(
        self,
        props: (Seq<char>, Seq<char>, Seq<char>),
        content_html: Seq<char>,
        id: Seq<char>,
        now: int,
    ) -> (DatabaseView, PostReturn) {
        let (content, author, reply) = props;
        if !valid_content(content) {
            (self, failure("Content is invalid"@, None))
        } else {
            let (first, existing) = self.on_base(self.base.get_user_by_username(author));
            if !existing.success {
                (first, failure("User does not exist"@, None))
            } else {
                let (second, parent) = if reply.len() == 0 {
                    (first, success(Seq::empty(), None))
                } else {
                    first.get_post_by_id(reply)
                };
                if !parent.success {
                    (second, parent)
                } else {
                    let third = second.without_lists_of(author, reply);
                    let post = PostModel { id, content, content_html, author, reply, timestamp: now };
                    if has_key::<ActivityPost>(third.posts, id) {
                        (third, failure(duplicate_key_words(), None))
                    } else {
                        (
                            DatabaseView {
                                posts: with_row::<ActivityPost>(third.posts, post),
                                ..third
                            },
                            success("Post created"@, Some(post)),
                        )
                    }
                }
            }
        }
    }

    /// `delete_activity_post`: the post leaves, where `as_user` names a user who is found
    /// and is its author or holds "ManagePosts". It leaves the table and the cache, and so
    /// do the lists that it stood in.
    pub open spec fn delete_activity_post(self, id: Seq<char>, as_user: Option<Seq<char>>) -> (
        DatabaseView,
        DefaultReturnModel<bool>,
    ) {
        let (first, existing) = self.get_post_by_id(id);
        if !existing.success {
            (first, failure(existing.message, false))
        } else if as_user is None {
            (first, failure("You do not have permission to do this."@, false))
        } else {
            let post = existing.payload->0;
            let (second, user) = first.on_base(first.base.get_user_by_username(as_user->0));
            match user.payload {
                None => (second, failure("User does not exist."@, false)),
                Some(found) => if found.user.username != post.author
                    && !found.level.permissions.contains("ManagePosts"@) {
                    (second, failure("You do not have permission to do this."@, false))
                } else {
                    (
                        DatabaseView {
                            posts: without_key::<ActivityPost>(second.posts, id),
                            post_cache: second.post_cache.remove(post_key(id)),
                            ..second
                        }.without_lists_of(post.author, post.reply),
                        success("Post deleted"@, false),
                    )
                },
            }
        }
    }

    /// The log that says that `user` favorited the post.
    pub open spec fn favorite_log(self, user: Seq<char>, post_id: Seq<char>) -> Option<
        LogModel,
    > {
        first_admitted(self.base.logs, log_is("post_favorite"@, favorite_content(user, post_id)))
    }

    /// `get_user_post_favorite`: the log that says that `user` favorited the post; unless
    /// told to skip it, only if the post exists. The message of a success is the id of the
    /// post.
    pub open spec fn get_user_post_favorite(
        self,
        user: Seq<char>,
        post_id: Seq<char>,
        skip_existing_check: bool,
    ) -> (DatabaseView, LogReturn) {
        let (next, existing) = if skip_existing_check {
            (self, success(Seq::empty(), None))
        } else {
            self.get_post_by_id(post_id)
        };
        if !existing.success {
            (next, failure("Post does not exist!"@, None))
        } else {
            match next.favorite_log(user, post_id) {
                None => (next, failure(row_not_found_words(), None)),
                Some(log) => (next, success(post_id, Some(log))),
            }
        }
    }

    /// The state after a write to the logs of favorites: where the write succeeded, the
    /// counter of the post has stepped, up for a new log and down for one that left; where
    /// the store refused the write, the counter stays as it is.
    pub open spec fn counted(
        self,
        post_id: Seq<char>,
        up: bool,
        written: (GuppyView, NameReturn),
    ) -> (DatabaseView, NameReturn) {
        (
            DatabaseView {
                base: written.0,
                favorites: if !written.1.success {
                    self.favorites
                } else if up {
                    self.favorites.insert(
                        favorites_key(post_id),
                        stepped_up(self.favorite_count(post_id)),
                    )
                } else {
                    self.favorites.insert(
                        favorites_key(post_id),
                        stepped_down(self.favorite_count(post_id)),
                    )
                },
                ..self
            },
            written.1,
        )
    }

    /// `toggle_user_post_favorite`: the post must exist and be another's. Then the log of
    /// the favorite leaves and the counter steps down, where there is such a log; else a
    /// new log says that `user` favorited the post and the counter steps up. The counter
    /// steps only with the log: where the store refuses the new log, nothing changes.
    pub open spec fn toggle_user_post_favorite(
        self,
        user: Seq<char>,
        post_id: Seq<char>,
        id: Seq<char>,
        now: int,
    ) -> (DatabaseView, NameReturn) {
        let (first, existing) = self.get_post_by_id(post_id);
        if !existing.success {
            (first, failure("Post does not exist!"@, None))
        } else if existing.payload->0.author == user {
            (first, failure("You're the post author!"@, None))
        } else {
            match first.favorite_log(user, post_id) {
                Some(log) => first.counted(post_id, false, first.base.delete_log(log.id)),
                None => first.counted(
                    post_id,
                    true,
                    first.base.create_log(
                        "post_favorite"@,
                        favorite_content(user, post_id),
                        id,
                        now,
                    ),
                ),
            }
        }
    }
}

/// The whole database: that of users and logs, the tables of posts and boards, and the
/// cache of posts, held in memory. Its operations run one at a time, each on the state that
/// the one before left, so that a check and the change that rests on it are never parted.
pub struct Database {
    base: GuppyDB,
    posts: Table<ActivityPost>,
    boards: Table<Board>,
    post_cache: CacheDB<ActivityPost>,
    replies_cache: CacheDB<Vec<ActivityPost>>,
    feed_cache: CacheDB<Vec<ActivityPost>>,
    favorites: CacheDB<i32>,
}

impl Database {
    /// The state of the database.
    pub closed spec fn view(&self) -> DatabaseView {
        DatabaseView {
            base: self.base@,
            posts: self.posts@,
            boards: self.boards@,
            post_cache: self.post_cache@,
            replies_cache: self.replies_cache@,
            feed_cache: self.feed_cache@,
            favorites: self.favorites@,
        }
    }

    /// What the database keeps true of itself.
    pub closed spec fn wf(&self) -> bool {
        &&& self.base.wf()
        &&& self.posts.wf()
        &&& self.boards.wf()
        &&& self.post_cache.wf()
        &&& self.replies_cache.wf()
        &&& self.feed_cache.wf()
        &&& self.favorites.wf()
        &&& self@.coherent()
    }

    /// A well-formed database is in a coherent state.
    pub proof fn lemma_coherent(&self)
        requires
            self.wf(),
        ensures
            self@.coherent(),
    {
    }

    /// A database with empty tables and an empty cache.
    pub fn new() -> (db: Database)
        ensures
            db.wf(),
            db@ == DatabaseView::empty(),
    {
        let base = GuppyDB::new();
        proof {
            base.lemma_coherent();
        }
        Database {
            base,
            posts: Table::new(),
            boards: Table::new(),
            post_cache: CacheDB::new(),
            replies_cache: CacheDB::new(),
            feed_cache: CacheDB::new(),
            favorites: CacheDB::new(),
        }
    }

    /// Get an [`ActivityPost`] by its id.
    pub fn get_post_by_id(&mut self, id: String) -> (out: DefaultReturn<Option<ActivityPost>>)
        requires
            old(self).wf(),
        ensures
            final(self).wf(),
            (final(self)@, out.model()) == old(self)@.get_post_by_id(id@),
    {
        let key = post_key_text(id.as_str());
        match self.post_cache.get(&key) {
            Some(post) => {
                return succeed("Post exists (cache)", Some(post));
            },
            None => {},
        }
        let ghost before = self@;
        match self.posts.get(&id) {
            None => fail("Post does not exist", None),
            Some(post) => {
                self.post_cache.set(key, post.replica());
                proof {
                    let state = self@;
                    assert forall|other: Seq<char>| #[trigger]
                        state.post_cache.contains_key(post_key(other)) implies find_key::<
                        ActivityPost,
                    >(state.posts, other) == Some(state.post_cache[post_key(other)]) by {
                        if post_key(other) == post_key(id@) {
                            lemma_same_prefix("post:"@, other, id@);
                        } else {
                            assert(before.post_cache.contains_key(post_key(other)));
                        }
                    }
                    before.lemma_replies_kept(state);
                    before.lemma_feeds_kept(state);
                }
                succeed("Post exists", Some(post))
            },
        }
    }

    /// The replies to a post, from the cache or the table.
    fn show_replies(&mut self, id: String) -> (out: DefaultReturn<Option<Vec<ActivityPost>>>)
        requires
            old(self).wf(),
        ensures
            final(self).wf(),
            (final(self)@, out.model()) == old(self)@.replies_shown(id@),
    {
        let key = replies_key_text(id.as_str());
        match self.replies_cache.get(&key) {
            Some(posts) => {
                return succeed("Successfully fetched posts", Some(posts));
            },
            None => {},
        }
        let ghost before = self@;
        let posts = self.posts.page(&PostReplyTo { parent: id.clone() }, REPLIES_LIMIT, 0);
        self.replies_cache.set(key, posts.replica());
        proof {
            let state = self@;
            before.lemma_post_cache_kept(state);
            before.lemma_feeds_kept(state);
            assert forall|other: Seq<char>|
                other.len() > 0 && #[trigger] state.replies_cache.contains_key(
                    replies_key(other),
                ) implies state.replies_cache[replies_key(other)] == state.replies_of(other) by {
                if replies_key(other) == replies_key(id@) {
                    lemma_same_prefix("post-replies:"@, other, id@);
                } else {
                    assert(before.replies_cache.contains_key(replies_key(other)));
                }
            }
        }
        succeed("Successfully fetched replies", Some(posts))
    }

    /// Get the posts that reply to the post of the id.
    pub fn get_post_replies(&mut self, id: String, run_existing_check: bool) -> (out:
        DefaultReturn<Option<Vec<ActivityPost>>>)
        requires
            old(self).wf(),
        ensures
            final(self).wf(),
            (final(self)@, out.model()) == old(self)@.get_post_replies(id@, run_existing_check),
    {
        if run_existing_check {
            let existing = self.get_post_by_id(id.clone());
            if !existing.success {
                return fail("Post does not exist", None);
            }
        }
        self.show_replies(id)
    }

    /// Get the number of favorites that a post has.
    pub fn get_post_favorites(&mut self, id: String) -> (out: DefaultReturn<i32>)
        requires
            old(self).wf(),
        ensures
            final(self).wf(),
            (final(self)@, out.model()) == old(self)@.get_post_favorites(id@),
    {
        let existing = self.get_post_by_id(id.clone());
        if !existing.success {
            return fail("Post does not exist!", 0);
        }
        let count: i32 = match self.favorites.get(&favorites_key_text(id.as_str())) {
            Some(count) => count,
            None => 0,
        };
        DefaultReturn { success: true, message: id, payload: count }
    }

    /// Takes from the cache the lists that a post stands in.
    fn forget_lists_of(&mut self, author: &String, reply: &String)
        requires
            old(self).wf(),
        ensures
            final(self).wf(),
            final(self)@ == old(self)@.without_lists_of(author@, reply@),
    {
        let ghost before = self@;
        if reply.as_str().unicode_len() == 0 {
            self.feed_cache.remove_starting_with(&feed_prefix_text(author.as_str()));
        } else {
            self.replies_cache.remove(&replies_key_text(reply.as_str()));
        }
        proof {
            before.lemma_posts_kept(self@);
        }
    }

    /// Create a new [`ActivityPost`], with a fresh id and the time of the clock. The
    /// caller hands in the content as rendered.
    pub fn create_activity_post(&mut self, props: &PCreatePost, content_html: String) -> (out:
        DefaultReturn<Option<ActivityPost>>)
        requires
            old(self).wf(),
        ensures
            final(self).wf(),
            exists|id: Seq<char>, now: int|
                (final(self)@, out.model()) == old(self)@.create_activity_post(
                    (props.content@, props.author@, props.reply@),
                    content_html@,
                    id,
                    now,
                ),
    {
        let id = random_id();
        let now: u128 = unix_epoch_timestamp();
        self.create_activity_post_with(props, content_html, id, now)
    }

    /// Create a new [`ActivityPost`], given its rendered content, its id and the time.
    pub fn create_activity_post_with(
        &mut self,
        props: &PCreatePost,
        content_html: String,
        id: String,
        now: u128,
    ) -> (out: DefaultReturn<Option<ActivityPost>>)
        requires
            old(self).wf(),
        ensures
            final(self).wf(),
            (final(self)@, out.model()) == old(self)@.create_activity_post(
                (props.content@, props.author@, props.reply@),
                content_html@,
                id@,
                now as int,
            ),
    {
        if !is_valid_content(&props.content) {
            return fail("Content is invalid", None);
        }
        let ghost start = self@;
        let existing = self.base.get_user_by_username(props.author.clone());
        proof {
            self.base.lemma_coherent();
            start.lemma_posts_kept(self@);
        }
        if !existing.success {
            return fail("User does not exist", None);
        }
        if props.reply.as_str().unicode_len() != 0 {
            let parent = self.get_post_by_id(props.reply.clone());
            if !parent.success {
                return parent;
            }
        }
        self.forget_lists_of(&props.author, &props.reply);
        let post = ActivityPost {
            id,
            content: props.content.clone(),
            content_html,
            author: props.author.clone(),
            reply: props.reply.clone(),
            timestamp: now,
        };
        let ghost before = self@;
        proof {
            if !has_key::<ActivityPost>(before.posts, post.id@) {
                lemma_with_row::<ActivityPost>(before.posts, post.model());
            }
        }
        match self.posts.insert(post.replica()) {
            Err(error) => DefaultReturn { success: false, message: error.to_string(), payload: None },
            Ok(()) => {
                proof {
                    let state = self@;
                    let row = post.model();
                    assert forall|other: Seq<char>| #[trigger]
                        state.post_cache.contains_key(post_key(other)) implies find_key::<
                        ActivityPost,
                    >(state.posts, other) == Some(state.post_cache[post_key(other)]) by {
                        assert(before.post_cache.contains_key(post_key(other)));
                    }
                    assert forall|other: Seq<char>|
                        other.len() > 0 && #[trigger] state.replies_cache.contains_key(
                            replies_key(other),
                        ) implies state.replies_cache[replies_key(other)] == state.replies_of(
                        other,
                    ) by {
                        assert(before.replies_cache.contains_key(replies_key(other)));
                        assert(row.reply != other);
                        lemma_filter_with_row::<ActivityPost>(before.posts, row, reply_to(other));
                    }
                    assert forall|other: Seq<char>, from: int| #[trigger]
                        state.feed_cache.contains_key(
                            feed_key(other, from),
                        ) implies state.feed_cache[feed_key(other, from)] == state.feed_of(
                        other,
                        from,
                    ) by {
                        assert(before.feed_cache.contains_key(feed_key(other, from)));
                        if row.reply.len() == 0 && other == row.author {
                            lemma_feed_key_begins(other, from);
                        }
                        lemma_filter_with_row::<ActivityPost>(
                            before.posts,
                            row,
                            root_post_by(other),
                        );
                    }
                }
                succeed("Post created", Some(post))
            },
        }
    }

    /// Delete an existing [`ActivityPost`] as the user of the name.
    pub fn delete_activity_post(&mut self, id: String, as_user: Option<String>) -> (out:
        DefaultReturn<bool>)
        requires
            old(self).wf(),
        ensures
            final(self).wf(),
            (final(self)@, out.model()) == old(self)@.delete_activity_post(id@, as_user.model()),
    {
        let existing = self.get_post_by_id(id.clone());
        let post = match existing.payload {
            Some(post) => post,
            None => {
                return DefaultReturn { success: false, message: existing.message, payload: false };
            },
        };
        let name = match as_user {
            Some(name) => name,
            None => {
                return fail("You do not have permission to do this.", false);
            },
        };
        let ghost start = self@;
        let user = self.base.get_user_by_username(name);
        proof {
            self.base.lemma_coherent();
            start.lemma_posts_kept(self@);
        }
        match user.payload {
            None => {
                return fail("User does not exist.", false);
            },
            Some(found) => {
                if found.user.username != post.author && !has_permission(
                    &found.level,
                    "ManagePosts",
                ) {
                    return fail("You do not have permission to do this.", false);
                }
            },
        }
        self.forget_lists_of(&post.author, &post.reply);
        let ghost before = self@;
        proof {
            lemma_without_key::<ActivityPost>(before.posts, id@);
            assert(find_key::<ActivityPost>(before.posts, id@) == Some(post.model()));
        }
        self.posts.delete(&id);
        self.post_cache.remove(&post_key_text(id.as_str()));
        proof {
            let state = self@;
            let row = post.model();
            assert forall|other: Seq<char>| #[trigger]
                state.post_cache.contains_key(post_key(other)) implies find_key::<ActivityPost>(
                state.posts,
                other,
            ) == Some(state.post_cache[post_key(other)]) by {
                if other != id@ {
                    assert(before.post_cache.contains_key(post_key(other)));
                }
            }
            assert forall|other: Seq<char>|
                other.len() > 0 && #[trigger] state.replies_cache.contains_key(
                    replies_key(other),
                ) implies state.replies_cache[replies_key(other)] == state.replies_of(other) by {
                assert(before.replies_cache.contains_key(replies_key(other)));
                assert(row.reply != other);
                lemma_filter_without_key::<ActivityPost>(before.posts, id@, reply_to(other));
            }
            assert forall|other: Seq<char>, from: int| #[trigger]
                state.feed_cache.contains_key(
                    feed_key(other, from),
                ) implies state.feed_cache[feed_key(other, from)] == state.feed_of(
                other,
                from,
            ) by {
                assert(before.feed_cache.contains_key(feed_key(other, from)));
                if row.reply.len() == 0 && other == row.author {
                    lemma_feed_key_begins(other, from);
                }
                lemma_filter_without_key::<ActivityPost>(before.posts, id@, root_post_by(other));
            }
        }
        succeed("Post deleted", false)
    }

    /// Check whether a user has favorited a post.
    pub fn get_user_post_favorite(
        &mut self,
        user: String,
        post_id: String,
        skip_existing_check: bool,
    ) -> (out: DefaultReturn<Option<Log>>)
        requires
            old(self).wf(),
        ensures
            final(self).wf(),
            (final(self)@, out.model()) == old(self)@.get_user_post_favorite(
                user@,
                post_id@,
                skip_existing_check,
            ),
    {
        if !skip_existing_check {
            let existing = self.get_post_by_id(post_id.clone());
            if !existing.success {
                return fail("Post does not exist!", None);
            }
        }
        let filter = LogIs {
            logtype: String::from_str("post_favorite"),
            content: favorite_content_text(user.as_str(), post_id.as_str()),
        };
        match self.base.first_log(&filter) {
            None => DefaultReturn {
                success: false,
                message: StoreError::RowNotFound.to_string(),
                payload: None,
            },
            Some(log) => DefaultReturn { success: true, message: post_id, payload: Some(log) },
        }
    }

    /// Toggle the favorite of `user` on the post, with a fresh id and the time of the
    /// clock for a new log.
    pub fn toggle_user_post_favorite(&mut self, user: String, post_id: String) -> (out:
        DefaultReturn<Option<String>>)
        requires
            old(self).wf(),
        ensures
            final(self).wf(),
            exists|id: Seq<char>, now: int|
                (final(self)@, out.model()) == old(self)@.toggle_user_post_favorite(
                    user@,
                    post_id@,
                    id,
                    now,
                ),
    {
        let id = random_id();
        let now: u128 = unix_epoch_timestamp();
        self.toggle_user_post_favorite_with(user, post_id, id, now)
    }

    /// Toggle the favorite of `user` on the post, given the id and the time for a new log.
    pub fn toggle_user_post_favorite_with(
        &mut self,
        user: String,
        post_id: String,
        id: String,
        now: u128,
    ) -> (out: DefaultReturn<Option<String>>)
        requires
            old(self).wf(),
        ensures
            final(self).wf(),
            (final(self)@, out.model()) == old(self)@.toggle_user_post_favorite(
                user@,
                post_id@,
                id@,
                now as int,
            ),
    {
        let existing = self.get_post_by_id(post_id.clone());
        let post = match existing.payload {
            Some(post) => post,
            None => {
                return fail("Post does not exist!", None);
            },
        };
        if post.author == user {
            return fail("You're the post author!", None);
        }
        let favorite = self.get_user_post_favorite(user.clone(), post_id.clone(), true);
        let ghost start = self@;
        let out = match favorite.payload {
            Some(log) => {
                let out = self.base.delete_log(log.id);
                if out.success {
                    self.favorites.decr(favorites_key_text(post_id.as_str()));
                }
                out
            },
            None => {
                let out = self.base.create_log_with(
                    String::from_str("post_favorite"),
                    favorite_content_text(user.as_str(), post_id.as_str()),
                    id,
                    now,
                );
                if out.success {
                    self.favorites.incr(favorites_key_text(post_id.as_str()));
                }
                out
            },
        };
        proof {
            self.base.lemma_coherent();
            start.lemma_posts_kept(self@);
        }
        out
    }
}

/// The boards whose metadata holds the text.
pub open spec fn board_like(needle: Seq<char>) -> spec_fn(BoardModel) -> bool {
    |row: BoardModel| contains(row.metadata, needle)
}

/// The boards whose metadata holds one of two texts.
pub open spec fn board_like_either(first: Seq<char>, second: Seq<char>) -> spec_fn(
    BoardModel,
) -> bool {
    |row: BoardModel| contains(row.metadata, first) || contains(row.metadata, second)
}

/// `WHERE "metadata" LIKE ?`, with the text between two `%`.
pub struct BoardLike {
    pub needle: String,
}

impl Filter<Board> for BoardLike {
    open spec fn condition(&self) -> spec_fn(BoardModel) -> bool {
        board_like(self.needle@)
    }

    fn test(&self, row: &Board) -> (admitted: bool) {
        text_contains(row.metadata.as_str(), self.needle.as_str())
    }
}

/// `WHERE "metadata" LIKE ? OR "metadata" LIKE ?`, with each text between two `%`.
pub struct BoardLikeEither {
    pub first: String,
    pub second: String,
}

impl Filter<Board> for BoardLikeEither {
    open spec fn condition(&self) -> spec_fn(BoardModel) -> bool {
        board_like_either(self.first@, self.second@)
    }

    fn test(&self, row: &Board) -> (admitted: bool) {
        text_contains(row.metadata.as_str(), self.first.as_str()) || text_contains(
            row.metadata.as_str(),
            self.second.as_str(),
        )
    }
}

/// How many mail streams a page holds at most.
pub const STREAM_PAGE: usize = 50;

/// A post with the replies to it and the count of its favorites.
pub type JoinedPost = (PostModel, Seq<PostModel>, int);

/// The result of a lookup of posts with their replies and favorites.
pub type JoinedReturn = DefaultReturnModel<Option<Seq<JoinedPost>>>;

/// The result of a lookup of one board.
pub type BoardReturn = DefaultReturnModel<Option<BoardModel>>;

/// What the list of a user's mail streams shows of a board: its name and the other of the
/// two users, as the mark in the board's metadata names them. Where the mark cannot be
/// read, the other user is left empty.
pub open spec fn stream_entry(board: BoardModel, user: Seq<char>) -> MailStreamEntryModel {
    let other = match string_field_of(board.metadata, "about"@) {
        Some(about) => match (string_field_of(about, "user1"@), string_field_of(about, "user2"@)) {
            (Some(user1), Some(user2)) => if user1 == user {
                user2
            } else {
                user1
            },
            _ => Seq::empty(),
        },
        None => Seq::empty(),
    };
    MailStreamEntryModel { name: board.name, other }
}

/// What the list of a user's mail streams shows of a board.
pub fn stream_entry_of(board: &Board, user: &String) -> (out: MailStreamEntry)
    ensures
        out.model() == stream_entry(board.model(), user@),
{
    let other = match string_field(board.metadata.as_str(), "about") {
        Some(about) => match parse(about.as_str()) {
            Some(mark) => match (text_member(&mark, "user1"), text_member(&mark, "user2")) {
                (Some(user1), Some(user2)) => if user1 == *user {
                    user2
                } else {
                    user1
                },
                _ => String::new(),
            },
            None => String::new(),
        },
        None => String::new(),
    };
    MailStreamEntry { name: board.name.clone(), other }
}

impl DatabaseView {
    /// Each post with the replies to it and the count of its favorites, looked up one
    /// after the other, and the state after the lookups.
    pub open spec fn joined(self, posts: Seq<PostModel>) -> (DatabaseView, Seq<JoinedPost>)
        decreases posts.len(),
    {
        if posts.len() == 0 {
            (self, Seq::empty())
        } else {
            let (before, rows) = self.joined(posts.drop_last());
            let post = posts.last();
            let (first, replies) = before.get_post_replies(post.id, false);
            let (second, favorites) = first.get_post_favorites(post.id);
            (second, rows.push((post, replies.payload->0, favorites.payload)))
        }
    }

    /// One page of a user's feed as the table has it: the posts of their own, newest first.
    pub open spec fn feed_of(self, username: Seq<char>, offset: int) -> Seq<PostModel> {
        window(self.posts.filter(root_post_by(username)), offset, FEED_PAGE as int)
    }

    /// One page of a user's feed as a lookup hands it out: from the cache where it holds
    /// the page, else from the table, and then into the cache.
    pub open spec fn feed_shown(self, username: Seq<char>, offset: int) -> (
        DatabaseView,
        Seq<PostModel>,
    ) {
        if self.feed_cache.contains_key(feed_key(username, offset)) {
            (self, self.feed_cache[feed_key(username, offset)])
        } else {
            (
                DatabaseView {
                    feed_cache: self.feed_cache.insert(
                        feed_key(username, offset),
                        self.feed_of(username, offset),
                    ),
                    ..self
                },
                self.feed_of(username, offset),
            )
        }
    }

    /// `get_user_activity`: one page of the feed of a user who is found, each post with
    /// its replies and the count of its favorites.
    pub open spec fn get_user_activity(self, username: Seq<char>, offset: Option<int>) -> (
        DatabaseView,
        JoinedReturn,
    ) {
        let (first, existing) = self.on_base(self.base.get_user_by_username(username));
        if !existing.success {
            (first, failure("User does not exist"@, None))
        } else {
            let (second, posts) = first.feed_shown(username, offset.unwrap_or(0));
            let (third, rows) = second.joined(posts);
            (third, success("Successfully fetched posts"@, Some(rows)))
        }
    }

    /// `get_post_replies_full`: the replies to a post, each with its own replies and the
    /// count of its favorites; where asked, only if the post exists.
    pub open spec fn get_post_replies_full(self, id: Seq<char>, run_existing_check: bool) -> (
        DatabaseView,
        JoinedReturn,
    ) {
        let (first, shown) = self.get_post_replies(id, run_existing_check);
        if !shown.success {
            (first, failure(shown.message, None))
        } else {
            let (second, rows) = first.joined(shown.payload->0);
            (second, success(shown.message, Some(rows)))
        }
    }

    /// The board of the mail stream that `user1` opened with `user2`.
    pub open spec fn stream_board(self, user1: Seq<char>, user2: Seq<char>) -> Option<BoardModel> {
        first_admitted(self.boards, board_like(stream_needle(user1, user2)))
    }

    /// `get_mail_stream_by_users`: the board of the mail stream that `user1` opened with
    /// `user2`. The stream that `user2` opened with `user1` is another lookup.
    pub open spec fn get_mail_stream_by_users(self, user1: Seq<char>, user2: Seq<char>) -> BoardReturn {
        match self.stream_board(user1, user2) {
            None => failure("Mail stream does not exist"@, None),
            Some(board) => success("Mail stream exists"@, Some(board)),
        }
    }

    /// `create_mail_stream`: the board of the stream of the two users, whoever opened it,
    /// where there is one. Else a new board, where `user2` is found and does not refuse
    /// mail. The store refuses a name that is taken.
    pub open spec fn create_mail_stream(
        self,
        user1: Seq<char>,
        user2: Seq<char>,
        id: Seq<char>,
        now: int,
    ) -> (DatabaseView, BoardReturn) {
        if self.stream_board(user1, user2) is Some {
            (self, self.get_mail_stream_by_users(user1, user2))
        } else if self.stream_board(user2, user1) is Some {
            (self, self.get_mail_stream_by_users(user2, user1))
        } else {
            let (next, existing) = self.on_base(self.base.get_user_by_username(user2));
            if !existing.success {
                (next, failure("User does not exist"@, None))
            } else if string_field_of(existing.payload->0.user.metadata, "allow_mail"@) == Some(
                "no"@,
            ) {
                (next, failure("User is not accepting mail"@, None))
            } else {
                let board = BoardModel {
                    name: stream_name(id),
                    timestamp: now,
                    metadata: stream_metadata(user1, user2),
                };
                if has_key::<Board>(next.boards, board.name) {
                    (next, failure(duplicate_key_words(), None))
                } else {
                    (
                        DatabaseView { boards: with_row::<Board>(next.boards, board), ..next },
                        success("Mail stream created"@, Some(board)),
                    )
                }
            }
        }
    }

    /// The boards of the mail streams of a user, newest first.
    pub open spec fn streams_of(self, user: Seq<char>) -> Seq<BoardModel> {
        self.boards.filter(board_like_either(first_user_needle(user), second_user_needle(user)))
    }

    /// `get_user_mail_streams`: one page of the mail streams of a user, each with the
    /// other user.
    pub open spec fn get_user_mail_streams(self, user: Seq<char>, offset: Option<int>) -> DefaultReturnModel<
        Option<Seq<MailStreamEntryModel>>,
    > {
        success(
            "Mail streams exist"@,
            Some(
                window(self.streams_of(user), offset.unwrap_or(0), STREAM_PAGE as int).map_values(
                    |board: BoardModel| stream_entry(board, user),
                ),
            ),
        )
    }
}

impl Database {
    /// Looks up the replies and the favorites of each post.
    fn join(&mut self, posts: Vec<ActivityPost>) -> (rows: Vec<
        (ActivityPost, Vec<ActivityPost>, i32),
    >)
        requires
            old(self).wf(),
        ensures
            final(self).wf(),
            (final(self)@, rows.model()) == old(self)@.joined(posts.model()),
    {
        let ghost start = self@;
        let mut rows: Vec<(ActivityPost, Vec<ActivityPost>, i32)> = Vec::new();
        let mut i: usize = 0;
        proof {
            assert(posts.model().take(0) =~= Seq::<PostModel>::empty());
            assert(rows.model() =~= Seq::<JoinedPost>::empty());
        }
        while i < posts.len()
            invariant
                self.wf(),
                i <= posts@.len(),
                (self@, rows.model()) == start.joined(posts.model().take(i as int)),
            decreases posts@.len() - i,
        {
            let post = posts[i].replica();
            let replies = self.get_post_replies(post.id.clone(), false);
            let favorites = self.get_post_favorites(post.id.clone());
            let found = match replies.payload {
                Some(found) => found,
                None => Vec::new(),
            };
            proof {
                let so_far = posts.model().take(i as int);
                let next = posts.model().take(i + 1);
                assert(next.drop_last() =~= so_far);
                assert(next.last() == post.model());
                lemma_models_push(rows@, (post, found, favorites.payload));
            }
            rows.push((post, found, favorites.payload));
            i += 1;
        }
        assert(posts.model().take(i as int) =~= posts.model());
        rows
    }

    /// One page of a user's feed, from the cache or the table.
    fn show_feed(&mut self, username: &String, offset: i32) -> (posts: Vec<ActivityPost>)
        requires
            old(self).wf(),
        ensures
            final(self).wf(),
            (final(self)@, posts.model()) == old(self)@.feed_shown(username@, offset as int),
    {
        let key = feed_key_text(username.as_str(), offset);
        match self.feed_cache.get(&key) {
            Some(posts) => {
                return posts;
            },
            None => {},
        }
        let ghost before = self@;
        let posts = self.posts.page(&RootPostBy { author: username.clone() }, FEED_PAGE, offset);
        self.feed_cache.set(key, posts.replica());
        proof {
            let state = self@;
            before.lemma_post_cache_kept(state);
            before.lemma_replies_kept(state);
            assert forall|other: Seq<char>, from: int| #[trigger]
                state.feed_cache.contains_key(
                    feed_key(other, from),
                ) implies state.feed_cache[feed_key(other, from)] == state.feed_of(
                other,
                from,
            ) by {
                if feed_key(other, from) == feed_key(username@, offset as int) {
                    lemma_feed_key_tells(other, from, username@, offset as int);
                } else {
                    assert(before.feed_cache.contains_key(feed_key(other, from)));
                }
            }
        }
        posts
    }

    /// Get one page of the posts of a user, each with its replies and the number of its
    /// favorites.
    pub fn get_user_activity(&mut self, username: String, offset: Option<i32>) -> (out:
        DefaultReturn<Option<Vec<(ActivityPost, Vec<ActivityPost>, i32)>>>)
        requires
            old(self).wf(),
        ensures
            final(self).wf(),
            (final(self)@, out.model()) == old(self)@.get_user_activity(username@, offset.model()),
    {
        let from: i32 = match offset {
            Some(offset) => offset,
            None => 0,
        };
        let ghost start = self@;
        let existing = self.base.get_user_by_username(username.clone());
        proof {
            self.base.lemma_coherent();
            start.lemma_posts_kept(self@);
        }
        if !existing.success {
            return fail("User does not exist", None);
        }
        let posts = self.show_feed(&username, from);
        let rows = self.join(posts);
        succeed("Successfully fetched posts", Some(rows))
    }

    /// Get the posts that reply to the post of the id, each with its own replies and the
    /// number of its favorites.
    pub fn get_post_replies_full(&mut self, id: String, run_existing_check: bool) -> (out:
        DefaultReturn<Option<Vec<(ActivityPost, Vec<ActivityPost>, i32)>>>)
        requires
            old(self).wf(),
        ensures
            final(self).wf(),
            (final(self)@, out.model()) == old(self)@.get_post_replies_full(
                id@,
                run_existing_check,
            ),
    {
        let shown = self.get_post_replies(id, run_existing_check);
        match shown.payload {
            None => DefaultReturn { success: false, message: shown.message, payload: None },
            Some(posts) => {
                let rows = self.join(posts);
                DefaultReturn { success: true, message: shown.message, payload: Some(rows) }
            },
        }
    }

    /// Get the board of the mail stream that `user1` opened with `user2`.
    pub fn get_mail_stream_by_users(&self, user1: String, user2: String) -> (out: DefaultReturn<
        Option<Board>,
    >)
        requires
            self.wf(),
        ensures
            out.model() == self@.get_mail_stream_by_users(user1@, user2@),
    {
        let filter = BoardLike { needle: stream_needle_text(user1.as_str(), user2.as_str()) };
        match self.boards.first(&filter) {
            None => fail("Mail stream does not exist", None),
            Some(board) => succeed("Mail stream exists", Some(board)),
        }
    }

    /// Create the mail stream of two users, unless there is one, with a fresh id and the
    /// time of the clock for a new board.
    pub fn create_mail_stream(&mut self, props: &UserMailStreamIdentifier) -> (out:
        DefaultReturn<Option<Board>>)
        requires
            old(self).wf(),
        ensures
            final(self).wf(),
            exists|id: Seq<char>, now: int|
                (final(self)@, out.model()) == old(self)@.create_mail_stream(
                    props.user1@,
                    props.user2@,
                    id,
                    now,
                ),
    {
        let id = random_id();
        let now: u128 = unix_epoch_timestamp();
        self.create_mail_stream_with(props, id, now)
    }

    /// Create the mail stream of two users, unless there is one, given the id and the
    /// time for a new board.
    pub fn create_mail_stream_with(
        &mut self,
        props: &UserMailStreamIdentifier,
        id: String,
        now: u128,
    ) -> (out: DefaultReturn<Option<Board>>)
        requires
            old(self).wf(),
        ensures
            final(self).wf(),
            (final(self)@, out.model()) == old(self)@.create_mail_stream(
                props.user1@,
                props.user2@,
                id@,
                now as int,
            ),
    {
        let existing = self.get_mail_stream_by_users(props.user1.clone(), props.user2.clone());
        if existing.success {
            return existing;
        }
        let existing = self.get_mail_stream_by_users(props.user2.clone(), props.user1.clone());
        if existing.success {
            return existing;
        }
        let ghost start = self@;
        let found = self.base.get_user_by_username(props.user2.clone());
        proof {
            self.base.lemma_coherent();
            start.lemma_posts_kept(self@);
        }
        let user = match found.payload {
            Some(user) => user,
            None => {
                return fail("User does not exist", None);
            },
        };
        match string_field(user.user.metadata.as_str(), "allow_mail") {
            Some(answer) => {
                if answer == String::from_str("no") {
                    return fail("User is not accepting mail", None);
                }
            },
            None => {},
        }
        let board = Board {
            name: stream_name_text(id.as_str()),
            timestamp: now,
            metadata: stream_metadata_text(props.user1.as_str(), props.user2.as_str()),
        };
        let ghost before = self@;
        proof {
            if !has_key::<Board>(before.boards, board.name@) {
                lemma_with_row::<Board>(before.boards, board.model());
            }
        }
        match self.boards.insert(board.replica()) {
            Err(error) => DefaultReturn { success: false, message: error.to_string(), payload: None },
            Ok(()) => {
                proof {
                    let state = self@;
                    before.lemma_post_cache_kept(state);
                    before.lemma_replies_kept(state);
                    before.lemma_feeds_kept(state);
                }
                succeed("Mail stream created", Some(board))
            },
        }
    }

    /// Get one page of the mail streams of a user, newest first.
    pub fn get_user_mail_streams(&self, user: String, offset: Option<i32>) -> (out: DefaultReturn<
        Option<Vec<MailStreamEntry>>,
    >)
        requires
            self.wf(),
        ensures
            out.model() == self@.get_user_mail_streams(user@, offset.model()),
    {
        let filter = BoardLikeEither {
            first: first_user_needle_text(user.as_str()),
            second: second_user_needle_text(user.as_str()),
        };
        let from: i32 = match offset {
            Some(offset) => offset,
            None => 0,
        };
        let boards = self.boards.page(&filter, STREAM_PAGE, from);
        let mut entries: Vec<MailStreamEntry> = Vec::new();
        let mut i: usize = 0;
        while i < boards.len()
            invariant
                i <= boards@.len(),
                entries@.len() == i,
                forall|k: int|
                    0 <= k < i ==> (#[trigger] entries@[k]).model() == stream_entry(
                        boards@[k].model(),
                        user@,
                    ),
            decreases boards@.len() - i,
        {
            entries.push(stream_entry_of(&boards[i], &user));
            i += 1;
        }
        assert(entries.model() =~= boards.model().map_values(
            |board: BoardModel| stream_entry(board, user@),
        ));
        succeed("Mail streams exist", Some(entries))
    }
}

impl Database {
    /// Get a user by their hashed id.
    pub fn get_user_by_hashed(
        &mut self,
        hashed: String,
    ) -> (out: DefaultReturn<Option<FullUser<String>>>)
        requires
            old(self).wf(),
        ensures
            final(self).wf(),
            (final(self)@, out.model()) == old(self)@.on_base(
                old(self)@.base.get_user_by_hashed(hashed@),
            ),
    {
        let ghost start = self@;
        let out = self.base.get_user_by_hashed(hashed);
        proof {
            self.base.lemma_coherent();
            start.lemma_posts_kept(self@);
        }
        out
    }

    /// Get a user by their unhashed id; where no user has it, by their unhashed secondary
    /// token.
    pub fn get_user_by_unhashed(
        &mut self,
        unhashed: String,
    ) -> (out: DefaultReturn<Option<FullUser<String>>>)
        requires
            old(self).wf(),
        ensures
            final(self).wf(),
            (final(self)@, out.model()) == old(self)@.on_base(
                old(self)@.base.get_user_by_unhashed(unhashed@),
            ),
    {
        let ghost start = self@;
        let out = self.base.get_user_by_unhashed(unhashed);
        proof {
            self.base.lemma_coherent();
            start.lemma_posts_kept(self@);
        }
        out
    }

    /// Get a user by their unhashed secondary token.
    pub fn get_user_by_unhashed_st(
        &mut self,
        unhashed: String,
    ) -> (out: DefaultReturn<Option<FullUser<String>>>)
        requires
            old(self).wf(),
        ensures
            final(self).wf(),
            (final(self)@, out.model()) == old(self)@.on_base(
                old(self)@.base.get_user_by_unhashed_st(unhashed@),
            ),
    {
        let ghost start = self@;
        let out = self.base.get_user_by_unhashed_st(unhashed);
        proof {
            self.base.lemma_coherent();
            start.lemma_posts_kept(self@);
        }
        out
    }

    /// Get a user by their username.
    pub fn get_user_by_username(
        &mut self,
        username: String,
    ) -> (out: DefaultReturn<Option<FullUser<String>>>)
        requires
            old(self).wf(),
        ensures
            final(self).wf(),
            (final(self)@, out.model()) == old(self)@.on_base(
                old(self)@.base.get_user_by_username(username@),
            ),
    {
        let ghost start = self@;
        let out = self.base.get_user_by_username(username);
        proof {
            self.base.lemma_coherent();
            start.lemma_posts_kept(self@);
        }
        out
    }

    /// Get a [`RoleLevel`] by the name of its role.
    pub fn get_level_by_role(&mut self, name: String) -> (out: DefaultReturn<RoleLevelLog>)
        requires
            old(self).wf(),
        ensures
            final(self).wf(),
            (final(self)@, out.model()) == old(self)@.on_base(
                old(self)@.base.get_level_by_role(name@),
            ),
    {
        let ghost start = self@;
        let out = self.base.get_level_by_role(name);
        proof {
            self.base.lemma_coherent();
            start.lemma_posts_kept(self@);
        }
        out
    }

    /// Create a new user given their username, with a fresh unhashed id and the time of
    /// the clock.
    pub fn create_user(&mut self, username: String) -> (out: DefaultReturn<Option<String>>)
        requires
            old(self).wf(),
        ensures
            final(self).wf(),
            exists|unhashed: Seq<char>, now: int|
                (final(self)@, out.model()) == old(self)@.on_base(
                    old(self)@.base.create_user(username@, unhashed, now),
                ),
    {
        let ghost start = self@;
        let out = self.base.create_user(username);
        proof {
            self.base.lemma_coherent();
            start.lemma_posts_kept(self@);
        }
        out
    }

    /// Create a new user given their username, their unhashed id and the time.
    pub fn create_user_with(
        &mut self,
        username: String,
        unhashed: String,
        now: u128,
    ) -> (out: DefaultReturn<Option<String>>)
        requires
            old(self).wf(),
        ensures
            final(self).wf(),
            (final(self)@, out.model()) == old(self)@.on_base(
                old(self)@.base.create_user(username@, unhashed@, now as int),
            ),
    {
        let ghost start = self@;
        let out = self.base.create_user_with(username, unhashed, now);
        proof {
            self.base.lemma_coherent();
            start.lemma_posts_kept(self@);
        }
        out
    }

    /// Update a user's metadata by their username.
    pub fn edit_user_metadata_by_name(
        &mut self,
        name: String,
        metadata: UserMetadata,
    ) -> (out: DefaultReturn<Option<String>>)
        requires
            old(self).wf(),
        ensures
            final(self).wf(),
            (final(self)@, out.model()) == old(self)@.on_base(
                old(self)@.base.edit_user_metadata_by_name(name@, metadata.model()),
            ),
    {
        let ghost start = self@;
        let out = self.base.edit_user_metadata_by_name(name, metadata);
        proof {
            self.base.lemma_coherent();
            start.lemma_posts_kept(self@);
        }
        out
    }

    /// Ban a user by their username.
    pub fn ban_user_by_name(&mut self, name: String) -> (out: DefaultReturn<Option<String>>)
        requires
            old(self).wf(),
        ensures
            final(self).wf(),
            (final(self)@, out.model()) == old(self)@.on_base(
                old(self)@.base.ban_user_by_name(name@),
            ),
    {
        let ghost start = self@;
        let out = self.base.ban_user_by_name(name);
        proof {
            self.base.lemma_coherent();
            start.lemma_posts_kept(self@);
        }
        out
    }

    /// Get the log that says that `user` follows `is_following`.
    pub fn get_follow_by_user(
        &self,
        user: String,
        is_following: String,
    ) -> (out: DefaultReturn<Option<Log>>)
        requires
            self.wf(),
        ensures
            out.model() == self@.base.get_follow_by_user(user@, is_following@),
    {
        self.base.get_follow_by_user(user, is_following)
    }

    /// Get one page of the logs of the users that follow `user`, newest first.
    pub fn get_user_followers(
        &self,
        user: String,
        offset: Option<i32>,
    ) -> (out: DefaultReturn<Option<Vec<Log>>>)
        requires
            self.wf(),
        ensures
            out.model() == self@.base.get_user_followers(user@, offset.model()),
    {
        self.base.get_user_followers(user, offset)
    }

    /// Get one page of the logs of the users that `user` follows, newest first.
    pub fn get_user_following(
        &self,
        user: String,
        offset: Option<i32>,
    ) -> (out: DefaultReturn<Option<Vec<Log>>>)
        requires
            self.wf(),
        ensures
            out.model() == self@.base.get_user_following(user@, offset.model()),
    {
        self.base.get_user_following(user, offset)
    }

    /// Get the number of followers that a user has.
    pub fn get_user_follow_count(&self, user: String) -> (out: DefaultReturn<usize>)
        requires
            self.wf(),
        ensures
            out.model() == self@.base.get_user_follow_count(user@),
    {
        self.base.get_user_follow_count(user)
    }

    /// Get the number of users that a user follows.
    pub fn get_user_following_count(&self, user: String) -> (out: DefaultReturn<usize>)
        requires
            self.wf(),
        ensures
            out.model() == self@.base.get_user_following_count(user@),
    {
        self.base.get_user_following_count(user)
    }

    /// Toggle whether `user` follows `is_following`, with a fresh id and the time of the
    /// clock for a new log.
    pub fn toggle_user_follow(&mut self, props: &UserFollow) -> (out: DefaultReturn<Option<String>>)
        requires
            old(self).wf(),
        ensures
            final(self).wf(),
            exists|id: Seq<char>, now: int|
                (final(self)@, out.model()) == old(self)@.on_base(
                    old(self)@.base.toggle_user_follow(props.user@, props.is_following@, id, now),
                ),
    {
        let ghost start = self@;
        let out = self.base.toggle_user_follow(props);
        proof {
            self.base.lemma_coherent();
            start.lemma_posts_kept(self@);
        }
        out
    }

    /// Toggle whether `user` follows `is_following`, given the id and the time for a new
    /// log.
    pub fn toggle_user_follow_with(
        &mut self,
        props: &UserFollow,
        id: String,
        now: u128,
    ) -> (out: DefaultReturn<Option<String>>)
        requires
            old(self).wf(),
        ensures
            final(self).wf(),
            (final(self)@, out.model()) == old(self)@.on_base(
                old(self)@.base.toggle_user_follow(props.user@, props.is_following@, id@, now as int),
            ),
    {
        let ghost start = self@;
        let out = self.base.toggle_user_follow_with(props, id, now);
        proof {
            self.base.lemma_coherent();
            start.lemma_posts_kept(self@);
        }
        out
    }
}

impl Database {
    /// Get a log by its id.
    pub fn get_log_by_id(&mut self, id: String) -> (out: DefaultReturn<Option<Log>>)
        requires
            old(self).wf(),
        ensures
            final(self).wf(),
            (final(self)@, out.model()) == old(self)@.on_base(old(self)@.base.get_log_by_id(id@)),
    {
        let ghost start = self@;
        let out = self.base.get_log_by_id(id);
        proof {
            self.base.lemma_coherent();
            start.lemma_posts_kept(self@);
        }
        out
    }

    /// Create a log given its type and content, with a fresh id and the time of the clock.
    pub fn create_log(
        &mut self,
        logtype: String,
        content: String,
    ) -> (out: DefaultReturn<Option<String>>)
        requires
            old(self).wf(),
        ensures
            final(self).wf(),
            exists|id: Seq<char>, now: int|
                (final(self)@, out.model()) == old(self)@.on_base(
                    old(self)@.base.create_log(logtype@, content@, id, now),
                ),
    {
        let ghost start = self@;
        let out = self.base.create_log(logtype, content);
        proof {
            self.base.lemma_coherent();
            start.lemma_posts_kept(self@);
        }
        out
    }

    /// Create a log given its type, its content, its id and the time.
    pub fn create_log_with(
        &mut self,
        logtype: String,
        content: String,
        id: String,
        now: u128,
    ) -> (out: DefaultReturn<Option<String>>)
        requires
            old(self).wf(),
        ensures
            final(self).wf(),
            (final(self)@, out.model()) == old(self)@.on_base(
                old(self)@.base.create_log(logtype@, content@, id@, now as int),
            ),
    {
        let ghost start = self@;
        let out = self.base.create_log_with(logtype, content, id, now);
        proof {
            self.base.lemma_coherent();
            start.lemma_posts_kept(self@);
        }
        out
    }

    /// Edit a log given its id.
    pub fn edit_log(&mut self, id: String, content: String) -> (out: DefaultReturn<Option<String>>)
        requires
            old(self).wf(),
        ensures
            final(self).wf(),
            (final(self)@, out.model()) == old(self)@.on_base(
                old(self)@.base.edit_log(id@, content@),
            ),
    {
        let ghost start = self@;
        let out = self.base.edit_log(id, content);
        proof {
            self.base.lemma_coherent();
            start.lemma_posts_kept(self@);
        }
        out
    }

    /// Delete a log given its id.
    pub fn delete_log(&mut self, id: String) -> (out: DefaultReturn<Option<String>>)
        requires
            old(self).wf(),
        ensures
            final(self).wf(),
            (final(self)@, out.model()) == old(self)@.on_base(old(self)@.base.delete_log(id@)),
    {
        let ghost start = self@;
        let out = self.base.delete_log(id);
        proof {
            self.base.lemma_coherent();
            start.lemma_posts_kept(self@);
        }
        out
    }

    /// Takes in a user as the relational store holds it, unless the username is taken.
    pub fn load_user(&mut self, row: UserState<String>) -> (res: Result<
        (),
        StoreError,
    >)
        requires
            old(self).wf(),
        ensures
            final(self).wf(),
            res is Err <==> has_key::<UserState<String>>(
                old(self)@.base.users,
                row.username@,
            ),
            res is Err ==> final(self)@ == old(self)@,
            res is Ok ==> final(self)@ == (DatabaseView {
                base: GuppyView {
                    users: with_row::<UserState<String>>(
                        old(self)@.base.users,
                        row.model(),
                    ),
                    ..old(self)@.base
                },
                ..old(self)@
            }),
    {
        let ghost start = self@;
        let res = self.base.load_user(row);
        proof {
            self.base.lemma_coherent();
            start.lemma_posts_kept(self@);
        }
        res
    }

    /// Takes in a log as the relational store holds it, unless the id is taken.
    pub fn load_log(&mut self, row: Log) -> (res: Result<(), StoreError>)
        requires
            old(self).wf(),
        ensures
            final(self).wf(),
            res is Err <==> has_key::<Log>(old(self)@.base.logs, row.id@),
            res is Err ==> final(self)@ == old(self)@,
            res is Ok ==> final(self)@ == (DatabaseView {
                base: GuppyView {
                    logs: with_row::<Log>(old(self)@.base.logs, row.model()),
                    ..old(self)@.base
                },
                ..old(self)@
            }),
    {
        let ghost start = self@;
        let res = self.base.load_log(row);
        proof {
            self.base.lemma_coherent();
            start.lemma_posts_kept(self@);
        }
        res
    }

    /// Takes in a post as the relational store holds it, unless the id is taken. The
    /// lists that the post joins leave the cache.
    pub fn load_post(&mut self, row: ActivityPost) -> (res: Result<(), StoreError>)
        requires
            old(self).wf(),
        ensures
            final(self).wf(),
            res is Err <==> has_key::<ActivityPost>(old(self)@.posts, row.id@),
            res is Err ==> final(self)@ == old(self)@.without_lists_of(row.author@, row.reply@),
            res is Ok ==> final(self)@ == (DatabaseView {
                posts: with_row::<ActivityPost>(old(self)@.posts, row.model()),
                ..old(self)@.without_lists_of(row.author@, row.reply@)
            }),
    {
        self.forget_lists_of(&row.author, &row.reply);
        let ghost before = self@;
        let ghost model = row.model();
        proof {
            if !has_key::<ActivityPost>(before.posts, row.id@) {
                lemma_with_row::<ActivityPost>(before.posts, model);
            }
        }
        let res = self.posts.insert(row);
        proof {
            if res is Ok {
                let state = self@;
                assert forall|other: Seq<char>| #[trigger]
                    state.post_cache.contains_key(post_key(other)) implies find_key::<
                    ActivityPost,
                >(state.posts, other) == Some(state.post_cache[post_key(other)]) by {
                    assert(before.post_cache.contains_key(post_key(other)));
                }
                assert forall|other: Seq<char>|
                    other.len() > 0 && #[trigger] state.replies_cache.contains_key(
                        replies_key(other),
                    ) implies state.replies_cache[replies_key(other)] == state.replies_of(
                    other,
                ) by {
                    assert(before.replies_cache.contains_key(replies_key(other)));
                    assert(model.reply != other);
                    lemma_filter_with_row::<ActivityPost>(before.posts, model, reply_to(other));
                }
                assert forall|other: Seq<char>, from: int| #[trigger]
                    state.feed_cache.contains_key(
                        feed_key(other, from),
                    ) implies state.feed_cache[feed_key(other, from)] == state.feed_of(
                    other,
                    from,
                ) by {
                    assert(before.feed_cache.contains_key(feed_key(other, from)));
                    if model.reply.len() == 0 && other == model.author {
                        lemma_feed_key_begins(other, from);
                    }
                    lemma_filter_with_row::<ActivityPost>(before.posts, model, root_post_by(other));
                }
            }
        }
        res
    }

    /// Takes in a board as the relational store holds it, unless the name is taken.
    pub fn load_board(&mut self, row: Board) -> (res: Result<(), StoreError>)
        requires
            old(self).wf(),
        ensures
            final(self).wf(),
            res is Err <==> has_key::<Board>(old(self)@.boards, row.name@),
            res is Err ==> final(self)@ == old(self)@,
            res is Ok ==> final(self)@ == (DatabaseView {
                boards: with_row::<Board>(old(self)@.boards, row.model()),
                ..old(self)@
            }),
    {
        let ghost before = self@;
        proof {
            if !has_key::<Board>(before.boards, row.name@) {
                lemma_with_row::<Board>(before.boards, row.model());
            }
        }
        let res = self.boards.insert(row);
        proof {
            let state = self@;
            before.lemma_post_cache_kept(state);
            before.lemma_replies_kept(state);
            before.lemma_feeds_kept(state);
        }
        res
    }

    /// Sets the counter of the favorites of a post as the cache holds it.
    pub fn load_favorites(&mut self, id: String, count: i32)
        requires
            old(self).wf(),
        ensures
            final(self).wf(),
            final(self)@ == (DatabaseView {
                favorites: old(self)@.favorites.insert(favorites_key(id@), count as int),
                ..old(self)@
            }),
    {
        let ghost before = self@;
        self.favorites.set(favorites_key_text(id.as_str()), count);
        proof {
            before.lemma_posts_kept(self@);
        }
    }
}

} // verus!
