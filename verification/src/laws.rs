use vstd::prelude::*;
use crate::db::content::first_metadata;
use crate::db::records::PostModel;
use crate::db::DatabaseView;
use crate::db::board_like;
use crate::db::content::favorite_content;
use crate::db::content::follow_content;
use crate::db::content::follow_needle;
use crate::db::content::followers_needle;
use crate::db::content::lemma_favorite_content_tells;
use crate::db::content::metadata_json;
use crate::db::content::stream_metadata;
use crate::db::content::stream_name;
use crate::db::content::stream_needle;
use crate::db::content::token_needle;
use crate::db::guppydb::GuppyView;
use crate::db::guppydb::UserReturn;
use crate::db::guppydb::failure;
use crate::db::guppydb::log_is;
use crate::db::guppydb::log_like;
use crate::db::guppydb::user_by_hashed;
use crate::db::guppydb::user_metadata_like;
use crate::db::guppydb::with_metadata;
use crate::db::guppydb::with_role;
use crate::db::keys::favorites_key;
use crate::db::keys::lemma_same_prefix;
use crate::db::keys::replies_key;
use crate::db::records::ActivityPost;
use crate::db::records::Board;
use crate::db::records::BoardModel;
use crate::db::records::FullUserModel;
use crate::db::records::Log;
use crate::db::records::LogModel;
use crate::db::records::UserMetadataModel;
use crate::db::records::UserState;
use crate::db::sql::find_key;
use crate::db::sql::keys_unique;
use crate::db::sql::first_admitted;
use crate::db::sql::lemma_count_without_key;
use crate::db::sql::lemma_without_key;
use crate::db::sql::has_key;
use crate::db::sql::lemma_count_with_row;
use crate::db::sql::lemma_filter_keeps_order;
use crate::db::sql::lemma_find_at;
use crate::db::sql::lemma_first_admitted_is_a_row;
use crate::db::sql::lemma_first_is_new_row;
use crate::db::sql::lemma_place_of;
use crate::db::sql::lemma_rewritten;
use crate::db::sql::lemma_with_row;
use crate::db::sql::lemma_without_new_row;
use crate::db::sql::newest_first;
use crate::db::sql::place_of;
use crate::db::sql::position_of;
use crate::db::sql::rewritten;
use crate::db::sql::with_row;
use crate::db::sql::without_key;
use crate::text::lemma_contains_middle;
use crate::utility::hash_of;

verus! {

/// The roles "member" and "banned" are two roles.
pub proof fn lemma_member_is_not_banned()
    ensures
        "member"@ != "banned"@,
{
    reveal_strlit("member");
    reveal_strlit("banned");
    assert("member"@[0] == 'm');
    assert("banned"@[0] == 'b');
}

/// Nobody follows themselves: the toggle of a user on themselves fails with
/// "Cannot follow yourself!" and leaves the state as it is.
pub proof fn self_follow_is_refused(state: GuppyView, user: Seq<char>, id: Seq<char>, now: int)
    ensures
        state.toggle_user_follow(user, user, id, now) == (
            state,
            failure::<Option<Seq<char>>>("Cannot follow yourself!"@, None),
        ),
{
}

/// Nobody favorites their own post: the toggle of the author on their post fails with
/// "You're the post author!", and users, logs, posts, boards and counters stay as they are.
pub proof fn own_favorite_is_refused(
    state: DatabaseView,
    user: Seq<char>,
    post_id: Seq<char>,
    id: Seq<char>,
    now: int,
)
    requires
        find_key::<ActivityPost>(state.posts, post_id) is Some,
        find_key::<ActivityPost>(state.posts, post_id)->0.author == user,
    ensures
        state.toggle_user_post_favorite(user, post_id, id, now).1 == failure::<Option<Seq<char>>>(
            "You're the post author!"@,
            None,
        ),
        state.toggle_user_post_favorite(user, post_id, id, now).0.base == state.base,
        state.toggle_user_post_favorite(user, post_id, id, now).0.posts == state.posts,
        state.toggle_user_post_favorite(user, post_id, id, now).0.boards == state.boards,
        state.toggle_user_post_favorite(user, post_id, id, now).0.favorites == state.favorites,
{
}

/// A username is taken once: after a user of a name was created, creating a user of that
/// name again fails with "User already exists!".
pub proof fn second_registration_is_refused(
    state: GuppyView,
    username: Seq<char>,
    unhashed: Seq<char>,
    now: int,
    unhashed_again: Seq<char>,
    now_again: int,
)
    requires
        state.coherent(),
        state.create_user(username, unhashed, now).1.success,
    ensures
        state.create_user(username, unhashed, now).0.create_user(
            username,
            unhashed_again,
            now_again,
        ).1 == failure::<Option<Seq<char>>>("User already exists!"@, None),
{
    lemma_member_is_not_banned();
    let (looked, existing) = state.get_user_by_username(username);
    assert(!existing.success);
    assert(looked == state);
    let row = GuppyView::new_user(username, unhashed, now);
    lemma_with_row::<UserState<String>>(state.users, row);
    let after = state.create_user(username, unhashed, now).0;
    assert(find_key::<UserState<String>>(after.users, username) == Some(row));
}

/// The state after a user was banned.
pub open spec fn after_ban(state: GuppyView, username: Seq<char>) -> GuppyView {
    state.ban_user_by_name(username).0
}

/// What a lookup hands out is not the user of the name.
pub open spec fn hides(found: UserReturn, username: Seq<char>) -> bool {
    match found.payload {
        Some(user) => user.user.username != username,
        None => true,
    }
}

/// After a ban every row of the name has the role "banned".
proof fn lemma_banned_rows(state: GuppyView, username: Seq<char>)
    requires
        state.coherent(),
        state.ban_user_by_name(username).1.success,
    ensures
        has_key::<UserState<String>>(after_ban(state, username).users, username),
        forall|k: int|
            0 <= k < after_ban(state, username).users.len() && (#[trigger] after_ban(
                state,
                username,
            ).users[k]).username == username ==> after_ban(state, username).users[k].role
                == "banned"@,
        find_key::<UserState<String>>(after_ban(state, username).users, username) is Some,
        find_key::<UserState<String>>(after_ban(state, username).users, username)->0.role
            == "banned"@,
{
    let (looked, existing) = state.get_user_by_username(username);
    assert(looked.users == state.users);
    let after = after_ban(state, username);
    assert(after.users == rewritten::<UserState<String>>(
        state.users,
        username,
        with_role("banned"@),
    ));
    lemma_rewritten::<UserState<String>>(state.users, username, with_role("banned"@));
    assert(has_key::<UserState<String>>(state.users, username));
    let at = position_of::<UserState<String>>(state.users, username);
    assert forall|k: int|
        0 <= k < after.users.len() && (#[trigger] after.users[k]).username
            == username implies after.users[k].role == "banned"@ by {
        if k != at {
            assert(after.users[k] == state.users[k]);
            lemma_find_at::<UserState<String>>(state.users, k);
        }
    }
}

/// A banned user is invisible: after a ban succeeded, the lookup by the username fails
/// with "User is banned", and no lookup by a hashed id, an unhashed id or a secondary
/// token hands out the user, though the row is still in the table.
pub proof fn banned_user_is_invisible(state: GuppyView, username: Seq<char>, text: Seq<char>)
    requires
        state.coherent(),
        state.ban_user_by_name(username).1.success,
    ensures
        has_key::<UserState<String>>(after_ban(state, username).users, username),
        after_ban(state, username).get_user_by_username(username).1 == failure::<
            Option<FullUserModel<Seq<char>>>,
        >("User is banned"@, None),
        hides(after_ban(state, username).get_user_by_hashed(text).1, username),
        hides(after_ban(state, username).get_user_by_unhashed_st(text).1, username),
        hides(after_ban(state, username).get_user_by_unhashed(text).1, username),
{
    lemma_banned_rows(state, username);
    let after = after_ban(state, username);
    lemma_first_admitted_is_a_row(after.users, user_by_hashed(text));
    lemma_first_admitted_is_a_row(after.users, user_by_hashed(hash_of(text)));
    lemma_first_admitted_is_a_row(after.users, user_metadata_like(token_needle(hash_of(text))));
    let by_hash = after.get_user_by_hashed(hash_of(text));
    assert(by_hash.0 == after || by_hash.1.success) by {
        lemma_first_admitted_is_a_row(after.users, user_by_hashed(hash_of(text)));
    }
    if !by_hash.1.success {
        lemma_first_admitted_is_a_row(
            by_hash.0.users,
            user_metadata_like(token_needle(hash_of(text))),
        );
    }
}

/// `user` follows `is_following` in the state: a log says so.
pub open spec fn follows(state: GuppyView, user: Seq<char>, is_following: Seq<char>) -> bool {
    state.follow_log(user, is_following) is Some
}

/// Two toggles undo each other: where two users are found, the first does not follow the
/// second, and the id for the new log is not taken, the first toggle succeeds and makes
/// the first user follow the second, and the next toggle succeeds and leaves the first
/// user not following the second, with the users and the logs as they were at the start.
pub proof fn toggle_follow_twice_restores(
    state: GuppyView,
    user: Seq<char>,
    is_following: Seq<char>,
    id: Seq<char>,
    now: int,
    id_again: Seq<char>,
    now_again: int,
)
    requires
        state.coherent(),
        user != is_following,
        state.get_user_by_username(user).1.success,
        state.get_user_by_username(is_following).1.success,
        !follows(state, user, is_following),
        !has_key::<Log>(state.logs, id),
    ensures
        ({
            let (one, first) = state.toggle_user_follow(user, is_following, id, now);
            let (two, second) = one.toggle_user_follow(user, is_following, id_again, now_again);
            &&& first.success
            &&& follows(one, user, is_following)
            &&& second.success
            &&& !follows(two, user, is_following)
            &&& two.logs == state.logs
            &&& two.users == state.users
        }),
{
    let admits = log_like("follow"@, follow_needle(user, is_following));
    let row = LogModel {
        id,
        logtype: "follow"@,
        timestamp: now,
        content: follow_content(user, is_following),
    };
    lemma_contains_middle("{"@, follow_needle(user, is_following), "}"@);
    assert(admits(row));
    let (a, found_a) = state.get_user_by_username(user);
    let (b, found_b) = a.get_user_by_username(is_following);
    assert(a.users == state.users && a.logs == state.logs);
    assert(b.users == state.users && b.logs == state.logs);
    assert(found_b.success);
    lemma_first_is_new_row::<Log>(state.logs, row, admits);
    lemma_with_row::<Log>(state.logs, row);
    lemma_without_new_row::<Log>(state.logs, row);
    let (one, first) = state.toggle_user_follow(user, is_following, id, now);
    assert(one.logs == with_row::<Log>(state.logs, row));
    assert(one.users == state.users);
    let (c, found_c) = one.get_user_by_username(user);
    let (d, found_d) = c.get_user_by_username(is_following);
    assert(c.users == state.users && c.logs == one.logs);
    assert(d.users == state.users && d.logs == one.logs);
    assert(found_c.success && found_d.success);
    assert(d.follow_log(user, is_following) == Some(row));
    assert(find_key::<Log>(d.logs, id) == Some(row));
}

/// The pages of a user's followers are windows of one list, newest first: a page holds at
/// most fifty logs; the page at offset fifty goes on where the page at offset zero ends,
/// none of its logs is in the first page, and none is newer than a log of the first page;
/// with more than a hundred followers both pages are full. No offset means offset zero.
pub proof fn follower_pages_do_not_overlap(state: GuppyView, user: Seq<char>)
    requires
        state.coherent(),
    ensures
        ({
            let all = state.followers(user);
            let first = state.get_user_followers(user, Some(0)).payload->0;
            let second = state.get_user_followers(user, Some(50)).payload->0;
            &&& state.get_user_followers(user, None) == state.get_user_followers(user, Some(0))
            &&& first.len() <= 50
            &&& second.len() <= 50
            &&& newest_first::<Log>(first)
            &&& newest_first::<Log>(second)
            &&& first + second == all.take(if all.len() < 100 { all.len() as int } else { 100 })
            &&& forall|i: int, j: int|
                0 <= i < first.len() && 0 <= j < second.len() ==> (#[trigger] first[i]).id != (
                #[trigger] second[j]).id
            &&& forall|i: int, j: int|
                0 <= i < first.len() && 0 <= j < second.len() ==> (#[trigger] first[i]).timestamp
                    >= (#[trigger] second[j]).timestamp
            &&& all.len() > 100 ==> first.len() == 50 && second.len() == 50
        }),
{
    let all = state.followers(user);
    lemma_filter_keeps_order::<Log>(state.logs, log_like("follow"@, followers_needle(user)));
    let first = state.get_user_followers(user, Some(0)).payload->0;
    let second = state.get_user_followers(user, Some(50)).payload->0;
    assert(first + second =~= all.take(if all.len() < 100 { all.len() as int } else { 100 }));
    assert forall|i: int, j: int|
        0 <= i < first.len() && 0 <= j < second.len() implies (#[trigger] first[i]).id != (
        #[trigger] second[j]).id && first[i].timestamp >= second[j].timestamp by {
        assert(first[i] == all[i]);
        assert(second[j] == all[50 + j]);
    }
    assert forall|i: int, j: int| 0 <= i <= j < first.len() implies first[i].timestamp
        >= first[j].timestamp by {
        assert(first[i] == all[i] && first[j] == all[j]);
    }
    assert forall|i: int, j: int| 0 <= i <= j < second.len() implies second[i].timestamp
        >= second[j].timestamp by {
        assert(second[i] == all[50 + i] && second[j] == all[50 + j]);
    }
}

/// The logs that say that somebody favorited the post.
pub open spec fn favorite_of(post_id: Seq<char>) -> spec_fn(LogModel) -> bool {
    |row: LogModel|
        row.logtype == "post_favorite"@ && exists|user: Seq<char>|
            row.content == favorite_content(user, post_id)
}

/// How many logs say that somebody favorited the post.
pub open spec fn favorites_in_logs(state: DatabaseView, post_id: Seq<char>) -> int {
    state.base.logs.filter(favorite_of(post_id)).len() as int
}

/// The counter of a post's favorites is the number of the logs of its favorites.
pub open spec fn counts_favorites(state: DatabaseView, post_id: Seq<char>) -> bool {
    state.favorite_count(post_id) == favorites_in_logs(state, post_id)
}

/// The logs have unique ids and stand newest first, as every coherent state has them.
pub open spec fn ledger_in_order(state: DatabaseView) -> bool {
    &&& keys_unique::<Log>(state.base.logs)
    &&& newest_first::<Log>(state.base.logs)
}

/// A toggle keeps the counters right: where the counter of a post is the number of the
/// logs of its favorites, it still is after any toggle of a favorite, on that post or on
/// another, whatever the id for the new log is and however the toggle ends. The one
/// limit is the machine's: the number of logs is below the end of the counter's range.
pub proof fn favorite_toggle_keeps_count(
    state: DatabaseView,
    user: Seq<char>,
    post_id: Seq<char>,
    id: Seq<char>,
    now: int,
    counted: Seq<char>,
)
    requires
        ledger_in_order(state),
        counts_favorites(state, counted),
        state.base.logs.len() < i32::MAX,
    ensures
        counts_favorites(state.toggle_user_post_favorite(user, post_id, id, now).0, counted),
{
    state.base.logs.lemma_filter_len(favorite_of(counted));
    let (first, existing) = state.get_post_by_id(post_id);
    let after = state.toggle_user_post_favorite(user, post_id, id, now).0;
    let logs = state.base.logs;
    assert(first.base == state.base);
    assert(first.favorites == state.favorites);
    if counted != post_id {
        if favorites_key(counted) == favorites_key(post_id) {
            lemma_same_prefix("social:post-favorites:"@, counted, post_id);
        }
    }
    if existing.success && existing.payload->0.author != user {
        let content = favorite_content(user, post_id);
        match first.favorite_log(user, post_id) {
            Some(log) => {
                lemma_first_admitted_is_a_row(logs, log_is("post_favorite"@, content));
                let at = choose|at: int| 0 <= at < logs.len() && logs[at] == log;
                lemma_find_at::<Log>(logs, at);
                lemma_count_without_key::<Log>(logs, log.id, favorite_of(counted));
                assert(after.base.logs == without_key::<Log>(logs, log.id));
                if counted == post_id {
                    assert(favorite_of(counted)(log));
                } else {
                    if favorite_of(counted)(log) {
                        let other = choose|other: Seq<char>|
                            log.content == favorite_content(other, counted);
                        lemma_favorite_content_tells(user, post_id, other, counted);
                    }
                }
            },
            None => {
                let row = LogModel { id, logtype: "post_favorite"@, timestamp: now, content };
                if has_key::<Log>(logs, id) {
                    assert(after.base.logs == logs);
                    assert(after.favorites == state.favorites);
                } else {
                    lemma_count_with_row::<Log>(logs, row, favorite_of(counted));
                    assert(after.base.logs == with_row::<Log>(logs, row));
                    if counted == post_id {
                        assert(favorite_of(counted)(row));
                    } else {
                        if favorite_of(counted)(row) {
                            let other = choose|other: Seq<char>|
                                row.content == favorite_content(other, counted);
                            lemma_favorite_content_tells(user, post_id, other, counted);
                        }
                    }
                }
            },
        }
    }
}

/// The cache of replies is never stale: in a coherent state, the replies that a lookup
/// hands out for a post, from the cache or not, are the replies that the table has.
pub proof fn replies_shown_are_current(state: DatabaseView, id: Seq<char>)
    requires
        state.coherent(),
        id.len() > 0,
    ensures
        state.replies_shown(id).1.payload == Some(state.replies_of(id)),
        state.replies_shown(id).0.coherent(),
{
    let after = state.replies_shown(id).0;
    state.lemma_post_cache_kept(after);
    state.lemma_feeds_kept(after);
    assert forall|other: Seq<char>|
        other.len() > 0 && #[trigger] after.replies_cache.contains_key(
            replies_key(other),
        ) implies after.replies_cache[replies_key(other)] == after.replies_of(
        other,
    ) by {
        if replies_key(other) == replies_key(id) {
            lemma_same_prefix("post-replies:"@, other, id);
        } else {
            assert(state.replies_cache.contains_key(replies_key(other)));
        }
    }
}

/// The cache of feed pages is never stale: in a coherent state, the page of a user's feed
/// that a lookup hands out, from the cache or not, is the page that the table has.
pub proof fn feed_shown_is_current(state: DatabaseView, username: Seq<char>, offset: int)
    requires
        state.coherent(),
    ensures
        state.feed_shown(username, offset).1 == state.feed_of(username, offset),
{
}

/// Two users share one mail stream, whoever asks: where two users had no stream and one
/// was created, asking to create the stream of the same two users again, in either
/// order, succeeds with the board that was created, and adds no board.
pub proof fn mail_stream_is_shared_by_the_pair(
    state: DatabaseView,
    user1: Seq<char>,
    user2: Seq<char>,
    id: Seq<char>,
    now: int,
    id_again: Seq<char>,
    now_again: int,
)
    requires
        state.coherent(),
        state.create_mail_stream(user1, user2, id, now).1.success,
        state.stream_board(user1, user2) is None,
        state.stream_board(user2, user1) is None,
    ensures
        ({
            let (one, first) = state.create_mail_stream(user1, user2, id, now);
            let (same, second) = one.create_mail_stream(user1, user2, id_again, now_again);
            let (swapped, third) = one.create_mail_stream(user2, user1, id_again, now_again);
            &&& first.payload is Some
            &&& second.success && second.payload == first.payload && same == one
            &&& third.success && third.payload == first.payload && swapped == one
        }),
{
    let board = BoardModel {
        name: stream_name(id),
        timestamp: now,
        metadata: stream_metadata(user1, user2),
    };
    let (one, first) = state.create_mail_stream(user1, user2, id, now);
    assert(first.payload == Some(board));
    assert(one.boards == with_row::<Board>(state.boards, board));
    lemma_contains_middle(
        "{\"is_private\":\"yes\",\"allow_open_posting\":\"yes\","@,
        stream_needle(user1, user2),
        "}"@,
    );
    let admits = board_like(stream_needle(user1, user2));
    assert(admits(board));
    lemma_first_is_new_row::<Board>(state.boards, board, admits);
    assert(one.stream_board(user1, user2) == Some(board));
    let swapped = board_like(stream_needle(user2, user1));
    if swapped(board) {
        lemma_first_is_new_row::<Board>(state.boards, board, swapped);
    } else {
        lemma_place_of::<Board>(state.boards, now);
        lemma_first_admitted_is_a_row(state.boards, swapped);
        lemma_first_admitted_is_a_row(one.boards, swapped);
        if one.stream_board(user2, user1) is Some {
            let found = one.stream_board(user2, user1)->0;
            let at = choose|at: int| 0 <= at < one.boards.len() && one.boards[at] == found;
            let place = place_of::<Board>(state.boards, now);
            if at < place {
                assert(one.boards[at] == state.boards[at]);
            } else if at > place {
                assert(one.boards[at] == state.boards[at - 1]);
            }
            assert(false);
        }
    }
}

/// The user of the name is banned: the table holds them with the role "banned".
pub open spec fn banned(state: GuppyView, username: Seq<char>) -> bool {
    match find_key::<UserState<String>>(state.users, username) {
        Some(user) => user.role == "banned"@,
        None => false,
    }
}

/// A ban is for good: no operation on users makes a banned user anything else. After a
/// user of any name is created, after the metadata of any user is changed, and after any
/// user is banned, a user who was banned before is banned still.
pub proof fn ban_is_for_good(
    state: GuppyView,
    username: Seq<char>,
    other: Seq<char>,
    unhashed: Seq<char>,
    now: int,
    metadata: UserMetadataModel,
)
    requires
        state.coherent(),
        banned(state, username),
    ensures
        banned(state.create_user(other, unhashed, now).0, username),
        banned(state.edit_user_metadata_by_name(other, metadata).0, username),
        banned(state.ban_user_by_name(other).0, username),
        banned(state.get_user_by_username(other).0, username),
{
    let looked = state.get_user_by_username(other).0;
    assert(looked.users == state.users);
    let row = GuppyView::new_user(other, unhashed, now);
    if !has_key::<UserState<String>>(state.users, other) {
        lemma_with_row::<UserState<String>>(state.users, row);
    }
    lemma_rewritten::<UserState<String>>(state.users, other, with_metadata(metadata_json(metadata)));
    lemma_rewritten::<UserState<String>>(state.users, other, with_role("banned"@));
}

/// A banned user is not found by their own hashed id: after a ban succeeded, the lookup
/// by a hashed id that no other user has fails with "User is banned".
pub proof fn banned_user_is_not_found_by_their_id(state: GuppyView, username: Seq<char>)
    requires
        state.coherent(),
        state.ban_user_by_name(username).1.success,
        forall|k: int|
            0 <= k < state.users.len() && (#[trigger] state.users[k]).id_hashed == find_key::<
                UserState<String>,
            >(state.users, username)->0.id_hashed ==> state.users[k].username == username,
    ensures
        after_ban(state, username).get_user_by_hashed(
            find_key::<UserState<String>>(state.users, username)->0.id_hashed,
        ).1 == failure::<Option<FullUserModel<Seq<char>>>>("User is banned"@, None),
{
    lemma_banned_rows(state, username);
    let after = after_ban(state, username);
    let hashed = find_key::<UserState<String>>(state.users, username)->0.id_hashed;
    let looked = state.get_user_by_username(username).0;
    assert(looked.users == state.users);
    assert(has_key::<UserState<String>>(state.users, username));
    let at = position_of::<UserState<String>>(state.users, username);
    lemma_find_at::<UserState<String>>(state.users, at);
    assert(after.users == state.users.update(at, with_role("banned"@)(state.users[at])));
    assert forall|k: int| 0 <= k < after.users.len() implies (#[trigger] after.users[k]).id_hashed
        == state.users[k].id_hashed && after.users[k].username == state.users[k].username by {}
    lemma_first_admitted_is_a_row(after.users, user_by_hashed(hashed));
    assert(user_by_hashed(hashed)(after.users[at]));
    let found = first_admitted(after.users, user_by_hashed(hashed))->0;
    let k = choose|k: int| 0 <= k < after.users.len() && after.users[k] == found;
    assert(state.users[k].id_hashed == hashed);
}

/// Two toggles undo each other for a user who follows, too: where two users are found,
/// exactly one log says that the first follows the second, and the id for the new log is
/// not taken, the first toggle succeeds and leaves the first user not following the
/// second, and the next toggle succeeds and makes them follow again.
pub proof fn toggle_follow_twice_restores_following(
    state: GuppyView,
    user: Seq<char>,
    is_following: Seq<char>,
    id: Seq<char>,
    now: int,
    id_again: Seq<char>,
    now_again: int,
)
    requires
        state.coherent(),
        user != is_following,
        state.get_user_by_username(user).1.success,
        state.get_user_by_username(is_following).1.success,
        state.logs.filter(log_like("follow"@, follow_needle(user, is_following))).len() == 1,
        !has_key::<Log>(state.logs, id_again),
    ensures
        ({
            let (one, first) = state.toggle_user_follow(user, is_following, id, now);
            let (two, second) = one.toggle_user_follow(user, is_following, id_again, now_again);
            &&& follows(state, user, is_following)
            &&& first.success
            &&& !follows(one, user, is_following)
            &&& second.success
            &&& follows(two, user, is_following)
            &&& two.users == state.users
        }),
{
    let admits = log_like("follow"@, follow_needle(user, is_following));
    lemma_first_admitted_is_a_row(state.logs, admits);
    if first_admitted(state.logs, admits) is None {
        lemma_no_row_admitted(state.logs, admits);
    }
    let log = state.follow_log(user, is_following)->0;
    let at = choose|at: int| 0 <= at < state.logs.len() && state.logs[at] == log;
    lemma_find_at::<Log>(state.logs, at);
    lemma_count_without_key::<Log>(state.logs, log.id, admits);
    lemma_without_key::<Log>(state.logs, log.id);
    let (a, found_a) = state.get_user_by_username(user);
    let (b, found_b) = a.get_user_by_username(is_following);
    assert(a.users == state.users && a.logs == state.logs);
    assert(b.users == state.users && b.logs == state.logs);
    assert(found_b.success);
    let (one, first) = state.toggle_user_follow(user, is_following, id, now);
    assert(one.logs == without_key::<Log>(state.logs, log.id));
    assert(one.logs.filter(admits).len() == 0);
    lemma_first_admitted_is_a_row(one.logs, admits);
    if first_admitted(one.logs, admits) is Some {
        lemma_row_admitted(one.logs, admits);
    }
    assert(one.follow_log(user, is_following) is None);
    let row = LogModel {
        id: id_again,
        logtype: "follow"@,
        timestamp: now_again,
        content: follow_content(user, is_following),
    };
    lemma_contains_middle("{"@, follow_needle(user, is_following), "}"@);
    assert(admits(row));
    let (c, found_c) = one.get_user_by_username(user);
    let (d, found_d) = c.get_user_by_username(is_following);
    assert(c.users == state.users && c.logs == one.logs);
    assert(d.users == state.users && d.logs == one.logs);
    assert(found_c.success && found_d.success);
    lemma_first_is_new_row::<Log>(one.logs, row, admits);
}

/// Where a condition admits no row, no row is among the rows that it admits.
proof fn lemma_no_row_admitted<M>(rows: Seq<M>, admits: spec_fn(M) -> bool)
    requires
        forall|k: int| 0 <= k < rows.len() ==> !admits(#[trigger] rows[k]),
    ensures
        rows.filter(admits).len() == 0,
    decreases rows.len(),
{
    reveal(Seq::filter);
    if rows.len() > 0 {
        let rest = rows.drop_last();
        assert forall|k: int| 0 <= k < rest.len() implies !admits(#[trigger] rest[k]) by {
            assert(rest[k] == rows[k]);
        }
        lemma_no_row_admitted(rest, admits);
        assert(!admits(rows[rows.len() - 1]));
    }
}

/// Where a condition admits a row, the rows that it admits are not none.
proof fn lemma_row_admitted<M>(rows: Seq<M>, admits: spec_fn(M) -> bool)
    requires
        exists|k: int| 0 <= k < rows.len() && admits(#[trigger] rows[k]),
    ensures
        rows.filter(admits).len() > 0,
    decreases rows.len(),
{
    reveal(Seq::filter);
    let k = choose|k: int| 0 <= k < rows.len() && admits(#[trigger] rows[k]);
    if k < rows.len() - 1 {
        let rest = rows.drop_last();
        assert(rest[k] == rows[k]);
        lemma_row_admitted(rest, admits);
    }
}

/// A log of a follow is no log of a favorite.
pub proof fn lemma_follow_is_no_favorite()
    ensures
        "follow"@ != "post_favorite"@,
{
    reveal_strlit("follow");
    reveal_strlit("post_favorite");
    assert("follow"@.len() != "post_favorite"@.len());
}

/// The other operations keep the counters right, too: where the counter of a post is the
/// number of the logs of its favorites, it still is after a user is created, changed or
/// banned, after a follow is toggled, after a post is created or deleted, and after a mail
/// stream is created.
pub proof fn other_operations_keep_count(
    state: DatabaseView,
    counted: Seq<char>,
    name: Seq<char>,
    other: Seq<char>,
    text: Seq<char>,
    metadata: UserMetadataModel,
    id: Seq<char>,
    now: int,
)
    requires
        ledger_in_order(state),
        counts_favorites(state, counted),
    ensures
        counts_favorites(state.on_base(state.base.create_user(name, text, now)).0, counted),
        counts_favorites(
            state.on_base(state.base.edit_user_metadata_by_name(name, metadata)).0,
            counted,
        ),
        counts_favorites(state.on_base(state.base.ban_user_by_name(name)).0, counted),
        counts_favorites(
            state.on_base(state.base.toggle_user_follow(name, other, id, now)).0,
            counted,
        ),
        counts_favorites(state.create_activity_post((text, name, other), text, id, now).0, counted),
        counts_favorites(state.delete_activity_post(id, Some(name)).0, counted),
        counts_favorites(state.create_mail_stream(name, other, id, now).0, counted),
{
    lemma_follow_is_no_favorite();
    let admits = favorite_of(counted);
    let logs = state.base.logs;
    let looked = state.base.get_user_by_username(name).0;
    assert(looked.logs == logs);
    let looked_twice = looked.get_user_by_username(other).0;
    assert(looked_twice.logs == logs);
    let after = state.base.toggle_user_follow(name, other, id, now).0;
    if name != other && state.base.get_user_by_username(name).1.success
        && looked.get_user_by_username(other).1.success {
        let follow = log_like("follow"@, follow_needle(name, other));
        match looked_twice.follow_log(name, other) {
            Some(log) => {
                lemma_first_admitted_is_a_row(logs, follow);
                let at = choose|at: int| 0 <= at < logs.len() && logs[at] == log;
                lemma_find_at::<Log>(logs, at);
                lemma_count_without_key::<Log>(logs, log.id, admits);
                assert(!admits(log));
                assert(after.logs == without_key::<Log>(logs, log.id));
            },
            None => {
                let row = LogModel {
                    id,
                    logtype: "follow"@,
                    timestamp: now,
                    content: follow_content(name, other),
                };
                if !has_key::<Log>(logs, id) {
                    lemma_count_with_row::<Log>(logs, row, admits);
                    assert(!admits(row));
                    assert(after.logs == with_row::<Log>(logs, row));
                }
            },
        }
    } else {
        assert(after.logs == logs);
    }
}

/// A call of the library that reads or changes the database. The calls that leave the
/// state as it is (the lookups of follows, of lists and of mail streams) are left out;
/// so are the direct writes to the logs, which the counters of favorites do not follow.
pub enum Call {
    GetUserByHashed(Seq<char>),
    GetUserByUnhashed(Seq<char>),
    GetUserByUnhashedSt(Seq<char>),
    GetUserByUsername(Seq<char>),
    GetLevelByRole(Seq<char>),
    CreateUser(Seq<char>, Seq<char>, int),
    EditUserMetadataByName(Seq<char>, UserMetadataModel),
    BanUserByName(Seq<char>),
    GetLogById(Seq<char>),
    ToggleUserFollow(Seq<char>, Seq<char>, Seq<char>, int),
    GetPostById(Seq<char>),
    GetPostReplies(Seq<char>, bool),
    GetPostRepliesFull(Seq<char>, bool),
    GetUserActivity(Seq<char>, Option<int>),
    GetPostFavorites(Seq<char>),
    GetUserPostFavorite(Seq<char>, Seq<char>, bool),
    CreateActivityPost(Seq<char>, Seq<char>, Seq<char>, Seq<char>, Seq<char>, int),
    DeleteActivityPost(Seq<char>, Option<Seq<char>>),
    ToggleUserPostFavorite(Seq<char>, Seq<char>, Seq<char>, int),
    CreateMailStream(Seq<char>, Seq<char>, Seq<char>, int),
}

/// The state after a call.
pub open spec fn after(state: DatabaseView, call: Call) -> DatabaseView {
    match call {
        Call::GetUserByHashed(hashed) => state.on_base(state.base.get_user_by_hashed(hashed)).0,
        Call::GetUserByUnhashed(text) => state.on_base(state.base.get_user_by_unhashed(text)).0,
        Call::GetUserByUnhashedSt(text) => state.on_base(
            state.base.get_user_by_unhashed_st(text),
        ).0,
        Call::GetUserByUsername(name) => state.on_base(state.base.get_user_by_username(name)).0,
        Call::GetLevelByRole(role) => state.on_base(state.base.get_level_by_role(role)).0,
        Call::CreateUser(name, unhashed, now) => state.on_base(
            state.base.create_user(name, unhashed, now),
        ).0,
        Call::EditUserMetadataByName(name, metadata) => state.on_base(
            state.base.edit_user_metadata_by_name(name, metadata),
        ).0,
        Call::BanUserByName(name) => state.on_base(state.base.ban_user_by_name(name)).0,
        Call::GetLogById(id) => state.on_base(state.base.get_log_by_id(id)).0,
        Call::ToggleUserFollow(user, is_following, id, now) => state.on_base(
            state.base.toggle_user_follow(user, is_following, id, now),
        ).0,
        Call::GetPostById(id) => state.get_post_by_id(id).0,
        Call::GetPostReplies(id, check) => state.get_post_replies(id, check).0,
        Call::GetPostRepliesFull(id, check) => state.get_post_replies_full(id, check).0,
        Call::GetUserActivity(name, offset) => state.get_user_activity(name, offset).0,
        Call::GetPostFavorites(id) => state.get_post_favorites(id).0,
        Call::GetUserPostFavorite(user, post_id, skip) => state.get_user_post_favorite(
            user,
            post_id,
            skip,
        ).0,
        Call::CreateActivityPost(content, author, reply, html, id, now) => state.create_activity_post(
            (content, author, reply),
            html,
            id,
            now,
        ).0,
        Call::DeleteActivityPost(id, as_user) => state.delete_activity_post(id, as_user).0,
        Call::ToggleUserPostFavorite(user, post_id, id, now) => state.toggle_user_post_favorite(
            user,
            post_id,
            id,
            now,
        ).0,
        Call::CreateMailStream(user1, user2, id, now) => state.create_mail_stream(
            user1,
            user2,
            id,
            now,
        ).0,
    }
}

/// The state that a run of calls reaches from the database that holds nothing.
pub open spec fn reached(calls: Seq<Call>) -> DatabaseView
    decreases calls.len(),
{
    if calls.len() == 0 {
        DatabaseView::empty()
    } else {
        after(reached(calls.drop_last()), calls.last())
    }
}

/// Two states have the same logs and the same counters of favorites.
pub open spec fn same_ledger(before: DatabaseView, after: DatabaseView) -> bool {
    &&& after.base.logs == before.base.logs
    &&& after.favorites == before.favorites
}

/// Two states have the same users.
pub open spec fn same_users(before: DatabaseView, after: DatabaseView) -> bool {
    after.base.users == before.base.users
}

/// Looking up the replies and the favorites of posts touches neither logs nor counters.
proof fn lemma_joined_keeps_ledger(state: DatabaseView, posts: Seq<PostModel>)
    ensures
        same_ledger(state, state.joined(posts).0),
        same_users(state, state.joined(posts).0),
    decreases posts.len(),
{
    if posts.len() > 0 {
        lemma_joined_keeps_ledger(state, posts.drop_last());
    }
}

/// The lookups of users, levels and logs touch no log.
proof fn lemma_base_reads_keep_logs(state: GuppyView, text: Seq<char>)
    ensures
        state.get_level_by_role(text).0.logs == state.logs,
        state.get_user_by_hashed(text).0.logs == state.logs,
        state.get_user_by_unhashed_st(text).0.logs == state.logs,
        state.get_user_by_unhashed(text).0.logs == state.logs,
        state.get_user_by_username(text).0.logs == state.logs,
        state.get_log_by_id(text).0.logs == state.logs,
        state.get_level_by_role(text).0.users == state.users,
        state.get_user_by_hashed(text).0.users == state.users,
        state.get_user_by_unhashed_st(text).0.users == state.users,
        state.get_user_by_unhashed(text).0.users == state.users,
        state.get_user_by_username(text).0.users == state.users,
        state.get_log_by_id(text).0.users == state.users,
{
    let by_hash = state.get_user_by_hashed(hash_of(text)).0;
    assert(by_hash.logs == state.logs && by_hash.users == state.users);
    assert(by_hash.get_user_by_unhashed_st(text).0.logs == by_hash.logs);
    assert(by_hash.get_user_by_unhashed_st(text).0.users == by_hash.users);
}

/// The writes to users touch no log.
proof fn lemma_base_writes_keep_logs(
    state: GuppyView,
    name: Seq<char>,
    text: Seq<char>,
    now: int,
    metadata: UserMetadataModel,
)
    ensures
        state.create_user(name, text, now).0.logs == state.logs,
        state.edit_user_metadata_by_name(name, metadata).0.logs == state.logs,
        state.ban_user_by_name(name).0.logs == state.logs,
{
    lemma_base_reads_keep_logs(state, name);
}

/// The lookups of posts touch neither logs nor counters.
proof fn lemma_post_reads_keep_ledger(
    state: DatabaseView,
    id: Seq<char>,
    user: Seq<char>,
    flag: bool,
)
    ensures
        same_ledger(state, state.get_post_by_id(id).0),
        same_ledger(state, state.get_post_replies(id, flag).0),
        same_ledger(state, state.get_post_favorites(id).0),
        same_ledger(state, state.get_user_post_favorite(user, id, flag).0),
        same_users(state, state.get_post_by_id(id).0),
        same_users(state, state.get_post_replies(id, flag).0),
        same_users(state, state.get_post_favorites(id).0),
        same_users(state, state.get_user_post_favorite(user, id, flag).0),
{
}

/// The lookups of posts with their replies and favorites touch neither logs nor counters.
proof fn lemma_joined_reads_keep_ledger(
    state: DatabaseView,
    id: Seq<char>,
    flag: bool,
    offset: Option<int>,
)
    ensures
        same_ledger(state, state.get_post_replies_full(id, flag).0),
        same_ledger(state, state.get_user_activity(id, offset).0),
        same_users(state, state.get_post_replies_full(id, flag).0),
        same_users(state, state.get_user_activity(id, offset).0),
{
    lemma_post_reads_keep_ledger(state, id, id, flag);
    let (first, shown) = state.get_post_replies(id, flag);
    if shown.success {
        lemma_joined_keeps_ledger(first, shown.payload->0);
    }
    lemma_base_reads_keep_logs(state.base, id);
    let (second, existing) = state.on_base(state.base.get_user_by_username(id));
    if existing.success {
        let (third, posts) = second.feed_shown(
            id,
            match offset {
                Some(offset) => offset,
                None => 0,
            },
        );
        assert(same_ledger(state, third) && same_users(state, third));
        lemma_joined_keeps_ledger(third, posts);
    }
}

/// The writes to posts and to boards touch neither logs nor counters.
proof fn lemma_post_writes_keep_ledger(
    state: DatabaseView,
    props: (Seq<char>, Seq<char>, Seq<char>),
    html: Seq<char>,
    id: Seq<char>,
    now: int,
    as_user: Option<Seq<char>>,
)
    ensures
        same_ledger(state, state.create_activity_post(props, html, id, now).0),
        same_ledger(state, state.delete_activity_post(id, as_user).0),
        same_ledger(state, state.create_mail_stream(props.0, props.1, id, now).0),
        same_users(state, state.create_activity_post(props, html, id, now).0),
        same_users(state, state.delete_activity_post(id, as_user).0),
        same_users(state, state.create_mail_stream(props.0, props.1, id, now).0),
{
    lemma_base_reads_keep_logs(state.base, props.1);
    lemma_base_reads_keep_logs(state.base, props.0);
    lemma_post_reads_keep_ledger(state, id, id, true);
    let first = state.on_base(state.base.get_user_by_username(props.1)).0;
    lemma_post_reads_keep_ledger(first, props.2, id, true);
    let found = state.get_post_by_id(id).0;
    if as_user is Some {
        lemma_base_reads_keep_logs(found.base, as_user->0);
    }
}

/// A call that is no toggle touches neither the logs of favorites nor the counters.
proof fn lemma_call_keeps_ledger(state: DatabaseView, call: Call)
    requires
        !(call is ToggleUserFollow),
        !(call is ToggleUserPostFavorite),
    ensures
        same_ledger(state, after(state, call)),
{
    match call {
        Call::GetUserByHashed(text) => lemma_base_reads_keep_logs(state.base, text),
        Call::GetUserByUnhashed(text) => lemma_base_reads_keep_logs(state.base, text),
        Call::GetUserByUnhashedSt(text) => lemma_base_reads_keep_logs(state.base, text),
        Call::GetUserByUsername(text) => lemma_base_reads_keep_logs(state.base, text),
        Call::GetLevelByRole(text) => lemma_base_reads_keep_logs(state.base, text),
        Call::GetLogById(text) => lemma_base_reads_keep_logs(state.base, text),
        Call::CreateUser(name, text, now) => lemma_base_writes_keep_logs(
            state.base,
            name,
            text,
            now,
            first_metadata(name),
        ),
        Call::EditUserMetadataByName(name, metadata) => lemma_base_writes_keep_logs(
            state.base,
            name,
            name,
            0,
            metadata,
        ),
        Call::BanUserByName(name) => lemma_base_writes_keep_logs(
            state.base,
            name,
            name,
            0,
            first_metadata(name),
        ),
        Call::GetPostById(id) => lemma_post_reads_keep_ledger(state, id, id, true),
        Call::GetPostReplies(id, check) => lemma_post_reads_keep_ledger(state, id, id, check),
        Call::GetPostFavorites(id) => lemma_post_reads_keep_ledger(state, id, id, true),
        Call::GetUserPostFavorite(user, id, skip) => lemma_post_reads_keep_ledger(
            state,
            id,
            user,
            skip,
        ),
        Call::GetPostRepliesFull(id, check) => lemma_joined_reads_keep_ledger(
            state,
            id,
            check,
            None,
        ),
        Call::GetUserActivity(name, offset) => lemma_joined_reads_keep_ledger(
            state,
            name,
            true,
            offset,
        ),
        Call::CreateActivityPost(content, author, reply, html, id, now) => lemma_post_writes_keep_ledger(
            state,
            (content, author, reply),
            html,
            id,
            now,
            None,
        ),
        Call::DeleteActivityPost(id, as_user) => lemma_post_writes_keep_ledger(
            state,
            (id, id, id),
            id,
            id,
            0,
            as_user,
        ),
        Call::CreateMailStream(user1, user2, id, now) => lemma_post_writes_keep_ledger(
            state,
            (user1, user2, id),
            id,
            id,
            now,
            None,
        ),
        Call::ToggleUserFollow(..) => {},
        Call::ToggleUserPostFavorite(..) => {},
    }
}

/// The counters hold after every call: where the logs are in order, fewer than the
/// counters can count, and every counter is the number of the logs of its post's
/// favorites, the same holds after any call, with at most one log more.
pub proof fn call_keeps_counters(state: DatabaseView, call: Call)
    requires
        ledger_in_order(state),
        state.base.logs.len() < i32::MAX,
        forall|post_id: Seq<char>| counts_favorites(state, post_id),
    ensures
        ledger_in_order(after(state, call)),
        after(state, call).base.logs.len() <= state.base.logs.len() + 1,
        forall|post_id: Seq<char>| counts_favorites(after(state, call), post_id),
{
    let next = after(state, call);
    let logs = state.base.logs;
    match call {
        Call::ToggleUserFollow(user, is_following, id, now) => {
            let looked = state.base.get_user_by_username(user).0;
            let twice = looked.get_user_by_username(is_following).0;
            assert(looked.logs == logs && twice.logs == logs);
            if user != is_following && state.base.get_user_by_username(user).1.success
                && looked.get_user_by_username(is_following).1.success {
                match twice.follow_log(user, is_following) {
                    Some(log) => {
                        lemma_without_key::<Log>(logs, log.id);
                        assert(without_key::<Log>(logs, log.id).len() <= logs.len());
                        let gone = twice.delete_log(log.id).0;
                        assert(gone.logs == logs || gone.logs == without_key::<Log>(
                            logs,
                            log.id,
                        ));
                        assert(next.base.logs == gone.logs);
                    },
                    None => {
                        let row = LogModel {
                            id,
                            logtype: "follow"@,
                            timestamp: now,
                            content: follow_content(user, is_following),
                        };
                        if !has_key::<Log>(logs, id) {
                            lemma_with_row::<Log>(logs, row);
                        }
                        lemma_place_of::<Log>(logs, now);
                        assert(with_row::<Log>(logs, row).len() == logs.len() + 1);
                        let made = twice.create_log("follow"@, row.content, id, now).0;
                        assert(made.logs == logs || made.logs == with_row::<Log>(logs, row));
                        assert(next.base.logs == made.logs);
                    },
                }
            } else {
                assert(next.base.logs == logs);
            }
            assert forall|post_id: Seq<char>| counts_favorites(next, post_id) by {
                other_operations_keep_count(
                    state,
                    post_id,
                    user,
                    is_following,
                    Seq::empty(),
                    first_metadata(Seq::empty()),
                    id,
                    now,
                );
            }
        },
        Call::ToggleUserPostFavorite(user, post_id, id, now) => {
            let (first, existing) = state.get_post_by_id(post_id);
            assert(first.base == state.base);
            if existing.success && existing.payload->0.author != user {
                match first.favorite_log(user, post_id) {
                    Some(log) => {
                        lemma_without_key::<Log>(logs, log.id);
                        assert(without_key::<Log>(logs, log.id).len() <= logs.len());
                    },
                    None => {
                        let row = LogModel {
                            id,
                            logtype: "post_favorite"@,
                            timestamp: now,
                            content: favorite_content(user, post_id),
                        };
                        if !has_key::<Log>(logs, id) {
                            lemma_with_row::<Log>(logs, row);
                        }
                        lemma_place_of::<Log>(logs, now);
                        assert(with_row::<Log>(logs, row).len() == logs.len() + 1);
                    },
                }
            }
            assert forall|counted: Seq<char>| counts_favorites(next, counted) by {
                favorite_toggle_keeps_count(state, user, post_id, id, now, counted);
            }
        },
        _ => {
            lemma_call_keeps_ledger(state, call);
            assert forall|post_id: Seq<char>| counts_favorites(next, post_id) by {
                assert(counts_favorites(state, post_id));
            }
        },
    }
}

/// The counter of every post is right in every state that calls of the library reach from
/// the database that holds nothing: it is the number of the logs that say that somebody
/// favorited the post, and `get_post_favorites` hands out that number for a post that
/// exists. The one limit is the machine's: the run has fewer calls than the counters can
/// count.
pub proof fn favorites_are_counted(calls: Seq<Call>, post_id: Seq<char>)
    requires
        calls.len() < i32::MAX,
    ensures
        ledger_in_order(reached(calls)),
        reached(calls).base.logs.len() <= calls.len(),
        forall|counted: Seq<char>| counts_favorites(reached(calls), counted),
        reached(calls).get_post_favorites(post_id).1.success ==> reached(calls).get_post_favorites(
            post_id,
        ).1.payload == favorites_in_logs(reached(calls), post_id),
        same_ledger(reached(calls), reached(calls).get_post_favorites(post_id).0),
    decreases calls.len(),
{
    reveal(Seq::filter);
    if calls.len() == 0 {
        let start = reached(calls);
        assert forall|counted: Seq<char>| counts_favorites(start, counted) by {
            assert(start.base.logs.filter(favorite_of(counted)).len() == 0);
        }
    } else {
        favorites_are_counted(calls.drop_last(), post_id);
        call_keeps_counters(reached(calls.drop_last()), calls.last());
    }
    assert(counts_favorites(reached(calls), post_id));
}

/// The users have unique names and stand newest first, as every coherent state has them.
pub open spec fn users_in_order(state: DatabaseView) -> bool {
    &&& keys_unique::<UserState<String>>(state.base.users)
    &&& newest_first::<UserState<String>>(state.base.users)
}

/// A name that the table holds is taken: creating a user of it fails with
/// "User already exists!", whether the user of the name is banned or not, and changes
/// nothing.
pub proof fn taken_name_is_refused(
    state: GuppyView,
    username: Seq<char>,
    unhashed: Seq<char>,
    now: int,
)
    requires
        has_key::<UserState<String>>(state.users, username),
    ensures
        state.create_user(username, unhashed, now) == (
            state,
            failure::<Option<Seq<char>>>("User already exists!"@, None),
        ),
{
}

/// The toggles touch no user.
proof fn lemma_toggles_keep_users(
    state: DatabaseView,
    user: Seq<char>,
    other: Seq<char>,
    id: Seq<char>,
    now: int,
)
    ensures
        state.base.toggle_user_follow(user, other, id, now).0.users == state.base.users,
        same_users(state, state.toggle_user_post_favorite(user, other, id, now).0),
{
    lemma_base_reads_keep_logs(state.base, user);
    let looked = state.base.get_user_by_username(user).0;
    lemma_base_reads_keep_logs(looked, other);
    lemma_post_reads_keep_ledger(state, other, user, true);
}

/// The writes to users keep the names unique.
proof fn lemma_user_writes_keep_names(
    state: GuppyView,
    name: Seq<char>,
    text: Seq<char>,
    now: int,
    metadata: UserMetadataModel,
)
    requires
        keys_unique::<UserState<String>>(state.users),
        newest_first::<UserState<String>>(state.users),
    ensures
        keys_unique::<UserState<String>>(state.create_user(name, text, now).0.users),
        newest_first::<UserState<String>>(state.create_user(name, text, now).0.users),
        keys_unique::<UserState<String>>(state.edit_user_metadata_by_name(name, metadata).0.users),
        newest_first::<UserState<String>>(
            state.edit_user_metadata_by_name(name, metadata).0.users,
        ),
        keys_unique::<UserState<String>>(state.ban_user_by_name(name).0.users),
        newest_first::<UserState<String>>(state.ban_user_by_name(name).0.users),
{
    lemma_base_reads_keep_logs(state, name);
    if !has_key::<UserState<String>>(state.users, name) {
        lemma_with_row::<UserState<String>>(state.users, GuppyView::new_user(name, text, now));
    }
    lemma_rewritten::<UserState<String>>(state.users, name, with_metadata(metadata_json(metadata)));
    lemma_rewritten::<UserState<String>>(state.users, name, with_role("banned"@));
}

/// Usernames stay unique after every call.
pub proof fn call_keeps_usernames(state: DatabaseView, call: Call)
    requires
        users_in_order(state),
    ensures
        users_in_order(after(state, call)),
{
    match call {
        Call::CreateUser(name, text, now) => lemma_user_writes_keep_names(
            state.base,
            name,
            text,
            now,
            first_metadata(name),
        ),
        Call::EditUserMetadataByName(name, metadata) => lemma_user_writes_keep_names(
            state.base,
            name,
            name,
            0,
            metadata,
        ),
        Call::BanUserByName(name) => lemma_user_writes_keep_names(
            state.base,
            name,
            name,
            0,
            first_metadata(name),
        ),
        Call::ToggleUserFollow(user, other, id, now) => lemma_toggles_keep_users(
            state,
            user,
            other,
            id,
            now,
        ),
        Call::ToggleUserPostFavorite(user, other, id, now) => lemma_toggles_keep_users(
            state,
            user,
            other,
            id,
            now,
        ),
        Call::GetUserByHashed(text) => lemma_base_reads_keep_logs(state.base, text),
        Call::GetUserByUnhashed(text) => lemma_base_reads_keep_logs(state.base, text),
        Call::GetUserByUnhashedSt(text) => lemma_base_reads_keep_logs(state.base, text),
        Call::GetUserByUsername(text) => lemma_base_reads_keep_logs(state.base, text),
        Call::GetLevelByRole(text) => lemma_base_reads_keep_logs(state.base, text),
        Call::GetLogById(text) => lemma_base_reads_keep_logs(state.base, text),
        Call::GetPostById(id) => lemma_post_reads_keep_ledger(state, id, id, true),
        Call::GetPostReplies(id, check) => lemma_post_reads_keep_ledger(state, id, id, check),
        Call::GetPostFavorites(id) => lemma_post_reads_keep_ledger(state, id, id, true),
        Call::GetUserPostFavorite(user, id, skip) => lemma_post_reads_keep_ledger(
            state,
            id,
            user,
            skip,
        ),
        Call::GetPostRepliesFull(id, check) => lemma_joined_reads_keep_ledger(
            state,
            id,
            check,
            None,
        ),
        Call::GetUserActivity(name, offset) => lemma_joined_reads_keep_ledger(
            state,
            name,
            true,
            offset,
        ),
        Call::CreateActivityPost(content, author, reply, html, id, now) => lemma_post_writes_keep_ledger(
            state,
            (content, author, reply),
            html,
            id,
            now,
            None,
        ),
        Call::DeleteActivityPost(id, as_user) => lemma_post_writes_keep_ledger(
            state,
            (id, id, id),
            id,
            id,
            0,
            as_user,
        ),
        Call::CreateMailStream(user1, user2, id, now) => lemma_post_writes_keep_ledger(
            state,
            (user1, user2, id),
            id,
            id,
            now,
            None,
        ),
    }
}

/// Usernames are unique in every state that calls of the library reach from the database
/// that holds nothing.
pub proof fn usernames_are_unique(calls: Seq<Call>)
    ensures
        users_in_order(reached(calls)),
    decreases calls.len(),
{
    if calls.len() > 0 {
        usernames_are_unique(calls.drop_last());
        call_keeps_usernames(reached(calls.drop_last()), calls.last());
    }
}

} // verus!
