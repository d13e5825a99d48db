use vstd::prelude::*;
use crate::text::decimal;
use crate::text::decimal_text;
use crate::text::join;
use crate::text::lemma_decimal_has_no_colon;
use crate::text::lemma_decimal_tells;
use crate::text::starts_with;

verus! {

/// The identifier under which the cache holds a user.
pub open spec fn user_key(username: Seq<char>) -> Seq<char> {
    "user:"@ + username
}

/// The identifier under which the cache holds the level of a role.
pub open spec fn level_key(role: Seq<char>) -> Seq<char> {
    "level:"@ + role
}

/// The identifier under which the cache holds a log.
pub open spec fn log_key(id: Seq<char>) -> Seq<char> {
    "log:"@ + id
}

/// The identifier under which the cache holds a post.
pub open spec fn post_key(id: Seq<char>) -> Seq<char> {
    "post:"@ + id
}

/// The identifier under which the cache holds the replies to a post.
pub open spec fn replies_key(id: Seq<char>) -> Seq<char> {
    "post-replies:"@ + id
}

/// The identifier under which the cache counts the favorites of a post.
pub open spec fn favorites_key(id: Seq<char>) -> Seq<char> {
    "social:post-favorites:"@ + id
}

/// What the identifiers of all cached pages of a user's feed begin with.
pub open spec fn feed_prefix(username: Seq<char>) -> Seq<char> {
    "user-posts:"@ + username + ":offset"@
}

/// The identifier under which the cache holds one page of a user's feed.
pub open spec fn feed_key(username: Seq<char>, offset: int) -> Seq<char> {
    feed_prefix(username) + decimal(offset)
}

/// Two identifiers of one kind are the same only for the same object.
pub proof fn lemma_same_prefix(prefix: Seq<char>, left: Seq<char>, right: Seq<char>)
    requires
        prefix + left == prefix + right,
    ensures
        left == right,
{
    assert((prefix + left).subrange(prefix.len() as int, (prefix + left).len() as int) =~= left);
    assert((prefix + right).subrange(prefix.len() as int, (prefix + right).len() as int)
        =~= right);
}

/// The end of the identifier of a feed page, from the username on.
pub open spec fn feed_tail(username: Seq<char>, offset: int) -> Seq<char> {
    username + ":offset"@ + decimal(offset)
}

/// In the end of the identifier of a feed page, no colon stands behind the one that
/// follows the username.
proof fn lemma_feed_tail_colon(username: Seq<char>, offset: int, at: int)
    requires
        username.len() < at < feed_tail(username, offset).len(),
    ensures
        feed_tail(username, offset)[at] != ':',
        feed_tail(username, offset)[username.len() as int] == ':',
        feed_tail(username, offset).len() == username.len() + 7 + decimal(offset).len(),
{
    reveal_strlit(":offset");
    lemma_decimal_has_no_colon(offset);
    let word = ":offset"@;
    let tail = feed_tail(username, offset);
    let k = at - username.len();
    if k < 7 {
        assert(tail[at] == word[k]);
    } else {
        assert(tail[at] == decimal(offset)[k - 7]);
    }
    assert(tail[username.len() as int] == word[0]);
}

/// The identifier of a feed page tells the user and the offset: two pages have the same
/// identifier only where they are the same page.
pub proof fn lemma_feed_key_tells(
    username: Seq<char>,
    offset: int,
    other_name: Seq<char>,
    other_offset: int,
)
    requires
        feed_key(username, offset) == feed_key(other_name, other_offset),
    ensures
        username == other_name,
        offset == other_offset,
{
    reveal_strlit(":offset");
    lemma_decimal_has_no_colon(offset);
    lemma_decimal_has_no_colon(other_offset);
    let tail = feed_tail(username, offset);
    let other_tail = feed_tail(other_name, other_offset);
    assert(feed_key(username, offset) =~= "user-posts:"@ + tail);
    assert(feed_key(other_name, other_offset) =~= "user-posts:"@ + other_tail);
    lemma_same_prefix("user-posts:"@, tail, other_tail);
    assert(tail.len() == username.len() + 7 + decimal(offset).len());
    assert(other_tail.len() == other_name.len() + 7 + decimal(other_offset).len());
    if username.len() < other_name.len() {
        lemma_feed_tail_colon(username, offset, other_name.len() as int);
        lemma_feed_tail_colon(other_name, other_offset, (other_name.len() + 1) as int);
        assert(false);
    }
    if other_name.len() < username.len() {
        lemma_feed_tail_colon(other_name, other_offset, username.len() as int);
        lemma_feed_tail_colon(username, offset, (username.len() + 1) as int);
        assert(false);
    }
    assert(username =~= tail.subrange(0, username.len() as int));
    assert(other_name =~= other_tail.subrange(0, other_name.len() as int));
    assert(decimal(offset) =~= tail.subrange((username.len() + 7) as int, tail.len() as int));
    assert(decimal(other_offset) =~= other_tail.subrange(
        (other_name.len() + 7) as int,
        other_tail.len() as int,
    ));
    lemma_decimal_tells(offset, other_offset);
}

/// The identifier of every page of a user's feed begins with what `feed_prefix` gives
/// for the user.
pub proof fn lemma_feed_key_begins(username: Seq<char>, offset: int)
    ensures
        starts_with(feed_key(username, offset), feed_prefix(username)),
{
    let key = feed_key(username, offset);
    let prefix = feed_prefix(username);
    assert(key.subrange(0, prefix.len() as int) =~= prefix);
}

pub fn user_key_text(username: &str) -> (key: String)
    ensures
        key@ == user_key(username@),
{
    join("user:", username)
}

pub fn level_key_text(role: &str) -> (key: String)
    ensures
        key@ == level_key(role@),
{
    join("level:", role)
}

pub fn log_key_text(id: &str) -> (key: String)
    ensures
        key@ == log_key(id@),
{
    join("log:", id)
}

pub fn post_key_text(id: &str) -> (key: String)
    ensures
        key@ == post_key(id@),
{
    join("post:", id)
}

pub fn replies_key_text(id: &str) -> (key: String)
    ensures
        key@ == replies_key(id@),
{
    join("post-replies:", id)
}

pub fn favorites_key_text(id: &str) -> (key: String)
    ensures
        key@ == favorites_key(id@),
{
    join("social:post-favorites:", id)
}

pub fn feed_prefix_text(username: &str) -> (prefix: String)
    ensures
        prefix@ == feed_prefix(username@),
{
    join("user-posts:", username).concat(":offset")
}

pub fn feed_key_text(username: &str, offset: i32) -> (key: String)
    ensures
        key@ == feed_key(username@, offset as int),
{
    feed_prefix_text(username).concat(decimal_text(offset).as_str())
}

} // verus!
