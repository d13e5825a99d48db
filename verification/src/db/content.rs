use vstd::prelude::*;
use crate::db::keys::lemma_same_prefix;
use crate::db::plain::Plain;
use crate::db::records::UserMetadata;
use crate::db::records::UserMetadataModel;
use crate::json::escaped;
use crate::json::json_string;
use crate::json::json_text;
use crate::json::lemma_json_text_parts;
use crate::text::join;

verus! {

/// The content of the log that says that `user` follows `is_following`.
pub open spec fn follow_content(user: Seq<char>, is_following: Seq<char>) -> Seq<char> {
    "{"@ + follow_needle(user, is_following) + "}"@
}

/// What the content of the log that says that `user` follows `is_following` holds.
pub open spec fn follow_needle(user: Seq<char>, is_following: Seq<char>) -> Seq<char> {
    "\"user\":"@ + json_text(user) + ",\"is_following\":"@ + json_text(is_following)
}

/// What the content of every log of a follower of `user` holds.
pub open spec fn followers_needle(user: Seq<char>) -> Seq<char> {
    "\"is_following\":"@ + json_text(user)
}

/// What the content of every log of a user that `user` follows holds.
pub open spec fn following_needle(user: Seq<char>) -> Seq<char> {
    "\"user\":"@ + json_text(user)
}

/// The content of the log that says that `user` favorited the post `id`.
pub open spec fn favorite_content(user: Seq<char>, id: Seq<char>) -> Seq<char> {
    "{\"user\":"@ + json_text(user) + ",\"id\":"@ + json_text(id) + "}"@
}

/// What the metadata of the user with the hashed secondary token holds.
pub open spec fn token_needle(hashed: Seq<char>) -> Seq<char> {
    "\"secondary_token\":"@ + json_text(hashed)
}

/// What the content of the log that defines the level of a role holds.
pub open spec fn level_needle(role: Seq<char>) -> Seq<char> {
    "\"name\":"@ + json_text(role)
}

/// A text that may be missing, as JSON: `null` for a missing one.
pub open spec fn json_option(text: Option<Seq<char>>) -> Seq<char> {
    match text {
        Some(text) => json_text(text),
        None => "null"@,
    }
}

/// A user's metadata as the `Users` table holds it.
pub open spec fn metadata_json(metadata: UserMetadataModel) -> Seq<char> {
    "{\"about\":"@ + json_text(metadata.about) + ",\"avatar_url\":"@ + json_option(
        metadata.avatar_url,
    ) + ",\"secondary_token\":"@ + json_option(metadata.secondary_token) + ",\"allow_mail\":"@
        + json_option(metadata.allow_mail) + ",\"nickname\":"@ + json_option(metadata.nickname)
        + ",\"page_template\":"@ + json_option(metadata.page_template) + "}"@
}

/// The metadata of a new user: nothing about them, mail allowed, the username as nickname.
pub open spec fn first_metadata(username: Seq<char>) -> UserMetadataModel {
    UserMetadataModel {
        about: Seq::empty(),
        avatar_url: None,
        secondary_token: None,
        allow_mail: Some("yes"@),
        nickname: Some(username),
        page_template: None,
    }
}

/// The mark that the board of a mail stream carries: the two users of the stream.
pub open spec fn stream_mark(user1: Seq<char>, user2: Seq<char>) -> Seq<char> {
    "{\"_is_user_mail_stream\":true,\"user1\":"@ + json_text(user1) + ",\"user2\":"@ + json_text(
        user2,
    ) + "}"@
}

/// What the metadata of the board of the mail stream of the two users holds.
pub open spec fn stream_needle(user1: Seq<char>, user2: Seq<char>) -> Seq<char> {
    "\"about\":"@ + json_text(stream_mark(user1, user2))
}

/// The metadata of the board of a mail stream: private, open to posts, with the mark of
/// the two users as its text about itself.
pub open spec fn stream_metadata(user1: Seq<char>, user2: Seq<char>) -> Seq<char> {
    "{\"is_private\":\"yes\",\"allow_open_posting\":\"yes\","@ + stream_needle(user1, user2)
        + "}"@
}

/// What the metadata of every board of a mail stream with `user` as the first user holds.
pub open spec fn first_user_needle(user: Seq<char>) -> Seq<char> {
    escaped("\"user1\":"@ + json_text(user))
}

/// What the metadata of every board of a mail stream with `user` as the second user holds.
pub open spec fn second_user_needle(user: Seq<char>) -> Seq<char> {
    escaped("\"user2\":"@ + json_text(user))
}

/// The name of the board of a mail stream.
pub open spec fn stream_name(id: Seq<char>) -> Seq<char> {
    "inbox-"@ + id
}

/// The content of a favorite's log tells the user and the post: two such contents are the
/// same only for the same user and the same post.
pub proof fn lemma_favorite_content_tells(
    user: Seq<char>,
    id: Seq<char>,
    other_user: Seq<char>,
    other_id: Seq<char>,
)
    requires
        favorite_content(user, id) == favorite_content(other_user, other_id),
    ensures
        user == other_user,
        id == other_id,
{
    let open = "{\"user\":"@;
    let middle = ",\"id\":"@;
    let close = "}"@;
    let rest = json_text(user) + (middle + json_text(id) + close);
    let other_rest = json_text(other_user) + (middle + json_text(other_id) + close);
    assert(favorite_content(user, id) =~= open + rest);
    assert(favorite_content(other_user, other_id) =~= open + other_rest);
    lemma_same_prefix(open, rest, other_rest);
    lemma_json_text_parts(
        user,
        other_user,
        middle + json_text(id) + close,
        middle + json_text(other_id) + close,
    );
    assert(middle + json_text(id) + close =~= middle + (json_text(id) + close));
    assert(middle + json_text(other_id) + close =~= middle + (json_text(other_id) + close));
    lemma_same_prefix(
        middle,
        json_text(id) + close,
        json_text(other_id) + close,
    );
    lemma_json_text_parts(id, other_id, close, close);
}

pub fn stream_mark_text(user1: &str, user2: &str) -> (out: String)
    ensures
        out@ == stream_mark(user1@, user2@),
{
    let mut out = join("{\"_is_user_mail_stream\":true,\"user1\":", json_string(user1).as_str());
    out.append(",\"user2\":");
    out.append(json_string(user2).as_str());
    out.append("}");
    out
}

pub fn stream_needle_text(user1: &str, user2: &str) -> (out: String)
    ensures
        out@ == stream_needle(user1@, user2@),
{
    join("\"about\":", json_string(stream_mark_text(user1, user2).as_str()).as_str())
}

pub fn stream_metadata_text(user1: &str, user2: &str) -> (out: String)
    ensures
        out@ == stream_metadata(user1@, user2@),
{
    join(
        "{\"is_private\":\"yes\",\"allow_open_posting\":\"yes\",",
        stream_needle_text(user1, user2).as_str(),
    ).concat("}")
}

/// A text as it stands inside a JSON string, without the quotes around it.
pub fn escaped_text(text: &str) -> (out: String)
    ensures
        out@ == escaped(text@),
{
    let quoted = json_string(text);
    let size: usize = quoted.as_str().unicode_len();
    assert(quoted@.len() == escaped(text@).len() + 2);
    let out = String::from_str(quoted.as_str().substring_char(1, size - 1));
    assert(out@ =~= escaped(text@));
    out
}

pub fn first_user_needle_text(user: &str) -> (out: String)
    ensures
        out@ == first_user_needle(user@),
{
    escaped_text(join("\"user1\":", json_string(user).as_str()).as_str())
}

pub fn second_user_needle_text(user: &str) -> (out: String)
    ensures
        out@ == second_user_needle(user@),
{
    escaped_text(join("\"user2\":", json_string(user).as_str()).as_str())
}

pub fn stream_name_text(id: &str) -> (out: String)
    ensures
        out@ == stream_name(id@),
{
    join("inbox-", id)
}

pub fn follow_needle_text(user: &str, is_following: &str) -> (out: String)
    ensures
        out@ == follow_needle(user@, is_following@),
{
    let mut out = join("\"user\":", json_string(user).as_str());
    out.append(",\"is_following\":");
    out.append(json_string(is_following).as_str());
    out
}

pub fn follow_content_text(user: &str, is_following: &str) -> (out: String)
    ensures
        out@ == follow_content(user@, is_following@),
{
    join("{", follow_needle_text(user, is_following).as_str()).concat("}")
}

pub fn followers_needle_text(user: &str) -> (out: String)
    ensures
        out@ == followers_needle(user@),
{
    join("\"is_following\":", json_string(user).as_str())
}

pub fn following_needle_text(user: &str) -> (out: String)
    ensures
        out@ == following_needle(user@),
{
    join("\"user\":", json_string(user).as_str())
}

pub fn favorite_content_text(user: &str, id: &str) -> (out: String)
    ensures
        out@ == favorite_content(user@, id@),
{
    let mut out = join("{\"user\":", json_string(user).as_str());
    out.append(",\"id\":");
    out.append(json_string(id).as_str());
    out.append("}");
    out
}

pub fn token_needle_text(hashed: &str) -> (out: String)
    ensures
        out@ == token_needle(hashed@),
{
    join("\"secondary_token\":", json_string(hashed).as_str())
}

pub fn level_needle_text(role: &str) -> (out: String)
    ensures
        out@ == level_needle(role@),
{
    join("\"name\":", json_string(role).as_str())
}

pub fn json_option_text(text: &Option<String>) -> (out: String)
    ensures
        out@ == json_option(text.model()),
{
    match text {
        Some(text) => json_string(text.as_str()),
        None => String::from_str("null"),
    }
}

pub fn metadata_json_text(metadata: &UserMetadata) -> (out: String)
    ensures
        out@ == metadata_json(metadata.model()),
{
    let mut out = join("{\"about\":", json_string(metadata.about.as_str()).as_str());
    out.append(",\"avatar_url\":");
    out.append(json_option_text(&metadata.avatar_url).as_str());
    out.append(",\"secondary_token\":");
    out.append(json_option_text(&metadata.secondary_token).as_str());
    out.append(",\"allow_mail\":");
    out.append(json_option_text(&metadata.allow_mail).as_str());
    out.append(",\"nickname\":");
    out.append(json_option_text(&metadata.nickname).as_str());
    out.append(",\"page_template\":");
    out.append(json_option_text(&metadata.page_template).as_str());
    out.append("}");
    out
}

pub fn first_metadata_of(username: &String) -> (out: UserMetadata)
    ensures
        out.model() == first_metadata(username@),
{
    UserMetadata {
        about: String::new(),
        avatar_url: None,
        secondary_token: None,
        allow_mail: Some(String::from_str("yes")),
        nickname: Some(username.clone()),
        page_template: None,
    }
}

} // verus!
