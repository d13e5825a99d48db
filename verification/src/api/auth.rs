use vstd::prelude::*;
use crate::db::content::metadata_json;
use crate::db::guppydb::decode_metadata;
use crate::db::guppydb::decoded_metadata;
use crate::db::guppydb::fail;
use crate::db::guppydb::failure;
use crate::db::guppydb::LogsReturn;
use crate::db::guppydb::NameReturn;
use crate::db::guppydb::UserReturn;
use crate::db::records::ActivityPost;
use crate::db::records::DefaultReturnModel;
use crate::db::records::Log;
use crate::db::records::PCreatePost;
use crate::db::records::UserFollow;
use crate::db::records::UserMetadata;
use crate::db::records::UserMetadataModel;
use crate::db::Database;
use crate::db::DatabaseView;
use crate::db::PostReturn;
use crate::pages::base::check_auth_status;
use crate::pages::base::signed_in;
use crate::utility::hash;
use crate::utility::hash_of;
use crate::utility::trim;
use crate::utility::trimmed_of;
use crate::utility::uuid;
use crate::db::has_permission;
use crate::db::plain::Plain;
use crate::db::records::DefaultReturn;
use crate::db::records::FullUser;
use crate::db::records::FullUserModel;
use crate::db::records::RoleLevel;
use crate::db::records::RoleLevelModel;
use crate::text::chars_of;
use crate::text::join;
use crate::text::matches_at;
use crate::text::occurs_at;
use crate::text::text_len;
use crate::text::utf8_len;

verus! {

/// The query of a request for one page of a list.
#[derive(Clone, Debug, PartialEq)]
pub struct OffsetQueryProps {
    pub offset: Option<i32>,
}

impl OffsetQueryProps {
    /// The offset of the query; none counts as zero.
    pub fn offset_or_zero(&self) -> (offset: i32)
        ensures
            offset == match self.offset {
                Some(offset) => offset,
                None => 0,
            },
    {
        match self.offset {
            Some(offset) => offset,
            None => 0,
        }
    }
}

/// The cookie that signs a user in for a year with their token.
pub open spec fn session_cookie(token: Seq<char>) -> Seq<char> {
    "__Secure-Token="@ + token
        + "; SameSite=Lax; Secure; Path=/; HostOnly=true; HttpOnly=true; Max-Age=31536000"@
}

/// The cookie that signs a user out.
pub open spec fn refresh_cookie() -> Seq<char> {
    "__Secure-Token=refresh; SameSite=Strict; Secure; Path=/; HostOnly=true; HttpOnly=true; Max-Age=0"@
}

/// The cookie that signs a user in for a year with their token.
pub fn session_cookie_text(token: &str) -> (cookie: String)
    ensures
        cookie@ == session_cookie(token@),
{
    join("__Secure-Token=", token).concat(
        "; SameSite=Lax; Secure; Path=/; HostOnly=true; HttpOnly=true; Max-Age=31536000",
    )
}

/// The cookie that signs a user out.
pub fn refresh_cookie_text() -> (cookie: String)
    ensures
        cookie@ == refresh_cookie(),
{
    String::from_str(
        "__Secure-Token=refresh; SameSite=Strict; Secure; Path=/; HostOnly=true; HttpOnly=true; Max-Age=0",
    )
}

/// The cookie that answers a registration: that of a session with the unhashed id, which
/// is the message of a success; none for a failure.
pub fn registration_cookie(made: &DefaultReturn<Option<String>>) -> (cookie: String)
    ensures
        cookie@ == (if made.success && made.payload is Some {
            session_cookie(made.message@)
        } else {
            Seq::empty()
        }),
{
    if made.success && made.payload.is_some() {
        session_cookie_text(made.message.as_str())
    } else {
        String::new()
    }
}

/// The part of `text` from `from` to `to` stands between commas or the ends of the text
/// and holds no comma.
pub open spec fn is_part(text: Seq<char>, from: int, to: int) -> bool {
    &&& 0 <= from <= to <= text.len()
    &&& (from == 0 || text[from - 1] == ',')
    &&& (to == text.len() || text[to] == ',')
    &&& forall|k: int| from <= k < to ==> text[k] != ','
}

/// `code` is one of the codes of a list with commas between them.
pub open spec fn listed(codes: Seq<char>, code: Seq<char>) -> bool {
    exists|from: int, to: int| is_part(codes, from, to) && codes.subrange(from, to) == code
}

/// Whether `code` is one of the codes of a list with commas between them.
pub fn is_listed(codes: &str, code: &str) -> (found: bool)
    ensures
        found == listed(codes@, code@),
{
    let text = chars_of(codes);
    let wanted = chars_of(code);
    let mut from: usize = 0;
    loop
        invariant
            text@ == codes@,
            wanted@ == code@,
            from <= text@.len(),
            from == 0 || text@[from - 1] == ',',
            forall|f: int, t: int|
                is_part(text@, f, t) && f < from ==> text@.subrange(f, t) != wanted@,
        decreases text@.len() - from,
    {
        let mut to: usize = from;
        while to < text.len() && text[to] != ','
            invariant
                from <= to <= text@.len(),
                forall|k: int| from <= k < to ==> text@[k] != ',',
            decreases text@.len() - to,
        {
            to += 1;
        }
        assert(is_part(text@, from as int, to as int));
        if to - from == wanted.len() && matches_at(&text, &wanted, from) {
            return true;
        }
        proof {
            assert forall|f: int, t: int|
                is_part(text@, f, t) && f < to + 1 implies text@.subrange(f, t) != wanted@ by {
                if f >= from {
                    if f > from {
                        assert(text@[f - 1] == ',');
                    }
                    if t < to {
                        assert(text@[t] == ',');
                    }
                    if t > to {
                        assert(text@[to as int] != ',');
                    }
                    assert(f == from && t == to);
                    if text@.subrange(f, t) == wanted@ {
                        assert(occurs_at(text@, wanted@, from as int));
                    }
                }
            }
        }
        if to == text.len() {
            proof {
                assert forall|f: int, t: int| is_part(text@, f, t) implies text@.subrange(f, t)
                    != wanted@ by {
                }
            }
            return false;
        }
        from = to + 1;
    }
}

/// What stands in the way of a registration.
#[derive(Clone, Copy, Debug, PartialEq, Eq)]
pub enum RegistrationGate {
    /// The server takes no registrations.
    Disabled,
    /// The server wants an invite code and the request has none.
    CodeMissing,
    /// The invite code of the request is not one of the server's.
    CodeInvalid,
    /// Nothing: the registration may go on.
    Open,
}

/// What stands in the way of a registration, given whether the server has registration
/// disabled, its invite codes, and the code of the request.
pub open spec fn registration_gate_of(
    disabled: bool,
    invite_codes: Option<Seq<char>>,
    invite_code: Option<Seq<char>>,
) -> RegistrationGate {
    if disabled {
        RegistrationGate::Disabled
    } else {
        match invite_codes {
            None => RegistrationGate::Open,
            Some(codes) => match invite_code {
                None => RegistrationGate::CodeMissing,
                Some(code) => if listed(codes, code) {
                    RegistrationGate::Open
                } else {
                    RegistrationGate::CodeInvalid
                },
            },
        }
    }
}

/// What stands in the way of a registration.
pub fn registration_gate(
    disabled: bool,
    invite_codes: &Option<String>,
    invite_code: &Option<String>,
) -> (gate: RegistrationGate)
    ensures
        gate == registration_gate_of(disabled, invite_codes.model(), invite_code.model()),
{
    if disabled {
        return RegistrationGate::Disabled;
    }
    match invite_codes {
        None => RegistrationGate::Open,
        Some(codes) => match invite_code {
            None => RegistrationGate::CodeMissing,
            Some(code) => if is_listed(codes.as_str(), code.as_str()) {
                RegistrationGate::Open
            } else {
                RegistrationGate::CodeInvalid
            },
        },
    }
}

impl RegistrationGate {
    /// The words that go back to the request where the registration may not go on.
    pub fn message(&self) -> (text: String)
        ensures
            text@ == match *self {
                RegistrationGate::Disabled => "This server requires has registration disabled."@,
                RegistrationGate::CodeMissing => "This server requires an invite code to register."@,
                RegistrationGate::CodeInvalid => "Invalid invite code."@,
                RegistrationGate::Open => Seq::empty(),
            },
    {
        match self {
            RegistrationGate::Disabled => String::from_str(
                "This server requires has registration disabled.",
            ),
            RegistrationGate::CodeMissing => String::from_str(
                "This server requires an invite code to register.",
            ),
            RegistrationGate::CodeInvalid => String::from_str("Invalid invite code."),
            RegistrationGate::Open => String::new(),
        }
    }
}

/// A user may manage the profile of a name where it is their own or they hold
/// "ManageUsers".
pub open spec fn may_manage(actor: FullUserModel<Seq<char>>, username: Seq<char>) -> bool {
    actor.user.username == username || actor.level.permissions.contains("ManageUsers"@)
}

/// Whether a user may manage the profile of a name.
pub fn can_manage_user(actor: &FullUser<String>, username: &String) -> (allowed: bool)
    ensures
        allowed == may_manage(actor.model(), username@),
{
    actor.user.username == *username || has_permission(&actor.level, "ManageUsers")
}

/// A text that a user may say about themselves: its UTF-8 form has 2 to 200000 bytes.
pub open spec fn valid_about(about: Seq<char>) -> bool {
    2 <= utf8_len(about) <= 200000
}

/// Whether a user may say the text about themselves.
pub fn is_valid_about(about: &String) -> (valid: bool)
    ensures
        valid == valid_about(about@),
{
    let size: usize = text_len(about.as_str());
    2 <= size && size <= 200000
}

/// The level that is shown for a user who is not found.
pub fn anonymous_level() -> (level: RoleLevel)
    ensures
        level.model() == (RoleLevelModel {
            elevation: -1000,
            name: "anonymous"@,
            permissions: Seq::empty(),
        }),
{
    let level = RoleLevel {
        elevation: -1000,
        name: String::from_str("anonymous"),
        permissions: Vec::new(),
    };
    assert(level.permissions.model() =~= Seq::<Seq<char>>::empty());
    level
}

/// How a request ends that needs an account, and for some a profile and the right to
/// manage it.
#[derive(Clone, Debug, PartialEq)]
pub enum Handled<T> {
    /// Nobody is signed in.
    AccountRequired,
    /// The profile of the request is not found.
    ProfileMissing,
    /// The user may not manage the profile.
    Forbidden,
    /// The user does not hold "ManageUsers".
    StaffOnly,
    /// The operation ran; this is its result.
    Done(T),
}

/// The model of a [`Handled`].
pub enum HandledModel<M> {
    AccountRequired,
    ProfileMissing,
    Forbidden,
    StaffOnly,
    Done(M),
}

impl<T: Plain> Plain for Handled<T> {
    type Model = HandledModel<T::Model>;

    open spec fn model(&self) -> HandledModel<T::Model> {
        match self {
            Handled::AccountRequired => HandledModel::AccountRequired,
            Handled::ProfileMissing => HandledModel::ProfileMissing,
            Handled::Forbidden => HandledModel::Forbidden,
            Handled::StaffOnly => HandledModel::StaffOnly,
            Handled::Done(out) => HandledModel::Done(out.model()),
        }
    }

    fn replica(&self) -> (out: Handled<T>) {
        match self {
            Handled::AccountRequired => Handled::AccountRequired,
            Handled::ProfileMissing => Handled::ProfileMissing,
            Handled::Forbidden => Handled::Forbidden,
            Handled::StaffOnly => Handled::StaffOnly,
            Handled::Done(out) => Handled::Done(out.replica()),
        }
    }
}

impl<T> Handled<T> {
    /// The status of the response.
    pub fn status(&self) -> (status: u16)
        ensures
            status == match *self {
                Handled::AccountRequired => 406u16,
                Handled::ProfileMissing => 404u16,
                Handled::Forbidden => 404u16,
                Handled::StaffOnly => 406u16,
                Handled::Done(_) => 200u16,
            },
    {
        match self {
            Handled::AccountRequired => 406,
            Handled::ProfileMissing => 404,
            Handled::Forbidden => 404,
            Handled::StaffOnly => 406,
            Handled::Done(_) => 200,
        }
    }

    /// The words of the response where the operation did not run.
    pub fn words(&self) -> (text: String)
        ensures
            text@ == match *self {
                Handled::AccountRequired => "An account is required to do this"@,
                Handled::ProfileMissing => "Profile does not exist!"@,
                Handled::Forbidden => "You do not have permission to manage this user's contents."@,
                Handled::StaffOnly => "Only staff can do this"@,
                Handled::Done(_) => Seq::empty(),
            },
    {
        match self {
            Handled::AccountRequired => String::from_str("An account is required to do this"),
            Handled::ProfileMissing => String::from_str("Profile does not exist!"),
            Handled::Forbidden => String::from_str(
                "You do not have permission to manage this user's contents.",
            ),
            Handled::StaffOnly => String::from_str("Only staff can do this"),
            Handled::Done(_) => String::new(),
        }
    }
}

/// The result of a request with the state after it.
pub type HandledNames = (DatabaseView, HandledModel<NameReturn>);

/// A request to manage the profile of a name: who asks must be signed in, the profile
/// must be found, and who asks must own it or hold "ManageUsers". Where all holds, the
/// profile's user is handed on.
pub open spec fn managing(state: DatabaseView, token: Option<Seq<char>>, name: Seq<char>) -> (
    DatabaseView,
    HandledModel<FullUserModel<Seq<char>>>,
) {
    let (first, actor) = signed_in(state, token);
    match actor {
        None => (first, HandledModel::AccountRequired),
        Some(actor) => {
            let (second, profile) = first.on_base(first.base.get_user_by_username(name));
            match profile.payload {
                None => (second, HandledModel::ProfileMissing),
                Some(profile) => if may_manage(actor, profile.user.username) {
                    (second, HandledModel::Done(profile))
                } else {
                    (second, HandledModel::Forbidden)
                },
            }
        },
    }
}

/// Checks a request to manage the profile of a name.
pub fn manage(db: &mut Database, token: Option<String>, name: &String) -> (out: Handled<
    FullUser<String>,
>)
    requires
        old(db).wf(),
    ensures
        final(db).wf(),
        (final(db)@, out.model()) == managing(old(db)@, token.model(), name@),
{
    let (_, actor) = check_auth_status(db, token);
    let actor = match actor {
        Some(actor) => actor,
        None => {
            return Handled::AccountRequired;
        },
    };
    let profile = db.get_user_by_username(name.clone());
    match profile.payload {
        None => Handled::ProfileMissing,
        Some(profile) => if can_manage_user(&actor, &profile.user.username) {
            Handled::Done(profile)
        } else {
            Handled::Forbidden
        },
    }
}

/// The metadata with another text about the user.
pub open spec fn with_about(metadata: UserMetadataModel, about: Seq<char>) -> UserMetadataModel {
    UserMetadataModel { about, ..metadata }
}

/// The metadata with another secondary token.
pub open spec fn with_token(metadata: UserMetadataModel, hashed: Seq<char>) -> UserMetadataModel {
    UserMetadataModel { secondary_token: Some(hashed), ..metadata }
}

/// The request to say something else about a user: for who may manage the profile, a text
/// of valid length goes into the metadata that the profile holds.
pub open spec fn about_edited(
    state: DatabaseView,
    token: Option<Seq<char>>,
    name: Seq<char>,
    about: Seq<char>,
) -> HandledNames {
    let (first, checked) = managing(state, token, name);
    match checked {
        HandledModel::Done(profile) => if !valid_about(about) {
            (first, HandledModel::Done(failure("Content is invalid"@, None)))
        } else {
            match decoded_metadata(profile.user.metadata) {
                None => (first, HandledModel::Done(failure("User metadata is malformed"@, None))),
                Some(metadata) => {
                    let (second, out) = first.on_base(
                        first.base.edit_user_metadata_by_name(name, with_about(metadata, about)),
                    );
                    (second, HandledModel::Done(out))
                },
            }
        },
        HandledModel::AccountRequired => (first, HandledModel::AccountRequired),
        HandledModel::ProfileMissing => (first, HandledModel::ProfileMissing),
        HandledModel::Forbidden => (first, HandledModel::Forbidden),
        HandledModel::StaffOnly => (first, HandledModel::StaffOnly),
    }
}

/// Says something else about a user, for a request with the token.
pub fn edit_about_request(db: &mut Database, token: Option<String>, name: String, about: String) -> (out:
    Handled<DefaultReturn<Option<String>>>)
    requires
        old(db).wf(),
    ensures
        final(db).wf(),
        (final(db)@, out.model()) == about_edited(old(db)@, token.model(), name@, about@),
{
    match manage(db, token, &name) {
        Handled::Done(profile) => {
            if !is_valid_about(&about) {
                return Handled::Done(fail("Content is invalid", None));
            }
            match decode_metadata(&profile.user.metadata) {
                None => Handled::Done(fail("User metadata is malformed", None)),
                Some(metadata) => {
                    let changed = UserMetadata {
                        about,
                        avatar_url: metadata.avatar_url,
                        secondary_token: metadata.secondary_token,
                        allow_mail: metadata.allow_mail,
                        nickname: metadata.nickname,
                        page_template: metadata.page_template,
                    };
                    Handled::Done(db.edit_user_metadata_by_name(name, changed))
                },
            }
        },
        Handled::AccountRequired => Handled::AccountRequired,
        Handled::ProfileMissing => Handled::ProfileMissing,
        Handled::Forbidden => Handled::Forbidden,
        Handled::StaffOnly => Handled::StaffOnly,
    }
}

/// The request for a new secondary token: for who may manage the profile, the hash of the
/// token goes into the metadata that the profile holds, and the token is the payload.
pub open spec fn token_refreshed(
    state: DatabaseView,
    token: Option<Seq<char>>,
    name: Seq<char>,
    fresh: Seq<char>,
) -> (DatabaseView, HandledModel<DefaultReturnModel<Seq<char>>>) {
    let (first, checked) = managing(state, token, name);
    match checked {
        HandledModel::Done(profile) => match decoded_metadata(profile.user.metadata) {
            None => (first, HandledModel::Done(failure("User metadata is malformed"@, fresh))),
            Some(metadata) => {
                let (second, out) = first.on_base(
                    first.base.edit_user_metadata_by_name(
                        name,
                        with_token(metadata, hash_of(fresh)),
                    ),
                );
                (
                    second,
                    HandledModel::Done(
                        DefaultReturnModel {
                            success: out.success,
                            message: out.message,
                            payload: fresh,
                        },
                    ),
                )
            },
        },
        HandledModel::AccountRequired => (first, HandledModel::AccountRequired),
        HandledModel::ProfileMissing => (first, HandledModel::ProfileMissing),
        HandledModel::Forbidden => (first, HandledModel::Forbidden),
        HandledModel::StaffOnly => (first, HandledModel::StaffOnly),
    }
}

/// Gives a user a new secondary token, a fresh random one, for a request with the token.
pub fn refresh_secondary_token_request(db: &mut Database, token: Option<String>, name: String) -> (out:
    Handled<DefaultReturn<String>>)
    requires
        old(db).wf(),
    ensures
        final(db).wf(),
        exists|fresh: Seq<char>|
            (final(db)@, out.model()) == token_refreshed(old(db)@, token.model(), name@, fresh),
{
    let fresh = uuid();
    refresh_secondary_token_with(db, token, name, fresh)
}

/// Gives a user the new secondary token, for a request with the token.
pub fn refresh_secondary_token_with(
    db: &mut Database,
    token: Option<String>,
    name: String,
    fresh: String,
) -> (out: Handled<DefaultReturn<String>>)
    requires
        old(db).wf(),
    ensures
        final(db).wf(),
        (final(db)@, out.model()) == token_refreshed(old(db)@, token.model(), name@, fresh@),
{
    match manage(db, token, &name) {
        Handled::Done(profile) => match decode_metadata(&profile.user.metadata) {
            None => Handled::Done(fail("User metadata is malformed", fresh)),
            Some(metadata) => {
                let changed = UserMetadata {
                    about: metadata.about,
                    avatar_url: metadata.avatar_url,
                    secondary_token: Some(hash(fresh.clone())),
                    allow_mail: metadata.allow_mail,
                    nickname: metadata.nickname,
                    page_template: metadata.page_template,
                };
                let out = db.edit_user_metadata_by_name(name, changed);
                Handled::Done(
                    DefaultReturn { success: out.success, message: out.message, payload: fresh },
                )
            },
        },
        Handled::AccountRequired => Handled::AccountRequired,
        Handled::ProfileMissing => Handled::ProfileMissing,
        Handled::Forbidden => Handled::Forbidden,
        Handled::StaffOnly => Handled::StaffOnly,
    }
}

/// The request to change the metadata of a user: for who may manage the profile.
pub open spec fn metadata_updated(
    state: DatabaseView,
    token: Option<Seq<char>>,
    name: Seq<char>,
    metadata: UserMetadataModel,
) -> HandledNames {
    let (first, checked) = managing(state, token, name);
    match checked {
        HandledModel::Done(profile) => {
            let (second, out) = first.on_base(
                first.base.edit_user_metadata_by_name(name, metadata),
            );
            (second, HandledModel::Done(out))
        },
        HandledModel::AccountRequired => (first, HandledModel::AccountRequired),
        HandledModel::ProfileMissing => (first, HandledModel::ProfileMissing),
        HandledModel::Forbidden => (first, HandledModel::Forbidden),
        HandledModel::StaffOnly => (first, HandledModel::StaffOnly),
    }
}

/// Changes the metadata of a user, for a request with the token.
pub fn update_request(db: &mut Database, token: Option<String>, name: String, metadata: UserMetadata) -> (out:
    Handled<DefaultReturn<Option<String>>>)
    requires
        old(db).wf(),
    ensures
        final(db).wf(),
        (final(db)@, out.model()) == metadata_updated(
            old(db)@,
            token.model(),
            name@,
            metadata.model(),
        ),
{
    match manage(db, token, &name) {
        Handled::Done(_) => Handled::Done(db.edit_user_metadata_by_name(name, metadata)),
        Handled::AccountRequired => Handled::AccountRequired,
        Handled::ProfileMissing => Handled::ProfileMissing,
        Handled::Forbidden => Handled::Forbidden,
        Handled::StaffOnly => Handled::StaffOnly,
    }
}

/// The request to follow a user or to follow them no more: who asks must be signed in.
pub open spec fn follow_toggled(
    state: DatabaseView,
    token: Option<Seq<char>>,
    name: Seq<char>,
    id: Seq<char>,
    now: int,
) -> HandledNames {
    let (first, actor) = signed_in(state, token);
    match actor {
        None => (first, HandledModel::AccountRequired),
        Some(actor) => {
            let (second, out) = first.on_base(
                first.base.toggle_user_follow(actor.user.username, name, id, now),
            );
            (second, HandledModel::Done(out))
        },
    }
}

/// Toggles whether the user of the token follows the user of the name.
pub fn follow_request(db: &mut Database, token: Option<String>, name: String) -> (out: Handled<
    DefaultReturn<Option<String>>,
>)
    requires
        old(db).wf(),
    ensures
        final(db).wf(),
        exists|id: Seq<char>, now: int|
            (final(db)@, out.model()) == follow_toggled(old(db)@, token.model(), name@, id, now),
{
    let ghost start = db@;
    let (_, actor) = check_auth_status(db, token);
    let ghost mid = db@;
    match actor {
        None => {
            assert((db@, HandledModel::<NameReturn>::AccountRequired) == follow_toggled(
                start,
                token.model(),
                name@,
                Seq::empty(),
                0,
            ));
            Handled::AccountRequired
        },
        Some(actor) => {
            let props = UserFollow { user: actor.user.username, is_following: name };
            let out = db.toggle_user_follow(&props);
            proof {
                let (id, now) = choose|id: Seq<char>, now: int|
                    (db@, out.model()) == mid.on_base(
                        mid.base.toggle_user_follow(props.user@, props.is_following@, id, now),
                    );
                assert((db@, HandledModel::Done(out.model())) == follow_toggled(
                    start,
                    token.model(),
                    name@,
                    id,
                    now,
                ));
            }
            Handled::Done(out)
        },
    }
}

/// The request to ban a user: who asks must be signed in and hold "ManageUsers".
pub open spec fn ban_asked(state: DatabaseView, token: Option<Seq<char>>, name: Seq<char>) -> HandledNames {
    let (first, actor) = signed_in(state, token);
    match actor {
        None => (first, HandledModel::AccountRequired),
        Some(actor) => if !actor.level.permissions.contains("ManageUsers"@) {
            (first, HandledModel::StaffOnly)
        } else {
            let (second, out) = first.on_base(first.base.ban_user_by_name(name));
            (second, HandledModel::Done(out))
        },
    }
}

/// Bans the user of the name, for a request with the token.
pub fn ban_request(db: &mut Database, token: Option<String>, name: String) -> (out: Handled<
    DefaultReturn<Option<String>>,
>)
    requires
        old(db).wf(),
    ensures
        final(db).wf(),
        (final(db)@, out.model()) == ban_asked(old(db)@, token.model(), name@),
{
    let (_, actor) = check_auth_status(db, token);
    match actor {
        None => Handled::AccountRequired,
        Some(actor) => if !has_permission(&actor.level, "ManageUsers") {
            Handled::StaffOnly
        } else {
            Handled::Done(db.ban_user_by_name(name))
        },
    }
}

/// The request to post: who asks must be signed in, and is the author.
pub open spec fn activity_posted(
    state: DatabaseView,
    token: Option<Seq<char>>,
    content: Seq<char>,
    reply: Seq<char>,
    content_html: Seq<char>,
    id: Seq<char>,
    now: int,
) -> (DatabaseView, HandledModel<PostReturn>) {
    let (first, actor) = signed_in(state, token);
    match actor {
        None => (first, HandledModel::AccountRequired),
        Some(actor) => {
            let (second, out) = first.create_activity_post(
                (content, actor.user.username, reply),
                content_html,
                id,
                now,
            );
            (second, HandledModel::Done(out))
        },
    }
}

/// Posts for the user of the token. The caller hands in the content as rendered.
pub fn post_activity_request(
    db: &mut Database,
    token: Option<String>,
    props: &PCreatePost,
    content_html: String,
) -> (out: Handled<DefaultReturn<Option<ActivityPost>>>)
    requires
        old(db).wf(),
    ensures
        final(db).wf(),
        exists|id: Seq<char>, now: int|
            (final(db)@, out.model()) == activity_posted(
                old(db)@,
                token.model(),
                props.content@,
                props.reply@,
                content_html@,
                id,
                now,
            ),
{
    let ghost start = db@;
    let (_, actor) = check_auth_status(db, token);
    let ghost mid = db@;
    match actor {
        None => {
            assert((db@, HandledModel::<PostReturn>::AccountRequired) == activity_posted(
                start,
                token.model(),
                props.content@,
                props.reply@,
                content_html@,
                Seq::empty(),
                0,
            ));
            Handled::AccountRequired
        },
        Some(actor) => {
            let signed = PCreatePost {
                content: props.content.clone(),
                author: actor.user.username,
                reply: props.reply.clone(),
            };
            let ghost html = content_html@;
            let out = db.create_activity_post(&signed, content_html);
            proof {
                let (id, now) = choose|id: Seq<char>, now: int|
                    (db@, out.model()) == mid.create_activity_post(
                        (signed.content@, signed.author@, signed.reply@),
                        html,
                        id,
                        now,
                    );
                assert((db@, HandledModel::Done(out.model())) == activity_posted(
                    start,
                    token.model(),
                    props.content@,
                    props.reply@,
                    html,
                    id,
                    now,
                ));
            }
            Handled::Done(out)
        },
    }
}

/// The request to favorite a post or to favorite it no more: who asks must be signed in.
pub open spec fn favorite_toggled(
    state: DatabaseView,
    token: Option<Seq<char>>,
    post_id: Seq<char>,
    id: Seq<char>,
    now: int,
) -> HandledNames {
    let (first, actor) = signed_in(state, token);
    match actor {
        None => (first, HandledModel::AccountRequired),
        Some(actor) => {
            let (second, out) = first.toggle_user_post_favorite(
                actor.user.username,
                post_id,
                id,
                now,
            );
            (second, HandledModel::Done(out))
        },
    }
}

/// Toggles the favorite of the user of the token on a post.
pub fn favorite_request(db: &mut Database, token: Option<String>, post_id: String) -> (out:
    Handled<DefaultReturn<Option<String>>>)
    requires
        old(db).wf(),
    ensures
        final(db).wf(),
        exists|id: Seq<char>, now: int|
            (final(db)@, out.model()) == favorite_toggled(
                old(db)@,
                token.model(),
                post_id@,
                id,
                now,
            ),
{
    let ghost start = db@;
    let (_, actor) = check_auth_status(db, token);
    let ghost mid = db@;
    match actor {
        None => {
            assert((db@, HandledModel::<NameReturn>::AccountRequired) == favorite_toggled(
                start,
                token.model(),
                post_id@,
                Seq::empty(),
                0,
            ));
            Handled::AccountRequired
        },
        Some(actor) => {
            let ghost user = actor.user.username@;
            let ghost post = post_id@;
            let out = db.toggle_user_post_favorite(actor.user.username, post_id);
            proof {
                let (id, now) = choose|id: Seq<char>, now: int|
                    (db@, out.model()) == mid.toggle_user_post_favorite(user, post, id, now);
                assert((db@, HandledModel::Done(out.model())) == favorite_toggled(
                    start,
                    token.model(),
                    post,
                    id,
                    now,
                ));
            }
            Handled::Done(out)
        },
    }
}

/// The request to delete a post: who asks must be signed in.
pub open spec fn activity_deleted(state: DatabaseView, token: Option<Seq<char>>, post_id: Seq<char>) -> (
    DatabaseView,
    HandledModel<DefaultReturnModel<bool>>,
) {
    let (first, actor) = signed_in(state, token);
    match actor {
        None => (first, HandledModel::AccountRequired),
        Some(actor) => {
            let (second, out) = first.delete_activity_post(post_id, Some(actor.user.username));
            (second, HandledModel::Done(out))
        },
    }
}

/// Deletes a post as the user of the token.
pub fn delete_activity_request(db: &mut Database, token: Option<String>, post_id: String) -> (out:
    Handled<DefaultReturn<bool>>)
    requires
        old(db).wf(),
    ensures
        final(db).wf(),
        (final(db)@, out.model()) == activity_deleted(old(db)@, token.model(), post_id@),
{
    let (_, actor) = check_auth_status(db, token);
    match actor {
        None => Handled::AccountRequired,
        Some(actor) => Handled::Done(db.delete_activity_post(post_id, Some(actor.user.username))),
    }
}

/// The request to register: the username without the white space at its ends.
pub open spec fn registered(
    state: DatabaseView,
    username: Seq<char>,
    unhashed: Seq<char>,
    now: int,
) -> (DatabaseView, NameReturn) {
    state.on_base(state.base.create_user(trimmed_of(username), unhashed, now))
}

/// Registers a user, for a request that has passed the registration's conditions.
pub fn register(db: &mut Database, username: &String) -> (out: DefaultReturn<Option<String>>)
    requires
        old(db).wf(),
    ensures
        final(db).wf(),
        exists|unhashed: Seq<char>, now: int|
            (final(db)@, out.model()) == registered(old(db)@, username@, unhashed, now),
{
    let ghost start = db@;
    let name = trim(username.as_str());
    let out = db.create_user(name);
    proof {
        let (unhashed, now) = choose|unhashed: Seq<char>, now: int|
            (db@, out.model()) == start.on_base(
                start.base.create_user(trimmed_of(username@), unhashed, now),
            );
        assert((db@, out.model()) == registered(start, username@, unhashed, now));
    }
    out
}

/// The request to sign in with an unhashed id: the user whose hashed id is the hash of
/// the id without the white space at its ends.
pub open spec fn logged_in(state: DatabaseView, uid: Seq<char>) -> (DatabaseView, UserReturn) {
    state.on_base(state.base.get_user_by_hashed(hash_of(trimmed_of(uid))))
}

/// Signs a user in with their unhashed id.
pub fn login(db: &mut Database, uid: &String) -> (out: DefaultReturn<Option<FullUser<String>>>)
    requires
        old(db).wf(),
    ensures
        final(db).wf(),
        (final(db)@, out.model()) == logged_in(old(db)@, uid@),
{
    db.get_user_by_hashed(hash(trim(uid.as_str())))
}

/// The request to sign in with a secondary token: the user whose token it is, without
/// the white space at its ends.
pub open spec fn logged_in_with_token(state: DatabaseView, uid: Seq<char>) -> (
    DatabaseView,
    UserReturn,
) {
    state.on_base(state.base.get_user_by_unhashed_st(trimmed_of(uid)))
}

/// Signs a user in with their secondary token.
pub fn login_secondary_token(db: &mut Database, uid: &String) -> (out: DefaultReturn<
    Option<FullUser<String>>,
>)
    requires
        old(db).wf(),
    ensures
        final(db).wf(),
        (final(db)@, out.model()) == logged_in_with_token(old(db)@, uid@),
{
    db.get_user_by_unhashed_st(trim(uid.as_str()))
}

/// The cookie that answers a sign-in: that of a session with the id as it was given, for
/// a success; none for a failure.
pub fn login_cookie(found: &DefaultReturn<Option<FullUser<String>>>, uid: &String) -> (cookie:
    String)
    ensures
        cookie@ == (if found.success {
            session_cookie(uid@)
        } else {
            Seq::empty()
        }),
{
    if found.success {
        session_cookie_text(uid.as_str())
    } else {
        String::new()
    }
}

/// How a request to sign out ends.
#[derive(Clone, Copy, Debug, PartialEq, Eq)]
pub enum SignedOut {
    /// The request has no token.
    MissingToken,
    /// The token is nobody's.
    InvalidToken,
    /// The user is signed out.
    Done,
}

/// The request to sign out.
pub open spec fn logged_out(state: DatabaseView, token: Option<Seq<char>>) -> (
    DatabaseView,
    SignedOut,
) {
    match token {
        None => (state, SignedOut::MissingToken),
        Some(token) => {
            let (after, found) = state.on_base(state.base.get_user_by_unhashed(token));
            (
                after,
                if found.success {
                    SignedOut::Done
                } else {
                    SignedOut::InvalidToken
                },
            )
        },
    }
}

/// Signs the user of the token out.
pub fn logout(db: &mut Database, token: Option<String>) -> (out: SignedOut)
    requires
        old(db).wf(),
    ensures
        final(db).wf(),
        (final(db)@, out) == logged_out(old(db)@, token.model()),
{
    match token {
        None => SignedOut::MissingToken,
        Some(token) => if db.get_user_by_unhashed(token).success {
            SignedOut::Done
        } else {
            SignedOut::InvalidToken
        },
    }
}

impl SignedOut {
    /// The words of the response.
    pub fn words(&self) -> (text: String)
        ensures
            text@ == match *self {
                SignedOut::MissingToken => "Missing token"@,
                SignedOut::InvalidToken => "Invalid token"@,
                SignedOut::Done => "You have been signed out. You can now close this tab."@,
            },
    {
        match self {
            SignedOut::MissingToken => String::from_str("Missing token"),
            SignedOut::InvalidToken => String::from_str("Invalid token"),
            SignedOut::Done => String::from_str(
                "You have been signed out. You can now close this tab.",
            ),
        }
    }
}

/// The request for the name of the user of a token: empty for nobody.
pub open spec fn who_is(state: DatabaseView, token: Option<Seq<char>>) -> (
    DatabaseView,
    Seq<char>,
) {
    let (after, actor) = signed_in(state, token);
    (
        after,
        match actor {
            Some(actor) => actor.user.username,
            None => Seq::empty(),
        },
    )
}

/// The name of the user of a token.
pub fn whoami(db: &mut Database, token: Option<String>) -> (name: String)
    requires
        old(db).wf(),
    ensures
        final(db).wf(),
        (final(db)@, name@) == who_is(old(db)@, token.model()),
{
    let (_, actor) = check_auth_status(db, token);
    match actor {
        Some(actor) => actor.user.username,
        None => String::new(),
    }
}

/// The request for the level of a user: that of nobody for a user who is not found.
pub open spec fn level_asked(state: DatabaseView, name: Seq<char>) -> (
    DatabaseView,
    RoleLevelModel,
) {
    let (after, found) = state.on_base(state.base.get_user_by_username(name));
    (
        after,
        match found.payload {
            Some(user) => user.level,
            None => RoleLevelModel {
                elevation: -1000,
                name: "anonymous"@,
                permissions: Seq::empty(),
            },
        },
    )
}

/// The level of the user of a name.
pub fn level_request(db: &mut Database, name: String) -> (level: RoleLevel)
    requires
        old(db).wf(),
    ensures
        final(db).wf(),
        (final(db)@, level.model()) == level_asked(old(db)@, name@),
{
    match db.get_user_by_username(name).payload {
        Some(user) => user.level,
        None => anonymous_level(),
    }
}

/// How a request for the avatar of a user ends.
#[derive(Clone, Debug, PartialEq)]
pub enum AvatarSource {
    /// The profile is not found, or its metadata cannot be read.
    ProfileMissing,
    /// The user has set no avatar.
    NoAvatar,
    /// The avatar is to be fetched from the address.
    Fetch(String),
}

/// The model of an [`AvatarSource`].
pub enum AvatarSourceModel {
    ProfileMissing,
    NoAvatar,
    Fetch(Seq<char>),
}

impl Plain for AvatarSource {
    type Model = AvatarSourceModel;

    open spec fn model(&self) -> AvatarSourceModel {
        match self {
            AvatarSource::ProfileMissing => AvatarSourceModel::ProfileMissing,
            AvatarSource::NoAvatar => AvatarSourceModel::NoAvatar,
            AvatarSource::Fetch(url) => AvatarSourceModel::Fetch(url@),
        }
    }

    fn replica(&self) -> (out: AvatarSource) {
        match self {
            AvatarSource::ProfileMissing => AvatarSource::ProfileMissing,
            AvatarSource::NoAvatar => AvatarSource::NoAvatar,
            AvatarSource::Fetch(url) => AvatarSource::Fetch(url.clone()),
        }
    }
}

/// The request for the avatar of a user: the address that their metadata holds.
pub open spec fn avatar_asked(state: DatabaseView, name: Seq<char>) -> (
    DatabaseView,
    AvatarSourceModel,
) {
    let (after, found) = state.on_base(state.base.get_user_by_username(name));
    (
        after,
        match found.payload {
            None => AvatarSourceModel::ProfileMissing,
            Some(user) => match decoded_metadata(user.user.metadata) {
                None => AvatarSourceModel::ProfileMissing,
                Some(metadata) => match metadata.avatar_url {
                    None => AvatarSourceModel::NoAvatar,
                    Some(url) => AvatarSourceModel::Fetch(url),
                },
            },
        },
    )
}

/// Where the avatar of the user of a name is to be had.
pub fn avatar_request(db: &mut Database, name: String) -> (out: AvatarSource)
    requires
        old(db).wf(),
    ensures
        final(db).wf(),
        (final(db)@, out.model()) == avatar_asked(old(db)@, name@),
{
    match db.get_user_by_username(name).payload {
        None => AvatarSource::ProfileMissing,
        Some(user) => match decode_metadata(&user.user.metadata) {
            None => AvatarSource::ProfileMissing,
            Some(metadata) => match metadata.avatar_url {
                None => AvatarSource::NoAvatar,
                Some(url) => AvatarSource::Fetch(url),
            },
        },
    }
}

/// One page of the followers of a user, for a request with the query.
pub fn followers_request(db: &Database, name: String, info: &OffsetQueryProps) -> (out:
    DefaultReturn<Option<Vec<Log>>>)
    requires
        db.wf(),
    ensures
        out.model() == db@.base.get_user_followers(name@, info.offset.model()),
{
    db.get_user_followers(name, info.offset)
}

/// One page of the users that a user follows, for a request with the query.
pub fn following_request(db: &Database, name: String, info: &OffsetQueryProps) -> (out:
    DefaultReturn<Option<Vec<Log>>>)
    requires
        db.wf(),
    ensures
        out.model() == db@.base.get_user_following(name@, info.offset.model()),
{
    db.get_user_following(name, info.offset)
}

} // verus!
