use vstd::prelude::*;
use crate::api::auth::Handled;
use crate::api::auth::HandledModel;
use crate::api::auth::OffsetQueryProps;
use crate::db::plain::Plain;
use crate::db::records::Board;
use crate::db::records::DefaultReturn;
use crate::db::records::DefaultReturnModel;
use crate::db::records::MailStreamEntry;
use crate::db::records::MailStreamEntryModel;
use crate::db::records::UserMailStreamIdentifier;
use crate::db::BoardReturn;
use crate::db::Database;
use crate::db::DatabaseView;
use crate::pages::base::check_auth_status;
use crate::pages::base::signed_in;
use crate::text::text_is;

verus! {

/// The request to open the mail stream with a user: who asks must be signed in, and is
/// the first of the two users.
pub open spec fn stream_opened(
    state: DatabaseView,
    token: Option<Seq<char>>,
    name: Seq<char>,
    id: Seq<char>,
    now: int,
) -> (DatabaseView, HandledModel<BoardReturn>) {
    let (first, actor) = signed_in(state, token);
    match actor {
        None => (first, HandledModel::AccountRequired),
        Some(actor) => {
            let (second, out) = first.create_mail_stream(actor.user.username, name, id, now);
            (second, HandledModel::Done(out))
        },
    }
}

/// Opens the mail stream of the user of the token with the user of the name, unless
/// there is one.
pub fn open_stream_request(db: &mut Database, token: Option<String>, name: String) -> (out:
    Handled<DefaultReturn<Option<Board>>>)
    requires
        old(db).wf(),
    ensures
        final(db).wf(),
        exists|id: Seq<char>, now: int|
            (final(db)@, out.model()) == stream_opened(old(db)@, token.model(), name@, id, now),
{
    let ghost start = db@;
    let (_, actor) = check_auth_status(db, token);
    let ghost mid = db@;
    match actor {
        None => {
            assert((db@, HandledModel::<BoardReturn>::AccountRequired) == stream_opened(
                start,
                token.model(),
                name@,
                Seq::empty(),
                0,
            ));
            Handled::AccountRequired
        },
        Some(actor) => {
            let props = UserMailStreamIdentifier { user1: actor.user.username, user2: name };
            let out = db.create_mail_stream(&props);
            proof {
                let (id, now) = choose|id: Seq<char>, now: int|
                    (db@, out.model()) == mid.create_mail_stream(
                        props.user1@,
                        props.user2@,
                        id,
                        now,
                    );
                assert((db@, HandledModel::Done(out.model())) == stream_opened(
                    start,
                    token.model(),
                    name@,
                    id,
                    now,
                ));
            }
            Handled::Done(out)
        },
    }
}

/// Whether the request to open a mail stream added a board, and did not find one.
pub fn stream_was_created(out: &DefaultReturn<Option<Board>>) -> (created: bool)
    ensures
        created == (out.success && out.message@ == "Mail stream created"@),
{
    out.success && text_is(out.message.as_str(), "Mail stream created")
}

/// The request for the mail streams of who asks: they must be signed in.
pub open spec fn streams_listed(
    state: DatabaseView,
    token: Option<Seq<char>>,
    offset: Option<int>,
) -> (DatabaseView, HandledModel<DefaultReturnModel<Option<Seq<MailStreamEntryModel>>>>) {
    let (first, actor) = signed_in(state, token);
    match actor {
        None => (first, HandledModel::AccountRequired),
        Some(actor) => (
            first,
            HandledModel::Done(first.get_user_mail_streams(actor.user.username, offset)),
        ),
    }
}

/// One page of the mail streams of the user of the token.
pub fn streams_request(db: &mut Database, token: Option<String>, info: &OffsetQueryProps) -> (out:
    Handled<DefaultReturn<Option<Vec<MailStreamEntry>>>>)
    requires
        old(db).wf(),
    ensures
        final(db).wf(),
        (final(db)@, out.model()) == streams_listed(
            old(db)@,
            token.model(),
            info.offset.model(),
        ),
{
    let (_, actor) = check_auth_status(db, token);
    match actor {
        None => Handled::AccountRequired,
        Some(actor) => Handled::Done(db.get_user_mail_streams(actor.user.username, info.offset)),
    }
}

} // verus!
