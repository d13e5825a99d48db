use vstd::prelude::*;
use crate::api::auth::refresh_cookie;
use crate::api::auth::refresh_cookie_text;
use crate::db::Database;
use crate::db::DatabaseView;
use crate::db::records::FullUserModel;
use crate::db::plain::Plain;
use crate::db::records::FullUser;
use crate::text::chars_of;
use crate::text::push_char;

verus! {

/// What every page needs of the server's settings.
#[derive(Clone, Debug, PartialEq)]
pub struct BaseTemplate {
    pub info: String,
    pub auth_state: bool,
    pub bundlrs: String,
    pub deducktive: String,
    pub site_name: String,
    pub body_embed: String,
}

/// A setting, or the text that stands for a missing one.
pub fn or_text(setting: Option<String>, missing: &str) -> (out: String)
    ensures
        out@ == match setting.model() {
            Some(setting) => setting,
            None => missing@,
        },
{
    match setting {
        Some(setting) => setting,
        None => String::from_str(missing),
    }
}

/// What every page needs, from whether the request has a token and from the settings
/// `INFO`, `BODY_EMBED`, `BUNDLRS_ROOT`, `DEDUCKTIVE_ROOT` and `SITE_NAME`: a missing
/// `INFO` is "/pub/info", a missing `SITE_NAME` is "Guppy", any other missing one is empty.
pub fn get_base_values(
    token_cookie: bool,
    info: Option<String>,
    body_embed: Option<String>,
    bundlrs: Option<String>,
    deducktive: Option<String>,
    site_name: Option<String>,
) -> (base: BaseTemplate)
    ensures
        base.auth_state == token_cookie,
        base.info@ == match info.model() {
            Some(info) => info,
            None => "/pub/info"@,
        },
        base.body_embed@ == match body_embed.model() {
            Some(body_embed) => body_embed,
            None => ""@,
        },
        base.bundlrs@ == match bundlrs.model() {
            Some(bundlrs) => bundlrs,
            None => ""@,
        },
        base.deducktive@ == match deducktive.model() {
            Some(deducktive) => deducktive,
            None => ""@,
        },
        base.site_name@ == match site_name.model() {
            Some(site_name) => site_name,
            None => "Guppy"@,
        },
{
    BaseTemplate {
        info: or_text(info, "/pub/info"),
        auth_state: token_cookie,
        bundlrs: or_text(bundlrs, ""),
        deducktive: or_text(deducktive, ""),
        site_name: or_text(site_name, "Guppy"),
        body_embed: or_text(body_embed, ""),
    }
}

/// Who a request comes from, by its token, and the state after the lookup.
pub open spec fn signed_in(state: DatabaseView, token: Option<Seq<char>>) -> (
    DatabaseView,
    Option<FullUserModel<Seq<char>>>,
) {
    match token {
        None => (state, None),
        Some(token) => {
            let (after, found) = state.on_base(state.base.get_user_by_unhashed(token));
            (after, found.payload)
        },
    }
}

/// Who a request comes from, by its token: the user whose unhashed id or secondary token
/// it is. A token of nobody is answered with the cookie that signs out; no token and a
/// good token with no cookie.
pub fn check_auth_status(db: &mut Database, token: Option<String>) -> (out: (
    String,
    Option<FullUser<String>>,
))
    requires
        old(db).wf(),
    ensures
        final(db).wf(),
        (final(db)@, out.1.model()) == signed_in(old(db)@, token.model()),
        out.0@ == (if token is Some && out.1 is None {
            refresh_cookie()
        } else {
            Seq::empty()
        }),
{
    match token {
        None => (String::new(), None),
        Some(token) => {
            let found = db.get_user_by_unhashed(token);
            if found.success {
                (String::new(), found.payload)
            } else {
                (refresh_cookie_text(), None)
            }
        },
    }
}

/// How one character stands in the text of a page: the five characters that mean
/// something to HTML by their names, any other as it is.
pub open spec fn html_escaped_char(c: char) -> Seq<char> {
    if c == '<' {
        "&lt;"@
    } else if c == '>' {
        "&gt;"@
    } else if c == '&' {
        "&amp;"@
    } else if c == '"' {
        "&quot;"@
    } else if c == '\'' {
        "&#x27;"@
    } else {
        seq![c]
    }
}

/// A text as it stands in the text of a page.
pub open spec fn html_escaped(text: Seq<char>) -> Seq<char>
    decreases text.len(),
{
    if text.len() == 0 {
        Seq::empty()
    } else {
        html_escaped(text.drop_last()) + html_escaped_char(text.last())
    }
}

/// A text as it stands in the text of a page.
pub fn escape_html(text: &str) -> (out: String)
    ensures
        out@ == html_escaped(text@),
{
    let chars = chars_of(text);
    let mut out = String::new();
    let mut i: usize = 0;
    proof {
        assert(text@.take(0) =~= Seq::<char>::empty());
    }
    while i < chars.len()
        invariant
            chars@ == text@,
            i <= chars@.len(),
            out@ == html_escaped(text@.take(i as int)),
        decreases chars@.len() - i,
    {
        let c = chars[i];
        proof {
            assert(text@.take(i + 1).drop_last() =~= text@.take(i as int));
            assert(text@.take(i + 1).last() == c);
        }
        if c == '<' {
            out.append("&lt;");
        } else if c == '>' {
            out.append("&gt;");
        } else if c == '&' {
            out.append("&amp;");
        } else if c == '"' {
            out.append("&quot;");
        } else if c == '\'' {
            out.append("&#x27;");
        } else {
            push_char(&mut out, c);
        }
        i += 1;
    }
    assert(text@.take(i as int) =~= text@);
    out
}

} // verus!
