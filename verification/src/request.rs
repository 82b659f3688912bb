//! The requests that the remote service understands.

use vstd::prelude::*;
use crate::text::signed_decimal;
use crate::views::views_of;

verus! {

/// How a request is sent.
#[derive(Clone, Copy, Debug, PartialEq, Eq, Structural)]
pub enum Method {
    Get,
    Post,
}

/// One request: where it goes, the header lines that go with it, and the
/// form fields that it posts.
#[derive(Debug)]
pub struct Request {
    pub method: Method,
    pub url: String,
    pub headers: Vec<String>,
    pub form: Vec<String>,
}

/// What a request holds, as plain values.
pub struct RequestView {
    pub method: Method,
    pub url: Seq<char>,
    pub headers: Seq<Seq<char>>,
    pub form: Seq<Seq<char>>,
}

impl View for Request {
    type V = RequestView;

    open spec fn view(&self) -> RequestView {
        RequestView {
            method: self.method,
            url: self.url@,
            headers: views_of(self.headers@),
            form: views_of(self.form@),
        }
    }
}

/// The header line that carries the session token.
pub open spec fn auth_header(token: Seq<char>) -> Seq<char> {
    "Authorization:GoogleLogin auth="@ + token
}

/// The login: the user name and the password, posted to the login path.
pub open spec fn login_request(
    api_url: Seq<char>,
    user: Seq<char>,
    password: Seq<char>,
) -> RequestView {
    RequestView {
        method: Method::Post,
        url: api_url + "/accounts/ClientLogin"@,
        headers: Seq::empty(),
        form: seq!["Email="@ + user, "Passwd="@ + password],
    }
}

/// A request for the list of subscriptions.
pub open spec fn subscription_list_request(api_url: Seq<char>, token: Seq<char>) -> RequestView {
    RequestView {
        method: Method::Get,
        url: api_url + "/reader/api/0/subscription/list?output=json"@,
        headers: seq![auth_header(token)],
        form: Seq::empty(),
    }
}

/// A request for the list of tags.
pub open spec fn tag_list_request(api_url: Seq<char>, token: Seq<char>) -> RequestView {
    RequestView {
        method: Method::Get,
        url: api_url + "/reader/api/0/tag/list?output=json"@,
        headers: seq![auth_header(token)],
        form: Seq::empty(),
    }
}

/// The text of a continuation token in a request: the token, or nothing.
pub open spec fn continuation_text(continuation: Option<Seq<char>>) -> Seq<char> {
    match continuation {
        Some(c) => c,
        None => Seq::empty(),
    }
}

/// The text of the watermark in a request: its decimal digits, or nothing
/// where no cycle has been completed yet.
pub open spec fn watermark_text(last_synced: Option<i64>) -> Seq<char> {
    match last_synced {
        Some(t) => signed_decimal(t as int),
        None => Seq::empty(),
    }
}

/// A request for one page of unread content: up to 1000 articles of the
/// reading list that are not read, from the continuation token on, bounded
/// by the watermark.
pub open spec fn unread_content_request(
    api_url: Seq<char>,
    token: Seq<char>,
    continuation: Option<Seq<char>>,
    last_synced: Option<i64>,
) -> RequestView {
    RequestView {
        method: Method::Get,
        url: api_url
            + "/reader/api/0/stream/contents?s=user/-/state/com.google/reading-list&xt=user/-/state/com.google/read&n=1000&r=n&c="@
            + continuation_text(continuation) + "&ot="@ + watermark_text(last_synced),
        headers: seq![auth_header(token)],
        form: Seq::empty(),
    }
}

/// A request for the identifiers of all unread articles, 10000 at most.
pub open spec fn unread_ids_request(api_url: Seq<char>, token: Seq<char>) -> RequestView {
    RequestView {
        method: Method::Get,
        url: api_url
            + "/reader/api/0/stream/items/ids?output=json&s=user/-/state/com.google/reading-list&xt=user/-/state/com.google/read&n=10000&r=n"@,
        headers: seq![auth_header(token)],
        form: Seq::empty(),
    }
}

/// The form field that adds the read tag, or the one that removes it.
pub open spec fn read_tag_field(unread: bool) -> Seq<char> {
    if unread {
        "r=user/-/state/com.google/read"@
    } else {
        "a=user/-/state/com.google/read"@
    }
}

/// A request that marks one article as read, or as unread, on the remote
/// service.
pub open spec fn edit_tag_request(
    api_url: Seq<char>,
    token: Seq<char>,
    article_id: Seq<char>,
    unread: bool,
) -> RequestView {
    RequestView {
        method: Method::Post,
        url: api_url + "/reader/api/0/edit-tag"@,
        headers: seq![auth_header(token)],
        form: seq!["i="@ + article_id, read_tag_field(unread)],
    }
}

} // verus!
