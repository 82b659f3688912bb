//! The remote feed service: what it sends, and the session that talks to it.

use vstd::prelude::*;
use crate::config::{Config, ConfigView};
use crate::db::{CreateArticleParams, CreateCategoryParams, CreateFeedParams, DB};
use crate::error::SyncError;
use crate::merge::{
    insert_categories, store_items, store_items_result, subscribe_all, subscribe_all_result,
};
use crate::request;
use crate::request::{Method, Request};
use crate::text::{
    chars_of, first_line_len, has_prefix, lemma_first_line_len, push_signed_decimal,
    range_has_prefix, trim, trim_range,
};
use crate::views::{lemma_views_push, opt_view, views_of};

verus! {

/// A category as the remote service names it.
#[derive(Debug)]
pub struct Category {
    pub id: String,
    pub label: String,
}

/// What a category holds, as plain values.
pub struct CategoryView {
    pub id: Seq<char>,
    pub label: Seq<char>,
}

impl View for Category {
    type V = CategoryView;

    open spec fn view(&self) -> CategoryView {
        CategoryView { id: self.id@, label: self.label@ }
    }
}

impl Clone for Category {
    fn clone(&self) -> (r: Self)
        ensures
            r@ == self@,
    {
        Category { id: self.id.clone(), label: self.label.clone() }
    }
}

/// One subscription of the remote account.
#[derive(Debug)]
pub struct Subscription {
    pub id: String,
    pub title: String,
    pub categories: Vec<Category>,
    pub url: String,
    pub html_url: String,
    pub icon_url: String,
}

/// What a subscription holds, as plain values.
pub struct SubscriptionView {
    pub id: Seq<char>,
    pub title: Seq<char>,
    pub categories: Seq<CategoryView>,
    pub url: Seq<char>,
    pub html_url: Seq<char>,
    pub icon_url: Seq<char>,
}

impl View for Subscription {
    type V = SubscriptionView;

    open spec fn view(&self) -> SubscriptionView {
        SubscriptionView {
            id: self.id@,
            title: self.title@,
            categories: views_of(self.categories@),
            url: self.url@,
            html_url: self.html_url@,
            icon_url: self.icon_url@,
        }
    }
}

/// The answer to a request for the subscription list.
#[derive(Debug)]
pub struct Subscriptions {
    pub subscriptions: Vec<Subscription>,
}

impl View for Subscriptions {
    type V = Seq<SubscriptionView>;

    open spec fn view(&self) -> Seq<SubscriptionView> {
        views_of(self.subscriptions@)
    }
}

/// A tag of the remote account.
#[derive(Debug)]
pub struct Tag {
    pub id: String,
    pub tag_type: Option<String>,
    pub unread_count: Option<i32>,
}

/// The answer to a request for the tag list.
#[derive(Debug)]
pub struct Tags {
    pub tags: Vec<Tag>,
}

/// The text of an item.
#[derive(Debug)]
pub struct ItemSummary {
    pub content: String,
}

/// A link to an item.
#[derive(Debug)]
pub struct ItemCanonical {
    pub href: String,
}

impl View for ItemCanonical {
    type V = Seq<char>;

    open spec fn view(&self) -> Seq<char> {
        self.href@
    }
}

/// The feed that an item comes from.
#[derive(Debug)]
pub struct ItemOrigin {
    pub stream_id: String,
    pub html_url: String,
    pub title: String,
}

/// One article of a page of unread content.
#[derive(Debug)]
pub struct Item {
    pub id: String,
    pub published: i64,
    pub title: String,
    pub summary: ItemSummary,
    pub canonical: Vec<ItemCanonical>,
    pub categories: Vec<String>,
    pub origin: ItemOrigin,
}

/// What the store reads of an item, as plain values.
pub struct ItemView {
    pub id: Seq<char>,
    pub published: i64,
    pub title: Seq<char>,
    pub content: Seq<char>,
    /// The links of the item, in order.
    pub canonical: Seq<Seq<char>>,
    /// The identifier of the feed that the item comes from.
    pub stream_id: Seq<char>,
}

impl View for Item {
    type V = ItemView;

    open spec fn view(&self) -> ItemView {
        ItemView {
            id: self.id@,
            published: self.published,
            title: self.title@,
            content: self.summary.content@,
            canonical: views_of(self.canonical@),
            stream_id: self.origin.stream_id@,
        }
    }
}

/// One page of unread content.
#[derive(Debug)]
pub struct ReadingList {
    pub id: String,
    pub updated: i64,
    pub items: Vec<Item>,
    /// Where the next page begins; `None` on the last page.
    pub continuation: Option<String>,
}

/// What a page holds, as plain values.
pub struct ReadingListView {
    pub items: Seq<ItemView>,
    pub continuation: Option<Seq<char>>,
}

impl View for ReadingList {
    type V = ReadingListView;

    open spec fn view(&self) -> ReadingListView {
        ReadingListView {
            items: views_of(self.items@),
            continuation: opt_view(self.continuation),
        }
    }
}

/// The identifier of one unread item.
#[derive(Debug)]
pub struct UnreadItemId {
    pub id: String,
}

impl View for UnreadItemId {
    type V = Seq<char>;

    open spec fn view(&self) -> Seq<char> {
        self.id@
    }
}

/// The identifiers of all the items that the remote service holds unread.
#[derive(Debug)]
pub struct UnreadItemIds {
    pub item_refs: Vec<UnreadItemId>,
    pub continuation: Option<String>,
}

impl View for UnreadItemIds {
    type V = Seq<Seq<char>>;

    open spec fn view(&self) -> Seq<Seq<char>> {
        views_of(self.item_refs@)
    }
}

/// The session token that a login response carries. The first line that
/// begins with `Auth=` decides: the token is the rest of that line without
/// the white space at its ends, and an empty one is none.
pub open spec fn auth_token(body: Seq<char>) -> Option<Seq<char>>
    decreases body.len(),
{
    let end = first_line_len(body) as int;
    let line = body.take(end);
    if has_prefix(line, "Auth="@) {
        let token = trim(line.skip(5));
        if token.len() > 0 {
            Some(token)
        } else {
            None
        }
    } else if end >= body.len() {
        None
    } else {
        auth_token(body.skip(end + 1))
    }
}

/// Reads the session token out of a login response.
pub fn find_auth_token(body: &str) -> (r: Option<String>)
    ensures
        opt_view(r) == auth_token(body@),
{
    let v: Vec<char> = chars_of(body);
    let prefix: Vec<char> = chars_of("Auth=");
    proof {
        reveal_strlit("Auth=");
    }
    let n: usize = v.len();
    let mut start: usize = 0;
    assert(v@.skip(0) =~= v@);
    loop
        invariant
            start <= n,
            n == v@.len(),
            v@ == body@,
            prefix@ == "Auth="@,
            prefix@.len() == 5,
            auth_token(body@) == auth_token(v@.skip(start as int)),
        decreases n - start,
    {
        let mut end: usize = start;
        while end < n && v[end] != '\n'
            invariant
                start <= end <= n,
                n == v@.len(),
                forall|j: int| start <= j < end ==> v@[j] != '\n',
            decreases n - end,
        {
            end += 1;
        }
        let ghost rest = v@.skip(start as int);
        let ghost line = rest.take(end - start);
        proof {
            lemma_first_line_len(rest, end - start);
            assert(line =~= v@.subrange(start as int, end as int));
        }
        if range_has_prefix(&v, start, end, &prefix) {
            let (a, b) = trim_range(&v, start + 5, end);
            assert(line.skip(5) =~= v@.subrange(start + 5, end as int));
            if a == b {
                return None;
            }
            let token = body.substring_char(a, b);
            return Some(String::from_str(token));
        }
        if end >= n {
            return None;
        }
        assert(rest.skip(end - start + 1) =~= v@.skip(end + 1));
        start = end + 1;
    }
}

/// A session with the remote service.
#[derive(Debug)]
pub struct Greader {
    cltoken: String,
    api_url: String,
}

/// What a session holds, as plain values.
pub struct GreaderView {
    pub cltoken: Seq<char>,
    pub api_url: Seq<char>,
}

impl View for Greader {
    type V = GreaderView;

    closed spec fn view(&self) -> GreaderView {
        GreaderView { cltoken: self.cltoken@, api_url: self.api_url@ }
    }
}

impl Clone for Greader {
    fn clone(&self) -> (r: Self)
        ensures
            r@ == self@,
    {
        Greader { cltoken: self.cltoken.clone(), api_url: self.api_url.clone() }
    }
}

impl Default for Greader {
    fn default() -> (r: Self)
        ensures
            r@ == (GreaderView { cltoken: Seq::empty(), api_url: Seq::empty() }),
    {
        Greader { cltoken: String::new(), api_url: String::new() }
    }
}

/// What a login comes to: without the base URL, the user name or the
/// password nothing is sent; with them, the response must carry a token.
pub open spec fn login_outcome(config: ConfigView, response: Seq<char>) -> Result<
    GreaderView,
    SyncError,
> {
    if !config.has_credentials() {
        Err(SyncError::MissingCredentials)
    } else {
        match auth_token(response) {
            Some(token) => Ok(
                GreaderView { cltoken: token, api_url: config.fresh_rss_api_url.unwrap() },
            ),
            None => Err(SyncError::AuthRejected),
        }
    }
}

/// The login request of `config`, where it has all that a login needs.
pub open spec fn login_request_of(config: ConfigView) -> Result<request::RequestView, SyncError> {
    if !config.has_credentials() {
        Err(SyncError::MissingCredentials)
    } else {
        Ok(
            request::login_request(
                config.fresh_rss_api_url.unwrap(),
                config.fresh_rss_api_user.unwrap(),
                config.fresh_rss_api_password.unwrap(),
            ),
        )
    }
}

/// The view of a result that holds a session.
pub open spec fn session_view(r: Result<Greader, SyncError>) -> Result<GreaderView, SyncError> {
    match r {
        Ok(g) => Ok(g@),
        Err(e) => Err(e),
    }
}

/// The view of a result that holds a request.
pub open spec fn request_view(r: Result<Request, SyncError>) -> Result<
    request::RequestView,
    SyncError,
> {
    match r {
        Ok(q) => Ok(q@),
        Err(e) => Err(e),
    }
}

/// A request to the session's service that carries the session token.
fn authorized(method: Method, api_url: &String, path: &str, token: &String) -> (r: Request)
    ensures
        r@ == (request::RequestView {
            method,
            url: api_url@ + path@,
            headers: seq![request::auth_header(token@)],
            form: Seq::empty(),
        }),
{
    let mut url = api_url.clone();
    url.append(path);
    let mut header = String::from_str("Authorization:GoogleLogin auth=");
    header.append(token.as_str());
    let mut headers: Vec<String> = Vec::new();
    headers.push(header);
    let r = Request { method, url, headers, form: Vec::new() };
    assert(r@.headers =~= seq![request::auth_header(token@)]);
    assert(r@.form =~= Seq::empty());
    r
}

impl Greader {
    /// The session token.
    pub fn token(&self) -> (r: &String)
        ensures
            r@ == self@.cltoken,
    {
        &self.cltoken
    }

    /// The base URL of the remote service.
    pub fn api_url(&self) -> (r: &String)
        ensures
            r@ == self@.api_url,
    {
        &self.api_url
    }

    /// The request that logs in with what `config` holds; nothing is to be
    /// sent where the base URL, the user name or the password is missing.
    pub fn login_request(config: &Config) -> (r: Result<Request, SyncError>)
        ensures
            request_view(r) == login_request_of(config@),
    {
        match (
            &config.fresh_rss_api_url,
            &config.fresh_rss_api_user,
            &config.fresh_rss_api_password,
        ) {
            (Some(api_url), Some(user), Some(password)) => {
                let mut url = api_url.clone();
                url.append("/accounts/ClientLogin");
                let mut email = String::from_str("Email=");
                email.append(user.as_str());
                let mut passwd = String::from_str("Passwd=");
                passwd.append(password.as_str());
                let mut form: Vec<String> = Vec::new();
                form.push(email);
                form.push(passwd);
                let q = Request { method: Method::Post, url, headers: Vec::new(), form };
                proof {
                    assert(q@.headers =~= Seq::empty());
                    assert(q@.form =~= seq!["Email="@ + user@, "Passwd="@ + password@]);
                }
                Ok(q)
            },
            _ => Err(SyncError::MissingCredentials),
        }
    }

    /// Opens a session from the response to the login request: the response
    /// must carry a token.
    pub fn login(config: Config, response: &str) -> (r: Result<Greader, SyncError>)
        ensures
            session_view(r) == login_outcome(config@, response@),
    {
        if config.fresh_rss_api_url.is_none() || config.fresh_rss_api_user.is_none()
            || config.fresh_rss_api_password.is_none() {
            return Err(SyncError::MissingCredentials);
        }
        match find_auth_token(response) {
            Some(token) => {
                match config.fresh_rss_api_url {
                    Some(api_url) => Ok(Greader { cltoken: token, api_url }),
                    None => Err(SyncError::MissingCredentials),
                }
            },
            None => Err(SyncError::AuthRejected),
        }
    }

    /// The request for the list of subscriptions.
    pub fn subscription_list_request(&self) -> (r: Request)
        ensures
            r@ == request::subscription_list_request(self@.api_url, self@.cltoken),
    {
        authorized(
            Method::Get,
            &self.api_url,
            "/reader/api/0/subscription/list?output=json",
            &self.cltoken,
        )
    }

    /// The request for the list of tags.
    pub fn tag_list_request(&self) -> (r: Request)
        ensures
            r@ == request::tag_list_request(self@.api_url, self@.cltoken),
    {
        authorized(Method::Get, &self.api_url, "/reader/api/0/tag/list?output=json", &self.cltoken)
    }

    /// The request for the identifiers of all unread articles.
    pub fn unread_ids_request(&self) -> (r: Request)
        ensures
            r@ == request::unread_ids_request(self@.api_url, self@.cltoken),
    {
        authorized(
            Method::Get,
            &self.api_url,
            "/reader/api/0/stream/items/ids?output=json&s=user/-/state/com.google/reading-list&xt=user/-/state/com.google/read&n=10000&r=n",
            &self.cltoken,
        )
    }

    /// The request for one page of unread content, from `continuation` on,
    /// bounded by the watermark `last_synced`.
    pub fn unread_content_request(
        &self,
        continuation: &Option<String>,
        last_synced: Option<i64>,
    ) -> (r: Request)
        ensures
            r@ == request::unread_content_request(
                self@.api_url,
                self@.cltoken,
                opt_view(*continuation),
                last_synced,
            ),
    {
        let mut path = String::from_str(
            "/reader/api/0/stream/contents?s=user/-/state/com.google/reading-list&xt=user/-/state/com.google/read&n=1000&r=n&c=",
        );
        match continuation {
            Some(c) => {
                path.append(c.as_str());
            },
            None => {},
        }
        path.append("&ot=");
        match last_synced {
            Some(t) => {
                push_signed_decimal(&mut path, t);
            },
            None => {},
        }
        let r = authorized(Method::Get, &self.api_url, path.as_str(), &self.cltoken);
        proof {
            let lead =
                "/reader/api/0/stream/contents?s=user/-/state/com.google/reading-list&xt=user/-/state/com.google/read&n=1000&r=n&c="@;
            let c = request::continuation_text(opt_view(*continuation));
            let w = request::watermark_text(last_synced);
            assert(self@.api_url + (lead + c + "&ot="@ + w) =~= self@.api_url + lead + c + "&ot="@
                + w);
        }
        r
    }

    /// The request that marks the article `article_id` as unread, or as
    /// read, on the remote service.
    pub fn edit_tag_request(&self, article_id: &str, unread: bool) -> (r: Request)
        ensures
            r@ == request::edit_tag_request(self@.api_url, self@.cltoken, article_id@, unread),
    {
        let mut q = authorized(
            Method::Post,
            &self.api_url,
            "/reader/api/0/edit-tag",
            &self.cltoken,
        );
        let mut item = String::from_str("i=");
        item.append(article_id);
        let tag = if unread {
            String::from_str("r=user/-/state/com.google/read")
        } else {
            String::from_str("a=user/-/state/com.google/read")
        };
        let mut form: Vec<String> = Vec::new();
        form.push(item);
        form.push(tag);
        q.form = form;
        assert(q@.form =~= seq!["i="@ + article_id@, request::read_tag_field(unread)]);
        q
    }

    /// Writes the subscription list through to the store: every category of
    /// every subscription, and each feed under the first category of its
    /// subscription. The first subscription that is malformed or refused
    /// ends it.
    pub fn get_subscription_list(&self, db: &mut DB, subs: &Subscriptions) -> (r: Result<
        (),
        SyncError,
    >)
        requires
            old(db).wf(),
        ensures
            final(db).wf(),
            r == subscribe_all_result(old(db)@, subs@),
            final(db)@ == subscribe_all(old(db)@, subs@),
    {
        let mut i: usize = 0;
        assert(subs@.skip(0) =~= subs@);
        while i < subs.subscriptions.len()
            invariant
                db.wf(),
                i <= subs.subscriptions@.len(),
                subscribe_all_result(old(db)@, subs@) == subscribe_all_result(
                    db@,
                    subs@.skip(i as int),
                ),
                subscribe_all(old(db)@, subs@) == subscribe_all(db@, subs@.skip(i as int)),
            decreases subs.subscriptions@.len() - i,
        {
            let sub = &subs.subscriptions[i];
            let ghost before = db@;
            assert(subs@.skip(i as int).drop_first() =~= subs@.skip(i + 1));
            let mut j: usize = 0;
            assert(sub@.categories.skip(0) =~= sub@.categories);
            while j < sub.categories.len()
                invariant
                    db.wf(),
                    j <= sub.categories@.len(),
                    insert_categories(before, sub@.categories) == insert_categories(
                        db@,
                        sub@.categories.skip(j as int),
                    ),
                decreases sub.categories@.len() - j,
            {
                proof {
                    assert(sub@.categories.skip(j as int).drop_first() =~= sub@.categories.skip(
                        j + 1,
                    ));
                }
                let _ = db.create_category(
                    CreateCategoryParams {
                        id: sub.categories[j].id.clone(),
                        label: sub.categories[j].label.clone(),
                    },
                );
                j += 1;
            }
            if sub.categories.len() == 0 {
                return Err(SyncError::MalformedResponse);
            }
            let params = CreateFeedParams {
                title: sub.title.clone(),
                rss_link: sub.url.clone(),
                link: sub.html_url.clone(),
                description: String::new(),
                pub_date: None,
                category_id: sub.categories[0].id.clone(),
                id: sub.id.clone(),
            };
            match db.create_feed(params) {
                Ok(_) => {},
                Err(e) => {
                    return Err(e);
                },
            }
            i += 1;
        }
        Ok(())
    }

    /// Writes one page of unread content through to the store, article by
    /// article, and hands back where the next page begins. The first item
    /// that is malformed or refused ends it.
    pub fn get_unred_articles_content(&self, db: &mut DB, page: &ReadingList) -> (r: Result<
        Option<String>,
        SyncError,
    >)
        requires
            old(db).wf(),
        ensures
            final(db).wf(),
            final(db)@ == store_items(old(db)@, page@.items),
            match r {
                Ok(next) => store_items_result(old(db)@, page@.items) is Ok && opt_view(next)
                    == page@.continuation,
                Err(e) => store_items_result(old(db)@, page@.items) == Err::<(), SyncError>(e),
            },
    {
        let mut i: usize = 0;
        assert(page@.items.skip(0) =~= page@.items);
        while i < page.items.len()
            invariant
                db.wf(),
                i <= page.items@.len(),
                store_items_result(old(db)@, page@.items) == store_items_result(
                    db@,
                    page@.items.skip(i as int),
                ),
                store_items(old(db)@, page@.items) == store_items(db@, page@.items.skip(i as int)),
            decreases page.items@.len() - i,
        {
            let item = &page.items[i];
            assert(page@.items.skip(i as int).drop_first() =~= page@.items.skip(i + 1));
            if item.canonical.len() == 0 {
                return Err(SyncError::MalformedResponse);
            }
            let params = CreateArticleParams {
                id: item.id.clone(),
                link: item.canonical[0].href.clone(),
                title: item.title.clone(),
                description: String::new(),
                content: item.summary.content.clone(),
                unread: 1,
                feed_id: item.origin.stream_id.clone(),
                pub_date: item.published,
            };
            match db.create_article(params) {
                Ok(_) => {},
                Err(e) => {
                    return Err(e);
                },
            }
            i += 1;
        }
        match &page.continuation {
            Some(c) => Ok(Some(c.clone())),
            None => Ok(None),
        }
    }

    /// Marks the article `article_id` as read in the store, once the remote
    /// service has been told: where the request failed, the store stays as
    /// it is.
    pub fn mark_article_as_read(
        &self,
        db: &mut DB,
        article_id: &str,
        sent: Result<(), SyncError>,
    ) -> (r: Result<(), SyncError>)
        requires
            old(db).wf(),
        ensures
            final(db).wf(),
            match sent {
                Ok(_) => r is Ok,
                Err(e) => r == Err::<(), SyncError>(e),
            },
            final(db)@ == (if sent is Ok {
                old(db)@.set_unread(article_id@, 0)
            } else {
                old(db)@
            }),
    {
        match sent {
            Ok(_) => db.mark_article_as_read(article_id),
            Err(e) => Err(e),
        }
    }

    /// Marks the article `article_id` as unread in the store, once the remote
    /// service has been told: where the request failed, the store stays as
    /// it is.
    pub fn mark_article_as_unread(
        &self,
        db: &mut DB,
        article_id: &str,
        sent: Result<(), SyncError>,
    ) -> (r: Result<(), SyncError>)
        requires
            old(db).wf(),
        ensures
            final(db).wf(),
            match sent {
                Ok(_) => r is Ok,
                Err(e) => r == Err::<(), SyncError>(e),
            },
            final(db)@ == (if sent is Ok {
                old(db)@.set_unread(article_id@, 1)
            } else {
                old(db)@
            }),
    {
        match sent {
            Ok(_) => db.mark_article_as_unread(article_id),
            Err(e) => Err(e),
        }
    }

    /// Reconciles the read flags of the store with the identifiers that the
    /// remote service holds unread.
    pub fn mark_articles_as_read_except(&self, db: &mut DB, unread_items: &UnreadItemIds) -> (r: Result<
        (),
        SyncError,
    >)
        requires
            old(db).wf(),
        ensures
            final(db).wf(),
            r == old(db)@.reconcile_result(unread_items@),
            final(db)@ == old(db)@.reconcile(unread_items@),
    {
        let mut ids: Vec<String> = Vec::new();
        let mut i: usize = 0;
        while i < unread_items.item_refs.len()
            invariant
                i <= unread_items.item_refs@.len(),
                views_of(ids@) == unread_items@.take(i as int),
            decreases unread_items.item_refs@.len() - i,
        {
            let id = unread_items.item_refs[i].id.clone();
            proof {
                lemma_views_push(ids@, id);
            }
            ids.push(id);
            i += 1;
        }
        assert(unread_items@.take(i as int) =~= unread_items@);
        db.mark_articles_as_read_except(ids)
    }
}

} // verus!
