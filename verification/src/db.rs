//! The local store of categories, feeds and articles.

use vstd::prelude::*;
use crate::article::{Article, ArticleView};
use crate::error::SyncError;
use crate::feed::{Feed, FeedView};
use crate::greader::{Category, CategoryView};
use crate::ident::{short_id, spec_short_id};
use crate::model::{
    dates_descend, feed_in_category, lemma_insert_article_wf, lemma_insert_category_wf,
    lemma_insert_feed_wf, lemma_newest_first, lemma_rank_by_date, lemma_unread_ids_wf,
    newest_first, rank_by_date, unread_in_feed, DbState,
};
use crate::views::{lemma_views_push, views_of};

verus! {

/// What a feed is made from.
pub struct CreateFeedParams {
    pub id: String,
    pub title: String,
    pub rss_link: String,
    pub link: String,
    pub description: String,
    pub pub_date: Option<String>,
    pub category_id: String,
}

impl View for CreateFeedParams {
    type V = FeedView;

    open spec fn view(&self) -> FeedView {
        FeedView {
            id: self.id@,
            title: self.title@,
            rss_link: self.rss_link@,
            link: self.link@,
            description: self.description@,
            pub_date: None,
            category_id: self.category_id@,
        }
    }
}

/// What a category is made from.
pub struct CreateCategoryParams {
    pub id: String,
    pub label: String,
}

impl View for CreateCategoryParams {
    type V = CategoryView;

    open spec fn view(&self) -> CategoryView {
        CategoryView { id: self.id@, label: self.label@ }
    }
}

/// What an article is made from.
pub struct CreateArticleParams {
    pub id: String,
    pub link: String,
    pub title: String,
    pub description: String,
    pub content: String,
    pub unread: i8,
    pub feed_id: String,
    pub pub_date: i64,
}

impl View for CreateArticleParams {
    type V = ArticleView;

    open spec fn view(&self) -> ArticleView {
        ArticleView {
            id: self.id@,
            link: self.link@,
            title: self.title@,
            description: self.description@,
            content: self.content@,
            unread: self.unread,
            feed_id: self.feed_id@,
            pub_date: self.pub_date,
        }
    }
}

/// How many articles are unread.
pub struct UnreadCount {
    pub count: i64,
}

/// A stored article with its short identifier.
struct Stored {
    article: Article,
    key: u64,
}

impl View for Stored {
    type V = ArticleView;

    closed spec fn view(&self) -> ArticleView {
        self.article@
    }
}

/// An identifier of the working set with its short identifier, if it has one.
struct Noted {
    id: String,
    key: Option<u64>,
}

impl View for Noted {
    type V = Seq<char>;

    closed spec fn view(&self) -> Seq<char> {
        self.id@
    }
}

/// The store.
pub struct DB {
    categories: Vec<Category>,
    feeds: Vec<Feed>,
    articles: Vec<Stored>,
    unread_articles: Vec<Noted>,
}

impl View for DB {
    type V = DbState;

    closed spec fn view(&self) -> DbState {
        DbState {
            categories: views_of(self.categories@),
            feeds: views_of(self.feeds@),
            articles: views_of(self.articles@),
            unread_ids: views_of(self.unread_articles@),
        }
    }
}

impl DB {
    /// The store is in order: what it holds is well formed, and each short
    /// identifier that it keeps is that of the identifier beside it.
    pub closed spec fn wf(&self) -> bool {
        &&& self@.wf()
        &&& forall|i: int|
            0 <= i < self.articles@.len() ==> spec_short_id(
                (#[trigger] self.articles@[i]).article.id@,
            ) == Some(self.articles@[i].key)
        &&& forall|i: int|
            0 <= i < self.unread_articles@.len() ==> spec_short_id(
                (#[trigger] self.unread_articles@[i]).id@,
            ) == self.unread_articles@[i].key
    }

    /// An empty store.
    pub fn new() -> (r: Self)
        ensures
            r.wf(),
            r@ == DbState::empty(),
    {
        let r = DB {
            categories: Vec::new(),
            feeds: Vec::new(),
            articles: Vec::new(),
            unread_articles: Vec::new(),
        };
        assert(r@ =~= DbState::empty()) by {
            assert(r@.categories =~= Seq::empty());
            assert(r@.feeds =~= Seq::empty());
            assert(r@.articles =~= Seq::empty());
            assert(r@.unread_ids =~= Seq::empty());
        }
        r
    }

    /// Whether a category with the identifier `id` is stored.
    fn has_category(&self, id: &String) -> (r: bool)
        ensures
            r == self@.has_category(id@),
    {
        let mut i: usize = 0;
        while i < self.categories.len()
            invariant
                i <= self.categories@.len(),
                forall|j: int| 0 <= j < i ==> (#[trigger] self@.categories[j]).id != id@,
            decreases self.categories@.len() - i,
        {
            if self.categories[i].id == *id {
                assert(self@.categories[i as int].id == id@);
                return true;
            }
            i += 1;
        }
        false
    }

    /// Stores a category, unless one with its identifier is stored already.
    pub fn create_category(&mut self, params: CreateCategoryParams) -> (r: Result<(), SyncError>)
        requires
            old(self).wf(),
        ensures
            final(self).wf(),
            r is Ok,
            final(self)@ == old(self)@.insert_category(params@),
    {
        if !self.has_category(&params.id) {
            let c = Category { id: params.id, label: params.label };
            proof {
                lemma_views_push(self.categories@, c);
                lemma_insert_category_wf(self@, c@);
            }
            self.categories.push(c);
        }
        Ok(())
    }

    /// Whether a feed with the identifier `id` is stored.
    fn has_feed(&self, id: &String) -> (r: bool)
        ensures
            r == self@.has_feed(id@),
    {
        let mut i: usize = 0;
        while i < self.feeds.len()
            invariant
                i <= self.feeds@.len(),
                forall|j: int| 0 <= j < i ==> (#[trigger] self@.feeds[j]).id != id@,
            decreases self.feeds@.len() - i,
        {
            if self.feeds[i].id == *id {
                assert(self@.feeds[i as int].id == id@);
                return true;
            }
            i += 1;
        }
        false
    }

    /// Whether a feed with the link `rss_link` is stored.
    fn has_feed_link(&self, rss_link: &String) -> (r: bool)
        ensures
            r == self@.has_feed_link(rss_link@),
    {
        let mut i: usize = 0;
        while i < self.feeds.len()
            invariant
                i <= self.feeds@.len(),
                forall|j: int| 0 <= j < i ==> (#[trigger] self@.feeds[j]).rss_link != rss_link@,
            decreases self.feeds@.len() - i,
        {
            if self.feeds[i].rss_link == *rss_link {
                assert(self@.feeds[i as int].rss_link == rss_link@);
                return true;
            }
            i += 1;
        }
        false
    }

    /// Where the article with the identifier `id` is stored, if it is.
    fn find_article(&self, id: &String) -> (r: Option<usize>)
        ensures
            r is Some <==> self@.has_article(id@),
            r matches Some(k) ==> k < self@.articles.len() && self@.articles[k as int].id == id@,
    {
        let mut i: usize = 0;
        while i < self.articles.len()
            invariant
                i <= self.articles@.len(),
                forall|j: int| 0 <= j < i ==> (#[trigger] self@.articles[j]).id != id@,
            decreases self.articles@.len() - i,
        {
            if self.articles[i].article.id == *id {
                assert(self@.articles[i as int].id == id@);
                return Some(i);
            }
            i += 1;
        }
        None
    }

    /// Whether an article with the short identifier `key` is stored.
    fn has_key(&self, key: u64) -> (r: bool)
        requires
            self.wf(),
        ensures
            r == self@.has_short_id(key),
    {
        let mut i: usize = 0;
        while i < self.articles.len()
            invariant
                self.wf(),
                i <= self.articles@.len(),
                forall|j: int|
                    0 <= j < i ==> spec_short_id((#[trigger] self@.articles[j]).id) != Some(key),
            decreases self.articles@.len() - i,
        {
            if self.articles[i].key == key {
                assert(spec_short_id(self@.articles[i as int].id) == Some(key));
                return true;
            }
            i += 1;
        }
        false
    }

    /// Stores a feed, without a date, unless one with its identifier is
    /// stored already. A new feed whose link another feed has is refused.
    pub fn create_feed(&mut self, params: CreateFeedParams) -> (r: Result<(), SyncError>)
        requires
            old(self).wf(),
        ensures
            final(self).wf(),
            r == old(self)@.insert_feed_result(params@),
            final(self)@ == old(self)@.insert_feed(params@),
    {
        if self.has_feed(&params.id) {
            return Ok(());
        }
        if self.has_feed_link(&params.rss_link) {
            return Err(SyncError::StorageError);
        }
        let f = Feed {
            id: params.id,
            title: params.title,
            rss_link: params.rss_link,
            link: params.link,
            description: params.description,
            pub_date: None,
            category_id: params.category_id,
        };
        proof {
            lemma_views_push(self.feeds@, f);
            lemma_insert_feed_wf(self@, params@);
        }
        self.feeds.push(f);
        Ok(())
    }

    /// Stores an article as unread, unless one with its identifier is stored
    /// already. An identifier without a short identifier is malformed; a new
    /// article is refused where its short identifier is taken or the store is
    /// full.
    pub fn create_article(&mut self, params: CreateArticleParams) -> (r: Result<(), SyncError>)
        requires
            old(self).wf(),
        ensures
            final(self).wf(),
            r == old(self)@.insert_article_result(params@),
            final(self)@ == old(self)@.insert_article(params@),
    {
        let key: u64 = match short_id(params.id.as_str()) {
            Ok(n) => n,
            Err(_) => {
                return Err(SyncError::MalformedIdentifier);
            },
        };
        if self.find_article(&params.id).is_some() {
            return Ok(());
        }
        if self.has_key(key) || self.articles.len() as u64 >= 0x7fff_ffff_ffff_ffff {
            return Err(SyncError::StorageError);
        }
        let row = Stored {
            article: Article {
                id: params.id,
                link: params.link,
                title: params.title,
                description: params.description,
                content: params.content,
                unread: 1,
                feed_id: params.feed_id,
                pub_date: params.pub_date,
            },
            key,
        };
        proof {
            lemma_views_push(self.articles@, row);
            lemma_insert_article_wf(self@, params@);
        }
        self.articles.push(row);
        Ok(())
    }

    /// The stored categories, in the order in which they came.
    pub fn get_categories(&self) -> (r: Result<Vec<Category>, SyncError>)
        requires
            self.wf(),
        ensures
            r is Ok,
            views_of(r.unwrap()@) == self@.categories,
    {
        let mut out: Vec<Category> = Vec::new();
        let mut i: usize = 0;
        while i < self.categories.len()
            invariant
                i <= self.categories@.len(),
                views_of(out@) == self@.categories.take(i as int),
            decreases self.categories@.len() - i,
        {
            let c = self.categories[i].clone();
            proof {
                lemma_views_push(out@, c);
            }
            out.push(c);
            i += 1;
        }
        Ok(out)
    }

    /// The stored feeds, in the order in which they came.
    pub fn get_feeds(&self) -> (r: Result<Vec<Feed>, SyncError>)
        requires
            self.wf(),
        ensures
            r is Ok,
            views_of(r.unwrap()@) == self@.feeds,
    {
        let mut out: Vec<Feed> = Vec::new();
        let mut i: usize = 0;
        while i < self.feeds.len()
            invariant
                i <= self.feeds@.len(),
                views_of(out@) == self@.feeds.take(i as int),
            decreases self.feeds@.len() - i,
        {
            let f = self.feeds[i].clone();
            proof {
                lemma_views_push(out@, f);
            }
            out.push(f);
            i += 1;
        }
        Ok(out)
    }

    /// The stored articles, read and unread, in the order in which they
    /// came.
    pub fn get_all_articles(&self) -> (r: Result<Vec<Article>, SyncError>)
        requires
            self.wf(),
        ensures
            r is Ok,
            views_of(r.unwrap()@) == self@.articles,
    {
        let mut out: Vec<Article> = Vec::new();
        let mut i: usize = 0;
        while i < self.articles.len()
            invariant
                i <= self.articles@.len(),
                views_of(out@) == self@.articles.take(i as int),
            decreases self.articles@.len() - i,
        {
            let a = self.articles[i].article.clone();
            proof {
                lemma_views_push(out@, a);
            }
            out.push(a);
            i += 1;
        }
        Ok(out)
    }

    /// The feeds of the category `category_id`, in the order in which they
    /// came.
    pub fn get_feeds_for_category(&self, category_id: &str) -> (r: Result<Vec<Feed>, SyncError>)
        requires
            self.wf(),
        ensures
            r is Ok,
            views_of(r.unwrap()@) == self@.feeds_of_category(category_id@),
    {
        let wanted = String::from_str(category_id);
        let ghost pred = feed_in_category(category_id@);
        let mut out: Vec<Feed> = Vec::new();
        let mut i: usize = 0;
        while i < self.feeds.len()
            invariant
                i <= self.feeds@.len(),
                wanted@ == category_id@,
                pred == feed_in_category(category_id@),
                views_of(out@) == self@.feeds.take(i as int).filter(pred),
            decreases self.feeds@.len() - i,
        {
            proof {
                let f = self@.feeds[i as int];
                assert(self@.feeds.take(i + 1) =~= self@.feeds.take(i as int).push(f));
                self@.feeds.take(i as int).lemma_filter_push(f, pred);
            }
            if self.feeds[i].category_id == wanted {
                out.push(self.feeds[i].clone());
            }
            i += 1;
        }
        assert(self@.feeds.take(i as int) =~= self@.feeds);
        Ok(out)
    }

    /// The article with the identifier `article_id`; an error where none is
    /// stored.
    pub fn get_article(&self, article_id: String) -> (r: Result<Article, SyncError>)
        requires
            self.wf(),
        ensures
            r is Ok <==> self@.has_article(article_id@),
            r matches Ok(a) ==> a@.id == article_id@ && self@.articles.contains(a@),
            r matches Err(e) ==> e == SyncError::StorageError,
    {
        match self.find_article(&article_id) {
            Some(k) => Ok(self.articles[k].article.clone()),
            None => Err(SyncError::StorageError),
        }
    }

    /// Whether the feed `feed_id` is stored and belongs to the stored
    /// category `category_id`.
    fn feed_joins_category(&self, feed_id: &String, category_id: &String) -> (r: bool)
        requires
            self.wf(),
        ensures
            r == self@.feed_joins_category(feed_id@, category_id@),
    {
        if !self.has_category(category_id) {
            return false;
        }
        let mut i: usize = 0;
        while i < self.feeds.len()
            invariant
                i <= self.feeds@.len(),
                self@.has_category(category_id@),
                forall|j: int|
                    0 <= j < i ==> !((#[trigger] self@.feeds[j]).id == feed_id@
                        && self@.feeds[j].category_id == category_id@),
            decreases self.feeds@.len() - i,
        {
            if self.feeds[i].id == *feed_id && self.feeds[i].category_id == *category_id {
                assert(self@.feeds[i as int].id == feed_id@);
                return true;
            }
            i += 1;
        }
        false
    }

    /// How many unread articles the feed `feed_id` has; 0 where the feed is
    /// not stored.
    pub fn get_feed_unread_count(&self, feed_id: &str) -> (r: Result<i64, SyncError>)
        requires
            self.wf(),
        ensures
            r is Ok,
            r.unwrap() == self@.feed_unread_count(feed_id@),
    {
        let wanted = String::from_str(feed_id);
        if !self.has_feed(&wanted) {
            return Ok(0);
        }
        let ghost pred = unread_in_feed(feed_id@);
        let mut count: i64 = 0;
        let mut i: usize = 0;
        while i < self.articles.len()
            invariant
                self.wf(),
                i <= self.articles@.len(),
                wanted@ == feed_id@,
                pred == unread_in_feed(feed_id@),
                0 <= count <= i,
                count == self@.articles.take(i as int).filter(pred).len(),
            decreases self.articles@.len() - i,
        {
            proof {
                let a = self@.articles[i as int];
                assert(self@.articles.take(i + 1) =~= self@.articles.take(i as int).push(a));
                self@.articles.take(i as int).lemma_filter_push(a, pred);
            }
            if self.articles[i].article.unread == 1 && self.articles[i].article.feed_id == wanted {
                count += 1;
            }
            i += 1;
        }
        assert(self@.articles.take(i as int) =~= self@.articles);
        let row = UnreadCount { count };
        Ok(row.count)
    }

    /// How many unread articles the feeds of the category `category_id`
    /// have.
    pub fn get_category_unread_count(&self, category_id: &str) -> (r: Result<i64, SyncError>)
        requires
            self.wf(),
        ensures
            r is Ok,
            r.unwrap() == self@.category_unread_count(category_id@),
    {
        let wanted = String::from_str(category_id);
        let ghost pred = self@.unread_in_category(category_id@);
        let mut count: i64 = 0;
        let mut i: usize = 0;
        while i < self.articles.len()
            invariant
                self.wf(),
                i <= self.articles@.len(),
                wanted@ == category_id@,
                pred == self@.unread_in_category(category_id@),
                0 <= count <= i,
                count == self@.articles.take(i as int).filter(pred).len(),
            decreases self.articles@.len() - i,
        {
            proof {
                let a = self@.articles[i as int];
                assert(self@.articles.take(i + 1) =~= self@.articles.take(i as int).push(a));
                self@.articles.take(i as int).lemma_filter_push(a, pred);
            }
            if self.articles[i].article.unread == 1 && self.feed_joins_category(
                &self.articles[i].article.feed_id,
                &wanted,
            ) {
                count += 1;
            }
            i += 1;
        }
        assert(self@.articles.take(i as int) =~= self@.articles);
        let row = UnreadCount { count };
        Ok(row.count)
    }

    /// Puts `a` into `out` behind the articles that are no older.
    fn place_by_date(out: &mut Vec<Article>, a: Article)
        ensures
            views_of(final(out)@) == views_of(old(out)@).insert(
                rank_by_date(views_of(old(out)@), a@.pub_date),
                a@,
            ),
    {
        let mut p: usize = 0;
        while p < out.len() && out[p].pub_date >= a.pub_date
            invariant
                p <= out@.len(),
                forall|j: int|
                    0 <= j < p ==> (#[trigger] views_of(out@)[j]).pub_date >= a@.pub_date,
            decreases out@.len() - p,
        {
            p += 1;
        }
        proof {
            lemma_rank_by_date(views_of(out@), a@.pub_date, p as int);
        }
        out.insert(p, a);
    }

    /// The unread articles of the feed `feed_id`, from the newest to the
    /// oldest.
    pub fn get_articles_for_feed(&self, feed_id: &str) -> (r: Result<Vec<Article>, SyncError>)
        requires
            self.wf(),
        ensures
            r is Ok,
            views_of(r.unwrap()@) == newest_first(self@.unread_of_feed(feed_id@)),
            dates_descend(views_of(r.unwrap()@)),
            views_of(r.unwrap()@).to_multiset() == self@.unread_of_feed(feed_id@).to_multiset(),
    {
        let wanted = String::from_str(feed_id);
        let ghost pred = unread_in_feed(feed_id@);
        let mut out: Vec<Article> = Vec::new();
        let mut i: usize = 0;
        while i < self.articles.len()
            invariant
                i <= self.articles@.len(),
                wanted@ == feed_id@,
                pred == unread_in_feed(feed_id@),
                views_of(out@) == newest_first(self@.articles.take(i as int).filter(pred)),
            decreases self.articles@.len() - i,
        {
            proof {
                let a = self@.articles[i as int];
                let sofar = self@.articles.take(i as int).filter(pred);
                assert(self@.articles.take(i + 1) =~= self@.articles.take(i as int).push(a));
                self@.articles.take(i as int).lemma_filter_push(a, pred);
                assert(sofar.push(a).drop_last() =~= sofar);
            }
            if self.articles[i].article.unread == 1 && self.articles[i].article.feed_id == wanted {
                let a = self.articles[i].article.clone();
                Self::place_by_date(&mut out, a);
            }
            i += 1;
        }
        proof {
            assert(self@.articles.take(i as int) =~= self@.articles);
            lemma_newest_first(self@.unread_of_feed(feed_id@));
        }
        Ok(out)
    }

    /// The unread articles of the feeds of the category `category_id`, from
    /// the newest to the oldest.
    pub fn get_articles_for_category(&self, category_id: &str) -> (r: Result<
        Vec<Article>,
        SyncError,
    >)
        requires
            self.wf(),
        ensures
            r is Ok,
            views_of(r.unwrap()@) == newest_first(self@.unread_of_category(category_id@)),
            dates_descend(views_of(r.unwrap()@)),
            views_of(r.unwrap()@).to_multiset() == self@.unread_of_category(
                category_id@,
            ).to_multiset(),
    {
        let wanted = String::from_str(category_id);
        let ghost pred = self@.unread_in_category(category_id@);
        let mut out: Vec<Article> = Vec::new();
        let mut i: usize = 0;
        while i < self.articles.len()
            invariant
                self.wf(),
                i <= self.articles@.len(),
                wanted@ == category_id@,
                pred == self@.unread_in_category(category_id@),
                views_of(out@) == newest_first(self@.articles.take(i as int).filter(pred)),
            decreases self.articles@.len() - i,
        {
            proof {
                let a = self@.articles[i as int];
                let sofar = self@.articles.take(i as int).filter(pred);
                assert(self@.articles.take(i + 1) =~= self@.articles.take(i as int).push(a));
                self@.articles.take(i as int).lemma_filter_push(a, pred);
                assert(sofar.push(a).drop_last() =~= sofar);
            }
            if self.articles[i].article.unread == 1 && self.feed_joins_category(
                &self.articles[i].article.feed_id,
                &wanted,
            ) {
                let a = self.articles[i].article.clone();
                Self::place_by_date(&mut out, a);
            }
            i += 1;
        }
        proof {
            assert(self@.articles.take(i as int) =~= self@.articles);
            lemma_newest_first(self@.unread_of_category(category_id@));
        }
        Ok(out)
    }

    /// Sets the read flag of the article `article_id`, if it is stored.
    fn set_unread(&mut self, article_id: &str, unread: i8)
        requires
            old(self).wf(),
            unread == 0 || unread == 1,
        ensures
            final(self).wf(),
            final(self)@ == old(self)@.set_unread(article_id@, unread),
    {
        let wanted = String::from_str(article_id);
        match self.find_article(&wanted) {
            Some(k) => {
                self.articles[k].article.unread = unread;
            },
            None => {},
        }
        assert(self@.articles =~= old(self)@.set_unread(article_id@, unread).articles);
    }

    /// Marks the article `article_id` as read, if it is stored.
    pub fn mark_article_as_read(&mut self, article_id: &str) -> (r: Result<(), SyncError>)
        requires
            old(self).wf(),
        ensures
            final(self).wf(),
            r is Ok,
            final(self)@ == old(self)@.set_unread(article_id@, 0),
    {
        self.set_unread(article_id, 0);
        Ok(())
    }

    /// Marks the article `article_id` as unread, if it is stored.
    pub fn mark_article_as_unread(&mut self, article_id: &str) -> (r: Result<(), SyncError>)
        requires
            old(self).wf(),
        ensures
            final(self).wf(),
            r is Ok,
            final(self)@ == old(self)@.set_unread(article_id@, 1),
    {
        self.set_unread(article_id, 1);
        Ok(())
    }

    /// Whether the working set holds `id`.
    fn holds_unread_id(&self, id: &String) -> (r: bool)
        ensures
            r == self@.unread_ids.contains(id@),
    {
        let mut i: usize = 0;
        while i < self.unread_articles.len()
            invariant
                i <= self.unread_articles@.len(),
                forall|j: int| 0 <= j < i ==> #[trigger] self@.unread_ids[j] != id@,
            decreases self.unread_articles@.len() - i,
        {
            if self.unread_articles[i].id == *id {
                assert(self@.unread_ids[i as int] == id@);
                return true;
            }
            i += 1;
        }
        false
    }

    /// Hands one identifier to the working set, which refuses one that it
    /// holds.
    pub fn add_unread_id(&mut self, id: &str) -> (r: Result<(), SyncError>)
        requires
            old(self).wf(),
        ensures
            final(self).wf(),
            r == old(self)@.add_unread_id_result(id@),
            final(self)@ == old(self)@.add_unread_id(id@),
    {
        let owned = String::from_str(id);
        if self.holds_unread_id(&owned) {
            return Err(SyncError::StorageError);
        }
        let key: Option<u64> = match short_id(id) {
            Ok(n) => Some(n),
            Err(_) => None,
        };
        let row = Noted { id: owned, key };
        proof {
            lemma_views_push(self.unread_articles@, row);
            lemma_unread_ids_wf(self@, id@);
        }
        self.unread_articles.push(row);
        Ok(())
    }

    /// Empties the working set.
    pub fn clear_unread_articles(&mut self) -> (r: Result<(), SyncError>)
        requires
            old(self).wf(),
        ensures
            final(self).wf(),
            r is Ok,
            final(self)@ == old(self)@.clear_unread_ids(),
    {
        proof {
            lemma_unread_ids_wf(self@, Seq::empty());
        }
        self.unread_articles.clear();
        assert(self@.unread_ids =~= Seq::empty());
        Ok(())
    }

    /// Whether one of `noted` has the short identifier `key`.
    fn names_key(noted: &Vec<Noted>, key: u64) -> (r: bool)
        ensures
            r == exists|i: int| 0 <= i < noted@.len() && (#[trigger] noted@[i]).key == Some(key),
    {
        let mut i: usize = 0;
        while i < noted.len()
            invariant
                i <= noted@.len(),
                forall|j: int| 0 <= j < i ==> (#[trigger] noted@[j]).key != Some(key),
            decreases noted@.len() - i,
        {
            match noted[i].key {
                Some(k) => {
                    if k == key {
                        return true;
                    }
                },
                None => {},
            }
            i += 1;
        }
        false
    }

    /// Marks as read every unread article that the working set does not
    /// name.
    fn sweep(&mut self)
        requires
            old(self).wf(),
        ensures
            final(self).wf(),
            final(self)@ == old(self)@.sweep(),
    {
        let ghost start = self@;
        let mut k: usize = 0;
        while k < self.articles.len()
            invariant
                old(self).wf(),
                start == old(self)@,
                k <= self.articles@.len(),
                self.articles@.len() == old(self).articles@.len(),
                self.categories == old(self).categories,
                self.feeds == old(self).feeds,
                self.unread_articles == old(self).unread_articles,
                forall|j: int|
                    0 <= j < self.articles@.len() ==> (#[trigger] self.articles@[j]).key == old(
                        self,
                    ).articles@[j].key && self.articles@[j].article.id == old(
                        self,
                    ).articles@[j].article.id,
                forall|j: int|
                    0 <= j < k ==> (#[trigger] self.articles@[j])@ == start.swept(
                        start.articles[j],
                    ),
                forall|j: int|
                    k <= j < self.articles@.len() ==> #[trigger] self.articles@[j] == old(
                        self,
                    ).articles@[j],
            decreases self.articles@.len() - k,
        {
            let named: bool = Self::names_key(&self.unread_articles, self.articles[k].key);
            proof {
                let id = start.articles[k as int].id;
                if named {
                    let w = choose|i: int|
                        0 <= i < self.unread_articles@.len() && (
                        #[trigger] self.unread_articles@[i]).key == Some(
                            self.articles@[k as int].key,
                        );
                    assert(spec_short_id(start.unread_ids[w]) == spec_short_id(id));
                }
            }
            if self.articles[k].article.unread != 0 && !named {
                self.articles[k].article.unread = 0;
            }
            k += 1;
        }
        assert(self@.articles =~= start.sweep().articles);
    }

    /// Reconciles the read flags with the identifiers that the remote service
    /// holds unread: the working set is emptied and filled with
    /// `article_ids`, and every unread article that it does not name becomes
    /// read. No article becomes unread. Where `article_ids` holds an
    /// identifier twice the working set refuses it, and no article changes.
    pub fn mark_articles_as_read_except(&mut self, article_ids: Vec<String>) -> (r: Result<
        (),
        SyncError,
    >)
        requires
            old(self).wf(),
        ensures
            final(self).wf(),
            r == old(self)@.reconcile_result(views_of(article_ids@)),
            final(self)@ == old(self)@.reconcile(views_of(article_ids@)),
    {
        let ghost ids = views_of(article_ids@);
        let _ = self.clear_unread_articles();
        let ghost cleared = self@;
        let mut i: usize = 0;
        assert(ids.skip(0) =~= ids);
        while i < article_ids.len()
            invariant
                self.wf(),
                i <= article_ids@.len(),
                ids == views_of(article_ids@),
                cleared == old(self)@.clear_unread_ids(),
                cleared.add_unread_ids_result(ids) == self@.add_unread_ids_result(
                    ids.skip(i as int),
                ),
                cleared.add_unread_ids(ids) == self@.add_unread_ids(ids.skip(i as int)),
            decreases article_ids@.len() - i,
        {
            assert(ids.skip(i as int).drop_first() =~= ids.skip(i + 1));
            match self.add_unread_id(article_ids[i].as_str()) {
                Ok(_) => {},
                Err(e) => {
                    return Err(e);
                },
            }
            i += 1;
        }
        self.sweep();
        Ok(())
    }
}

} // verus!
