//! The store as a mathematical value: what it holds, and what each operation
//! makes of it.

use vstd::prelude::*;
use crate::article::ArticleView;
use crate::error::SyncError;
use crate::feed::FeedView;
use crate::greader::CategoryView;
use crate::ident::spec_short_id;

verus! {

/// The most articles that the store takes.
pub open spec fn article_capacity() -> int {
    0x7fff_ffff_ffff_ffff
}

/// The articles that are unread and belong to the feed `feed_id`.
pub open spec fn unread_in_feed(feed_id: Seq<char>) -> spec_fn(ArticleView) -> bool {
    |a: ArticleView| a.feed_id == feed_id && a.unread == 1
}

/// The feeds that belong to the category `category_id`.
pub open spec fn feed_in_category(category_id: Seq<char>) -> spec_fn(FeedView) -> bool {
    |f: FeedView| f.category_id == category_id
}

/// What the store holds: its rows in the order in which they came, and the
/// working set of the last reconciliation.
pub struct DbState {
    pub categories: Seq<CategoryView>,
    pub feeds: Seq<FeedView>,
    pub articles: Seq<ArticleView>,
    /// The identifiers that the remote service reported as unread.
    pub unread_ids: Seq<Seq<char>>,
}

impl DbState {
    /// The store with nothing in it.
    pub open spec fn empty() -> DbState {
        DbState {
            categories: Seq::empty(),
            feeds: Seq::empty(),
            articles: Seq::empty(),
            unread_ids: Seq::empty(),
        }
    }

    /// A category with the identifier `id` is stored.
    pub open spec fn has_category(self, id: Seq<char>) -> bool {
        exists|i: int| 0 <= i < self.categories.len() && (#[trigger] self.categories[i]).id == id
    }

    /// A feed with the identifier `id` is stored.
    pub open spec fn has_feed(self, id: Seq<char>) -> bool {
        exists|i: int| 0 <= i < self.feeds.len() && (#[trigger] self.feeds[i]).id == id
    }

    /// A feed with the link `rss_link` is stored.
    pub open spec fn has_feed_link(self, rss_link: Seq<char>) -> bool {
        exists|i: int| 0 <= i < self.feeds.len() && (#[trigger] self.feeds[i]).rss_link == rss_link
    }

    /// An article with the identifier `id` is stored.
    pub open spec fn has_article(self, id: Seq<char>) -> bool {
        exists|i: int| 0 <= i < self.articles.len() && (#[trigger] self.articles[i]).id == id
    }

    /// Some stored article has the short identifier `n`.
    pub open spec fn has_short_id(self, n: u64) -> bool {
        exists|i: int|
            0 <= i < self.articles.len() && spec_short_id((#[trigger] self.articles[i]).id) == Some(
                n,
            )
    }

    /// The working set names the article `id`: one of its identifiers has the
    /// short identifier of `id`.
    pub open spec fn snapshot_names(self, id: Seq<char>) -> bool {
        exists|i: int|
            0 <= i < self.unread_ids.len() && spec_short_id(#[trigger] self.unread_ids[i]) is Some
                && spec_short_id(self.unread_ids[i]) == spec_short_id(id)
    }

    /// No identifier, feed link or short identifier is stored twice, every
    /// article has a short identifier and a read flag of 0 or 1, and the
    /// articles fit the store.
    pub open spec fn wf(self) -> bool {
        &&& forall|i: int, j: int|
            0 <= i < j < self.categories.len() ==> (#[trigger] self.categories[i]).id != (
            #[trigger] self.categories[j]).id
        &&& forall|i: int, j: int|
            0 <= i < j < self.feeds.len() ==> (#[trigger] self.feeds[i]).id != (
            #[trigger] self.feeds[j]).id
        &&& forall|i: int, j: int|
            0 <= i < j < self.feeds.len() ==> (#[trigger] self.feeds[i]).rss_link != (
            #[trigger] self.feeds[j]).rss_link
        &&& forall|i: int, j: int|
            0 <= i < j < self.articles.len() ==> spec_short_id((#[trigger] self.articles[i]).id)
                != spec_short_id((#[trigger] self.articles[j]).id)
        &&& forall|i: int|
            0 <= i < self.articles.len() ==> spec_short_id((#[trigger] self.articles[i]).id)
                is Some
        &&& forall|i: int|
            0 <= i < self.articles.len() ==> (#[trigger] self.articles[i]).unread == 0
                || self.articles[i].unread == 1
        &&& forall|i: int, j: int|
            0 <= i < j < self.unread_ids.len() ==> #[trigger] self.unread_ids[i]
                != #[trigger] self.unread_ids[j]
        &&& self.articles.len() <= article_capacity()
    }

    /// The store after a category was handed to it: stored, unless its
    /// identifier is there already.
    pub open spec fn insert_category(self, c: CategoryView) -> DbState {
        if self.has_category(c.id) {
            self
        } else {
            DbState { categories: self.categories.push(c), ..self }
        }
    }

    /// Whether the store takes the feed `f`: it refuses a new feed whose link
    /// another feed has.
    pub open spec fn insert_feed_result(self, f: FeedView) -> Result<(), SyncError> {
        if !self.has_feed(f.id) && self.has_feed_link(f.rss_link) {
            Err(SyncError::StorageError)
        } else {
            Ok(())
        }
    }

    /// The store after a feed was handed to it: stored without a date, unless
    /// its identifier is there already or the store refuses it.
    pub open spec fn insert_feed(self, f: FeedView) -> DbState {
        if self.has_feed(f.id) || self.has_feed_link(f.rss_link) {
            self
        } else {
            DbState { feeds: self.feeds.push(FeedView { pub_date: None, ..f }), ..self }
        }
    }

    /// Whether the store takes the article `a`: its identifier must have a
    /// short identifier, and a new article needs a short identifier that no
    /// other has, and room.
    pub open spec fn insert_article_result(self, a: ArticleView) -> Result<(), SyncError> {
        match spec_short_id(a.id) {
            None => Err(SyncError::MalformedIdentifier),
            Some(n) => if self.has_article(a.id) {
                Ok(())
            } else if self.has_short_id(n) || self.articles.len() >= article_capacity() {
                Err(SyncError::StorageError)
            } else {
                Ok(())
            },
        }
    }

    /// The store after an article was handed to it: stored as unread, unless
    /// its identifier is there already or the store refuses it.
    pub open spec fn insert_article(self, a: ArticleView) -> DbState {
        if self.insert_article_result(a) is Ok && !self.has_article(a.id) {
            DbState { articles: self.articles.push(ArticleView { unread: 1, ..a }), ..self }
        } else {
            self
        }
    }

    /// The feeds of a category, in the order in which they came.
    pub open spec fn feeds_of_category(self, category_id: Seq<char>) -> Seq<FeedView> {
        self.feeds.filter(feed_in_category(category_id))
    }

    /// The unread articles of a feed, in the order in which they came.
    pub open spec fn unread_of_feed(self, feed_id: Seq<char>) -> Seq<ArticleView> {
        self.articles.filter(unread_in_feed(feed_id))
    }

    /// The feed `feed_id` is stored and belongs to the stored category
    /// `category_id`.
    pub open spec fn feed_joins_category(self, feed_id: Seq<char>, category_id: Seq<char>) -> bool {
        &&& self.has_category(category_id)
        &&& exists|i: int|
            0 <= i < self.feeds.len() && (#[trigger] self.feeds[i]).id == feed_id
                && self.feeds[i].category_id == category_id
    }

    /// The articles that are unread and whose feed belongs to `category_id`.
    pub open spec fn unread_in_category(self, category_id: Seq<char>) -> spec_fn(
        ArticleView,
    ) -> bool {
        |a: ArticleView| a.unread == 1 && self.feed_joins_category(a.feed_id, category_id)
    }

    /// The unread articles of a category, in the order in which they came.
    pub open spec fn unread_of_category(self, category_id: Seq<char>) -> Seq<ArticleView> {
        self.articles.filter(self.unread_in_category(category_id))
    }

    /// How many unread articles the stored feed `feed_id` has; 0 for a feed
    /// that is not stored.
    pub open spec fn feed_unread_count(self, feed_id: Seq<char>) -> int {
        if self.has_feed(feed_id) {
            self.unread_of_feed(feed_id).len() as int
        } else {
            0
        }
    }

    /// How many unread articles the feeds of a category have.
    pub open spec fn category_unread_count(self, category_id: Seq<char>) -> int {
        self.unread_of_category(category_id).len() as int
    }

    /// The article `a` with the read flag `unread`, where its identifier is
    /// `id`.
    pub open spec fn flagged(a: ArticleView, id: Seq<char>, unread: i8) -> ArticleView {
        if a.id == id {
            ArticleView { unread, ..a }
        } else {
            a
        }
    }

    /// The store after the read flag of the article `id` was set.
    pub open spec fn set_unread(self, id: Seq<char>, unread: i8) -> DbState {
        DbState {
            articles: Seq::new(
                self.articles.len(),
                |i: int| Self::flagged(self.articles[i], id, unread),
            ),
            ..self
        }
    }

    /// Whether the working set takes `id`: it refuses one that it holds.
    pub open spec fn add_unread_id_result(self, id: Seq<char>) -> Result<(), SyncError> {
        if self.unread_ids.contains(id) {
            Err(SyncError::StorageError)
        } else {
            Ok(())
        }
    }

    /// The store after `id` was handed to the working set.
    pub open spec fn add_unread_id(self, id: Seq<char>) -> DbState {
        if self.unread_ids.contains(id) {
            self
        } else {
            DbState { unread_ids: self.unread_ids.push(id), ..self }
        }
    }

    /// The store with an empty working set.
    pub open spec fn clear_unread_ids(self) -> DbState {
        DbState { unread_ids: Seq::empty(), ..self }
    }

    /// Whether the working set takes all of `ids`, one after the other.
    pub open spec fn add_unread_ids_result(self, ids: Seq<Seq<char>>) -> Result<(), SyncError>
        decreases ids.len(),
    {
        if ids.len() == 0 {
            Ok(())
        } else if self.add_unread_id_result(ids[0]) is Err {
            Err(SyncError::StorageError)
        } else {
            self.add_unread_id(ids[0]).add_unread_ids_result(ids.drop_first())
        }
    }

    /// The store after the working set was handed `ids`, one after the other,
    /// up to the first that it refuses.
    pub open spec fn add_unread_ids(self, ids: Seq<Seq<char>>) -> DbState
        decreases ids.len(),
    {
        if ids.len() == 0 || self.add_unread_id_result(ids[0]) is Err {
            self
        } else {
            self.add_unread_id(ids[0]).add_unread_ids(ids.drop_first())
        }
    }

    /// The article `a` after the sweep: read, where it was unread and the
    /// working set does not name it.
    pub open spec fn swept(self, a: ArticleView) -> ArticleView {
        if a.unread != 0 && !self.snapshot_names(a.id) {
            ArticleView { unread: 0, ..a }
        } else {
            a
        }
    }

    /// The store after the sweep.
    pub open spec fn sweep(self) -> DbState {
        DbState {
            articles: Seq::new(self.articles.len(), |i: int| self.swept(self.articles[i])),
            ..self
        }
    }

    /// Whether a reconciliation against `ids` goes through: it fails where
    /// `ids` holds an identifier twice.
    pub open spec fn reconcile_result(self, ids: Seq<Seq<char>>) -> Result<(), SyncError> {
        self.clear_unread_ids().add_unread_ids_result(ids)
    }

    /// The store after a reconciliation against `ids`: the working set holds
    /// `ids`, and every unread article that it does not name is read. Where
    /// `ids` holds an identifier twice, the working set holds those before
    /// the second occurrence, and no article changes.
    pub open spec fn reconcile(self, ids: Seq<Seq<char>>) -> DbState {
        let filled = self.clear_unread_ids().add_unread_ids(ids);
        if self.reconcile_result(ids) is Ok {
            filled.sweep()
        } else {
            filled
        }
    }
}

/// A well-formed store stays well formed when a category is handed to it.
pub proof fn lemma_insert_category_wf(s: DbState, c: CategoryView)
    requires
        s.wf(),
    ensures
        s.insert_category(c).wf(),
{
}

/// A well-formed store stays well formed when a feed is handed to it.
pub proof fn lemma_insert_feed_wf(s: DbState, f: FeedView)
    requires
        s.wf(),
    ensures
        s.insert_feed(f).wf(),
{
}

/// A well-formed store stays well formed when an article is handed to it.
pub proof fn lemma_insert_article_wf(s: DbState, a: ArticleView)
    requires
        s.wf(),
    ensures
        s.insert_article(a).wf(),
{
}

/// How many articles at the front of `s` are no older than `date`, as long as
/// none before them is.
pub open spec fn rank_by_date(s: Seq<ArticleView>, date: i64) -> int
    decreases s.len(),
{
    if s.len() == 0 || s[0].pub_date < date {
        0
    } else {
        1 + rank_by_date(s.drop_first(), date)
    }
}

/// The articles of `s` from the newest to the oldest; those of one date stay
/// in the order that they have in `s`.
pub open spec fn newest_first(s: Seq<ArticleView>) -> Seq<ArticleView>
    decreases s.len(),
{
    if s.len() == 0 {
        s
    } else {
        let t = newest_first(s.drop_last());
        t.insert(rank_by_date(t, s.last().pub_date), s.last())
    }
}

/// No article of `s` stands before a newer one.
pub open spec fn dates_descend(s: Seq<ArticleView>) -> bool {
    forall|i: int, j: int| 0 <= i < j < s.len() ==> s[i].pub_date >= s[j].pub_date
}

/// The rank of a date is the one place that has only dates no older before
/// it and an older date, or nothing, at it.
pub proof fn lemma_rank_by_date(s: Seq<ArticleView>, date: i64, p: int)
    requires
        0 <= p <= s.len(),
        forall|j: int| 0 <= j < p ==> s[j].pub_date >= date,
        p < s.len() ==> s[p].pub_date < date,
    ensures
        rank_by_date(s, date) == p,
    decreases s.len(),
{
    if p > 0 {
        lemma_rank_by_date(s.drop_first(), date, p - 1);
    }
}

/// The rank of a date lies within the sequence, behind every date that is no
/// older, and, in a descending sequence, before every older one.
pub proof fn lemma_rank_bounds(s: Seq<ArticleView>, date: i64)
    ensures
        0 <= rank_by_date(s, date) <= s.len(),
        forall|j: int| 0 <= j < rank_by_date(s, date) ==> s[j].pub_date >= date,
        dates_descend(s) ==> forall|j: int|
            rank_by_date(s, date) <= j < s.len() ==> s[j].pub_date < date,
    decreases s.len(),
{
    if s.len() > 0 && s[0].pub_date >= date {
        let t = s.drop_first();
        lemma_rank_bounds(t, date);
        assert forall|j: int| 0 <= j < rank_by_date(s, date) implies s[j].pub_date >= date by {
            if j > 0 {
                assert(t[j - 1] == s[j]);
            }
        }
        if dates_descend(s) {
            assert forall|j: int| rank_by_date(s, date) <= j < s.len() implies s[j].pub_date
                < date by {
                assert(t[j - 1] == s[j]);
            }
        }
    }
}

/// Sorting from the newest to the oldest gives a descending sequence of the
/// same articles.
pub proof fn lemma_newest_first(s: Seq<ArticleView>)
    ensures
        dates_descend(newest_first(s)),
        newest_first(s).to_multiset() == s.to_multiset(),
        newest_first(s).len() == s.len(),
    decreases s.len(),
{
    if s.len() > 0 {
        let t = newest_first(s.drop_last());
        let a = s.last();
        lemma_newest_first(s.drop_last());
        lemma_rank_bounds(t, a.pub_date);
        vstd::seq_lib::to_multiset_insert(t, rank_by_date(t, a.pub_date), a);
        vstd::seq_lib::to_multiset_build(s.drop_last(), a);
        assert(s.drop_last().push(a) =~= s);
    }
}

/// A well-formed store stays well formed when a read flag is set to 0 or 1.
pub proof fn lemma_set_unread_wf(s: DbState, id: Seq<char>, unread: i8)
    requires
        s.wf(),
        unread == 0 || unread == 1,
    ensures
        s.set_unread(id, unread).wf(),
{
}

/// A well-formed store stays well formed when its working set changes.
pub proof fn lemma_unread_ids_wf(s: DbState, id: Seq<char>)
    requires
        s.wf(),
    ensures
        s.clear_unread_ids().wf(),
        s.add_unread_id(id).wf(),
{
}

/// A well-formed store stays well formed under the sweep.
pub proof fn lemma_sweep_wf(s: DbState)
    requires
        s.wf(),
    ensures
        s.sweep().wf(),
{
}

} // verus!
