//! What holds of the store whatever it holds.

use vstd::prelude::*;
use crate::article::ArticleView;
use crate::feed::FeedView;
use crate::greader::{CategoryView, SubscriptionView};
use crate::ident::spec_short_id;
use crate::merge::{feed_of, insert_categories, subscribe, subscribe_result};
use crate::model::{feed_in_category, DbState};

verus! {

/// One of `ids` has the short identifier of `id`.
pub open spec fn names(ids: Seq<Seq<char>>, id: Seq<char>) -> bool {
    exists|j: int|
        0 <= j < ids.len() && spec_short_id(#[trigger] ids[j]) is Some && spec_short_id(ids[j])
            == spec_short_id(id)
}

/// Handing the store an article under an identifier a second time changes
/// nothing, whatever else the second article holds. Once the first was
/// taken, the second is taken too, the identifier stands in one row only,
/// and where the first made that row, it holds what the first held, as
/// unread.
pub proof fn lemma_insert_article_idempotent(s: DbState, a: ArticleView, b: ArticleView)
    requires
        s.wf(),
        a.id == b.id,
    ensures
        s.insert_article(a).insert_article(b) == s.insert_article(a),
        s.insert_article_result(a) is Ok ==> s.insert_article(a).insert_article_result(b) is Ok,
        s.insert_article_result(a) is Ok ==> exists|k: int|
            0 <= k < s.insert_article(a).articles.len() && (
            #[trigger] s.insert_article(a).articles[k]).id == a.id && forall|j: int|
                0 <= j < s.insert_article(a).articles.len() && j != k ==> (
                #[trigger] s.insert_article(a).articles[j]).id != a.id,
        s.insert_article_result(a) is Ok && !s.has_article(a.id) ==> s.insert_article(
            a,
        ).articles.last() == (ArticleView { unread: 1, ..a }),
{
    let once = s.insert_article(a);
    if s.insert_article_result(a) is Ok && !s.has_article(a.id) {
        assert(once.articles.last().id == a.id);
    }
}

/// Handing the store a category under an identifier a second time changes
/// nothing.
pub proof fn lemma_insert_category_idempotent(s: DbState, c: CategoryView, d: CategoryView)
    requires
        c.id == d.id,
    ensures
        s.insert_category(c).insert_category(d) == s.insert_category(c),
{
    let once = s.insert_category(c);
    if !s.has_category(c.id) {
        assert(once.categories[once.categories.len() - 1].id == c.id);
    }
}

/// Handing the store a feed under an identifier a second time changes
/// nothing, once the first was taken.
pub proof fn lemma_insert_feed_idempotent(s: DbState, f: FeedView, h: FeedView)
    requires
        f.id == h.id,
        s.insert_feed_result(f) is Ok,
    ensures
        s.insert_feed(f).insert_feed(h) == s.insert_feed(f),
        s.insert_feed(f).insert_feed_result(h) is Ok,
{
    let once = s.insert_feed(f);
    if !s.has_feed(f.id) {
        assert(once.feeds[once.feeds.len() - 1].id == f.id);
    }
}

/// Categories that are handed to the store are stored afterwards, those that
/// were stored stay where they are, and nothing else changes.
pub proof fn lemma_insert_categories(s: DbState, cs: Seq<CategoryView>)
    ensures
        forall|i: int| 0 <= i < cs.len() ==> insert_categories(s, cs).has_category(
            (#[trigger] cs[i]).id,
        ),
        s.categories.len() <= insert_categories(s, cs).categories.len(),
        insert_categories(s, cs).categories.take(s.categories.len() as int) == s.categories,
        insert_categories(s, cs).feeds == s.feeds,
        insert_categories(s, cs).articles == s.articles,
        insert_categories(s, cs).unread_ids == s.unread_ids,
    decreases cs.len(),
{
    if cs.len() > 0 {
        let t = s.insert_category(cs[0]);
        let rest = cs.drop_first();
        let end = insert_categories(t, rest);
        lemma_insert_categories(t, rest);
        assert(t.has_category(cs[0].id)) by {
            if !s.has_category(cs[0].id) {
                assert(t.categories[t.categories.len() - 1].id == cs[0].id);
            }
        }
        assert forall|i: int| 0 <= i < cs.len() implies end.has_category(
            (#[trigger] cs[i]).id,
        ) by {
            if i > 0 {
                assert(cs[i] == rest[i - 1]);
            }
        }
    }
}

/// A subscription that the store takes is there afterwards: each of its
/// categories is stored, and so is a feed with its identifier. Where that
/// feed is new, it is the last of the feeds, holds what the subscription
/// holds, and is listed under the first category of the subscription.
pub proof fn lemma_subscribe_stores(s: DbState, sub: SubscriptionView)
    requires
        subscribe_result(s, sub) is Ok,
    ensures
        forall|i: int| 0 <= i < sub.categories.len() ==> subscribe(s, sub).has_category(
            (#[trigger] sub.categories[i]).id,
        ),
        subscribe(s, sub).has_feed(sub.id),
        !s.has_feed(sub.id) ==> subscribe(s, sub).feeds == s.feeds.push(feed_of(sub))
            && subscribe(s, sub).feeds_of_category(sub.categories[0].id).last() == feed_of(sub),
{
    lemma_insert_categories(s, sub.categories);
    let mid = insert_categories(s, sub.categories);
    let end = subscribe(s, sub);
    assert(end.categories == mid.categories);
    if !s.has_feed(sub.id) {
        assert(end.feeds[end.feeds.len() - 1].id == sub.id);
        s.feeds.lemma_filter_push(feed_of(sub), feed_in_category(sub.categories[0].id));
    }
}

/// The working set takes `ids` exactly where none of them is in it and none
/// comes twice; it then holds them behind what it held. The stored rows stay
/// as they are either way.
pub proof fn lemma_add_unread_ids(s: DbState, ids: Seq<Seq<char>>)
    ensures
        s.add_unread_ids_result(ids) is Ok <==> ids.no_duplicates() && forall|i: int|
            0 <= i < ids.len() ==> !s.unread_ids.contains(#[trigger] ids[i]),
        s.add_unread_ids_result(ids) is Ok ==> s.add_unread_ids(ids).unread_ids == s.unread_ids
            + ids,
        s.add_unread_ids(ids).categories == s.categories,
        s.add_unread_ids(ids).feeds == s.feeds,
        s.add_unread_ids(ids).articles == s.articles,
    decreases ids.len(),
{
    if ids.len() > 0 && s.add_unread_id_result(ids[0]) is Ok {
        let t = s.add_unread_id(ids[0]);
        let rest = ids.drop_first();
        lemma_add_unread_ids(t, rest);
        assert(t.unread_ids[t.unread_ids.len() - 1] == ids[0]);
        if t.add_unread_ids_result(rest) is Ok {
            assert forall|i: int, j: int| 0 <= i < ids.len() && 0 <= j < ids.len() && i
                != j implies ids[i] != ids[j] by {
                if i == 0 {
                    assert(ids[j] == rest[j - 1]);
                    assert(t.unread_ids.contains(ids[0]));
                } else if j == 0 {
                    assert(ids[i] == rest[i - 1]);
                    assert(t.unread_ids.contains(ids[0]));
                } else {
                    assert(ids[i] == rest[i - 1] && ids[j] == rest[j - 1]);
                }
            }
            assert forall|i: int| 0 <= i < ids.len() implies !s.unread_ids.contains(
                #[trigger] ids[i],
            ) by {
                if i > 0 {
                    assert(ids[i] == rest[i - 1]);
                    if s.unread_ids.contains(ids[i]) {
                        let w = choose|w: int|
                            0 <= w < s.unread_ids.len() && s.unread_ids[w] == ids[i];
                        assert(t.unread_ids[w] == ids[i]);
                    }
                }
            }
        }
    }
}

/// A reconciliation goes through exactly where no identifier comes twice.
/// It then leaves the categories and the feeds as they are, holds the
/// identifiers in the working set, and changes of an article nothing but the
/// read flag: an unread article that none of the identifiers names is read,
/// and every other article is as it was.
pub proof fn lemma_reconcile(s: DbState, ids: Seq<Seq<char>>)
    ensures
        s.reconcile_result(ids) is Ok <==> ids.no_duplicates(),
        s.reconcile(ids).categories == s.categories,
        s.reconcile(ids).feeds == s.feeds,
        s.reconcile(ids).articles.len() == s.articles.len(),
        ids.no_duplicates() ==> s.reconcile(ids).unread_ids == ids,
        ids.no_duplicates() ==> forall|i: int|
            0 <= i < s.articles.len() ==> #[trigger] s.reconcile(ids).articles[i] == (if names(
                ids,
                s.articles[i].id,
            ) || s.articles[i].unread == 0 {
                s.articles[i]
            } else {
                ArticleView { unread: 0, ..s.articles[i] }
            }),
        !ids.no_duplicates() ==> s.reconcile(ids).articles == s.articles,
{
    lemma_add_unread_ids(s.clear_unread_ids(), ids);
}

/// A reconciliation leaves unread every unread article whose identifier is
/// among those handed in.
pub proof fn lemma_reconcile_keeps_reported(s: DbState, ids: Seq<Seq<char>>, i: int)
    requires
        s.wf(),
        ids.no_duplicates(),
        0 <= i < s.articles.len(),
        ids.contains(s.articles[i].id),
    ensures
        s.reconcile(ids).articles[i] == s.articles[i],
{
    lemma_reconcile(s, ids);
}

/// A reconciliation makes no article unread: one that is read stays read,
/// whatever identifiers are handed in.
pub proof fn lemma_reconcile_one_directional(s: DbState, ids: Seq<Seq<char>>, i: int)
    requires
        0 <= i < s.articles.len(),
        s.articles[i].unread == 0,
    ensures
        s.reconcile(ids).articles.len() == s.articles.len(),
        s.reconcile(ids).articles[i] == s.articles[i],
{
    lemma_reconcile(s, ids);
}

/// A reconciliation that is run again against the same identifiers changes
/// nothing.
pub proof fn lemma_reconcile_idempotent(s: DbState, ids: Seq<Seq<char>>)
    ensures
        s.reconcile(ids).reconcile(ids) == s.reconcile(ids),
{
    let once = s.reconcile(ids);
    lemma_reconcile(s, ids);
    lemma_reconcile(once, ids);
    assert(once.reconcile(ids).articles =~= once.articles);
}

} // verus!
