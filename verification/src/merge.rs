//! What the answers of the remote service make of the store.

use vstd::prelude::*;
use crate::article::ArticleView;
use crate::error::SyncError;
use crate::feed::FeedView;
use crate::greader::{CategoryView, ItemView, SubscriptionView};
use crate::model::DbState;

verus! {

/// The store after the categories `cs` were handed to it, one after the
/// other.
pub open spec fn insert_categories(s: DbState, cs: Seq<CategoryView>) -> DbState
    decreases cs.len(),
{
    if cs.len() == 0 {
        s
    } else {
        insert_categories(s.insert_category(cs[0]), cs.drop_first())
    }
}

/// The feed that a subscription stands for: it belongs to the first category
/// of the subscription.
pub open spec fn feed_of(sub: SubscriptionView) -> FeedView {
    FeedView {
        id: sub.id,
        title: sub.title,
        rss_link: sub.url,
        link: sub.html_url,
        description: Seq::empty(),
        pub_date: None,
        category_id: sub.categories[0].id,
    }
}

/// Whether the store takes the subscription `sub`: one without a category is
/// malformed; else the store decides on the feed once the categories are
/// in.
pub open spec fn subscribe_result(s: DbState, sub: SubscriptionView) -> Result<(), SyncError> {
    if sub.categories.len() == 0 {
        Err(SyncError::MalformedResponse)
    } else {
        insert_categories(s, sub.categories).insert_feed_result(feed_of(sub))
    }
}

/// The store after the subscription `sub` was handed to it: all its
/// categories are in, and its feed, unless the store refuses it.
pub open spec fn subscribe(s: DbState, sub: SubscriptionView) -> DbState {
    if sub.categories.len() == 0 {
        s
    } else {
        insert_categories(s, sub.categories).insert_feed(feed_of(sub))
    }
}

/// Whether the store takes all of `subs`, one after the other: the first
/// refusal ends it.
pub open spec fn subscribe_all_result(s: DbState, subs: Seq<SubscriptionView>) -> Result<
    (),
    SyncError,
>
    decreases subs.len(),
{
    if subs.len() == 0 {
        Ok(())
    } else if subscribe_result(s, subs[0]) is Err {
        subscribe_result(s, subs[0])
    } else {
        subscribe_all_result(subscribe(s, subs[0]), subs.drop_first())
    }
}

/// The store after `subs` were handed to it, one after the other, up to the
/// first that it refuses.
pub open spec fn subscribe_all(s: DbState, subs: Seq<SubscriptionView>) -> DbState
    decreases subs.len(),
{
    if subs.len() == 0 {
        s
    } else if subscribe_result(s, subs[0]) is Err {
        subscribe(s, subs[0])
    } else {
        subscribe_all(subscribe(s, subs[0]), subs.drop_first())
    }
}

/// The article that an item stands for: unread, without a description, and
/// with the first link of the item.
pub open spec fn article_of(item: ItemView) -> ArticleView {
    ArticleView {
        id: item.id,
        link: item.canonical[0],
        title: item.title,
        description: Seq::empty(),
        content: item.content,
        unread: 1,
        feed_id: item.stream_id,
        pub_date: item.published,
    }
}

/// Whether the store takes the item: one without a link is malformed; else
/// the store decides on the article.
pub open spec fn store_item_result(s: DbState, item: ItemView) -> Result<(), SyncError> {
    if item.canonical.len() == 0 {
        Err(SyncError::MalformedResponse)
    } else {
        s.insert_article_result(article_of(item))
    }
}

/// The store after the item was handed to it.
pub open spec fn store_item(s: DbState, item: ItemView) -> DbState {
    if item.canonical.len() == 0 {
        s
    } else {
        s.insert_article(article_of(item))
    }
}

/// Whether the store takes all of `items`, one after the other: the first
/// refusal ends it.
pub open spec fn store_items_result(s: DbState, items: Seq<ItemView>) -> Result<(), SyncError>
    decreases items.len(),
{
    if items.len() == 0 {
        Ok(())
    } else if store_item_result(s, items[0]) is Err {
        store_item_result(s, items[0])
    } else {
        store_items_result(store_item(s, items[0]), items.drop_first())
    }
}

/// The store after `items` were handed to it, one after the other, up to the
/// first that it refuses.
pub open spec fn store_items(s: DbState, items: Seq<ItemView>) -> DbState
    decreases items.len(),
{
    if items.len() == 0 || store_item_result(s, items[0]) is Err {
        s
    } else {
        store_items(store_item(s, items[0]), items.drop_first())
    }
}

} // verus!
