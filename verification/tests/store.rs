use news_rss::article::Article;
use news_rss::db::{CreateArticleParams, CreateCategoryParams, CreateFeedParams, DB};
use news_rss::error::SyncError;

fn category_params(id: &str, label: &str) -> CreateCategoryParams {
    CreateCategoryParams { id: id.to_string(), label: label.to_string() }
}

fn feed_params(id: &str, rss_link: &str, category_id: &str) -> CreateFeedParams {
    CreateFeedParams {
        id: id.to_string(),
        title: format!("title of {}", id),
        rss_link: rss_link.to_string(),
        link: format!("https://site.example/{}", id),
        description: format!("about {}", id),
        pub_date: Some("1700000000".to_string()),
        category_id: category_id.to_string(),
    }
}

fn article_params(id: &str, feed_id: &str, title: &str, pub_date: i64) -> CreateArticleParams {
    CreateArticleParams {
        id: id.to_string(),
        link: format!("https://site.example/{}", title),
        title: title.to_string(),
        description: String::new(),
        content: format!("<p>{}</p>", title),
        unread: 1,
        feed_id: feed_id.to_string(),
        pub_date,
    }
}

fn titles(articles: &Vec<Article>) -> Vec<String> {
    articles.iter().map(|a| a.title.clone()).collect()
}

fn store_with_three_articles() -> DB {
    let mut db = DB::new();
    db.create_category(category_params("cat/1", "News")).unwrap();
    db.create_feed(feed_params("feed/1", "https://one.example/rss", "cat/1")).unwrap();
    db.create_article(article_params("item/0a", "feed/1", "A", 100)).unwrap();
    db.create_article(article_params("item/0b", "feed/1", "B", 300)).unwrap();
    db.create_article(article_params("item/0c", "feed/1", "C", 200)).unwrap();
    db
}

#[test]
fn a_new_store_is_empty() {
    let db = DB::new();
    assert!(db.get_categories().unwrap().is_empty());
    assert!(db.get_feeds_for_category("cat/1").unwrap().is_empty());
    assert!(db.get_articles_for_feed("feed/1").unwrap().is_empty());
    assert_eq!(db.get_feed_unread_count("feed/1"), Ok(0));
    assert_eq!(db.get_category_unread_count("cat/1"), Ok(0));
}

#[test]
fn an_article_handed_in_twice_is_stored_once() {
    let mut db = DB::new();
    assert_eq!(db.create_article(article_params("item/1a", "feed/1", "first", 10)), Ok(()));
    assert_eq!(db.create_article(article_params("item/1a", "feed/2", "second", 20)), Ok(()));
    let stored = db.get_articles_for_feed("feed/1").unwrap();
    assert_eq!(stored.len(), 1);
    assert_eq!(stored[0].id, "item/1a");
    assert_eq!(stored[0].title, "first");
    assert_eq!(stored[0].link, "https://site.example/first");
    assert_eq!(stored[0].content, "<p>first</p>");
    assert_eq!(stored[0].pub_date, 10);
    assert_eq!(stored[0].feed_id, "feed/1");
    assert!(db.get_articles_for_feed("feed/2").unwrap().is_empty());
    let found = db.get_article("item/1a".to_string()).unwrap();
    assert_eq!(found.title, "first");
}

#[test]
fn a_new_article_is_unread_whatever_its_params_say() {
    let mut db = DB::new();
    let mut params = article_params("item/2", "feed/1", "t", 5);
    params.unread = 0;
    db.create_article(params).unwrap();
    let found = db.get_article("item/2".to_string()).unwrap();
    assert_eq!(found.unread, 1);
    assert!(found.unread());
}

#[test]
fn a_second_article_does_not_correct_a_read_flag() {
    let mut db = DB::new();
    db.create_article(article_params("item/3", "feed/1", "t", 5)).unwrap();
    db.mark_article_as_read("item/3").unwrap();
    db.create_article(article_params("item/3", "feed/1", "t", 5)).unwrap();
    assert_eq!(db.get_article("item/3".to_string()).unwrap().unread, 0);
}

#[test]
fn an_article_with_a_malformed_identifier_is_refused() {
    let mut db = DB::new();
    assert_eq!(
        db.create_article(article_params("item/nothex", "feed/1", "t", 5)),
        Err(SyncError::MalformedIdentifier)
    );
    assert!(db.get_articles_for_feed("feed/1").unwrap().is_empty());
}

#[test]
fn a_new_article_with_a_taken_short_identifier_is_refused() {
    let mut db = DB::new();
    db.create_article(article_params("one/1a", "feed/1", "first", 5)).unwrap();
    assert_eq!(
        db.create_article(article_params("two/1A", "feed/1", "second", 6)),
        Err(SyncError::StorageError)
    );
    assert_eq!(titles(&db.get_articles_for_feed("feed/1").unwrap()), vec!["first".to_string()]);
}

#[test]
fn a_category_handed_in_twice_keeps_its_first_label() {
    let mut db = DB::new();
    assert_eq!(db.create_category(category_params("cat/1", "News")), Ok(()));
    assert_eq!(db.create_category(category_params("cat/1", "Renamed")), Ok(()));
    assert_eq!(db.create_category(category_params("cat/2", "Tech")), Ok(()));
    let categories = db.get_categories().unwrap();
    assert_eq!(categories.len(), 2);
    assert_eq!(categories[0].id, "cat/1");
    assert_eq!(categories[0].label, "News");
    assert_eq!(categories[1].id, "cat/2");
    assert_eq!(categories[1].label, "Tech");
}

#[test]
fn a_feed_handed_in_twice_keeps_its_first_title() {
    let mut db = DB::new();
    assert_eq!(db.create_feed(feed_params("feed/1", "https://one.example/rss", "cat/1")), Ok(()));
    let mut again = feed_params("feed/1", "https://other.example/rss", "cat/2");
    again.title = "changed".to_string();
    assert_eq!(db.create_feed(again), Ok(()));
    let feeds = db.get_feeds_for_category("cat/1").unwrap();
    assert_eq!(feeds.len(), 1);
    assert_eq!(feeds[0].id, "feed/1");
    assert_eq!(feeds[0].title, "title of feed/1");
    assert_eq!(feeds[0].rss_link, "https://one.example/rss");
    assert_eq!(feeds[0].link, "https://site.example/feed/1");
    assert_eq!(feeds[0].description, "about feed/1");
    assert_eq!(feeds[0].pub_date, None);
    assert_eq!(feeds[0].category_id, "cat/1");
    assert!(db.get_feeds_for_category("cat/2").unwrap().is_empty());
}

#[test]
fn a_new_feed_with_a_taken_link_is_refused() {
    let mut db = DB::new();
    db.create_feed(feed_params("feed/1", "https://one.example/rss", "cat/1")).unwrap();
    assert_eq!(
        db.create_feed(feed_params("feed/2", "https://one.example/rss", "cat/1")),
        Err(SyncError::StorageError)
    );
    assert_eq!(db.get_feeds_for_category("cat/1").unwrap().len(), 1);
}

#[test]
fn feeds_are_listed_by_category_in_the_order_they_came() {
    let mut db = DB::new();
    db.create_feed(feed_params("feed/1", "https://one.example/rss", "cat/1")).unwrap();
    db.create_feed(feed_params("feed/2", "https://two.example/rss", "cat/2")).unwrap();
    db.create_feed(feed_params("feed/3", "https://three.example/rss", "cat/1")).unwrap();
    let feeds = db.get_feeds_for_category("cat/1").unwrap();
    let ids: Vec<String> = feeds.iter().map(|f| f.id.clone()).collect();
    assert_eq!(ids, vec!["feed/1".to_string(), "feed/3".to_string()]);
}

#[test]
fn unread_articles_come_newest_first() {
    let db = store_with_three_articles();
    let articles = db.get_articles_for_feed("feed/1").unwrap();
    assert_eq!(titles(&articles), vec!["B".to_string(), "C".to_string(), "A".to_string()]);
    let by_category = db.get_articles_for_category("cat/1").unwrap();
    assert_eq!(titles(&by_category), vec!["B".to_string(), "C".to_string(), "A".to_string()]);
}

#[test]
fn articles_of_one_date_keep_the_order_they_came_in() {
    let mut db = DB::new();
    db.create_article(article_params("item/1", "feed/1", "first", 50)).unwrap();
    db.create_article(article_params("item/2", "feed/1", "second", 70)).unwrap();
    db.create_article(article_params("item/3", "feed/1", "third", 50)).unwrap();
    db.create_article(article_params("item/4", "feed/1", "fourth", 70)).unwrap();
    let articles = db.get_articles_for_feed("feed/1").unwrap();
    assert_eq!(
        titles(&articles),
        vec!["second".to_string(), "fourth".to_string(), "first".to_string(), "third".to_string()]
    );
}

#[test]
fn read_articles_are_not_listed_and_not_counted() {
    let mut db = store_with_three_articles();
    assert_eq!(db.get_feed_unread_count("feed/1"), Ok(3));
    assert_eq!(db.get_category_unread_count("cat/1"), Ok(3));
    assert_eq!(db.mark_article_as_read("item/0b"), Ok(()));
    assert_eq!(db.get_feed_unread_count("feed/1"), Ok(2));
    assert_eq!(db.get_category_unread_count("cat/1"), Ok(2));
    let articles = db.get_articles_for_feed("feed/1").unwrap();
    assert_eq!(titles(&articles), vec!["C".to_string(), "A".to_string()]);
    assert_eq!(db.mark_article_as_unread("item/0b"), Ok(()));
    assert_eq!(db.get_feed_unread_count("feed/1"), Ok(3));
    assert_eq!(db.get_article("item/0b".to_string()).unwrap().unread, 1);
}

#[test]
fn marking_an_article_that_is_not_stored_changes_nothing() {
    let mut db = store_with_three_articles();
    assert_eq!(db.mark_article_as_read("item/ff"), Ok(()));
    assert_eq!(db.get_feed_unread_count("feed/1"), Ok(3));
}

#[test]
fn counts_go_through_the_stored_feed_and_category() {
    let mut db = DB::new();
    db.create_article(article_params("item/1", "feed/9", "orphan", 1)).unwrap();
    assert_eq!(db.get_feed_unread_count("feed/9"), Ok(0));
    assert_eq!(db.get_articles_for_feed("feed/9").unwrap().len(), 1);
    db.create_feed(feed_params("feed/9", "https://nine.example/rss", "cat/9")).unwrap();
    assert_eq!(db.get_feed_unread_count("feed/9"), Ok(1));
    assert_eq!(db.get_category_unread_count("cat/9"), Ok(0));
    assert!(db.get_articles_for_category("cat/9").unwrap().is_empty());
    db.create_category(category_params("cat/9", "Nine")).unwrap();
    assert_eq!(db.get_category_unread_count("cat/9"), Ok(1));
    assert_eq!(db.get_articles_for_category("cat/9").unwrap().len(), 1);
    assert_eq!(db.get_category_unread_count("cat/8"), Ok(0));
}

#[test]
fn a_category_counts_the_articles_of_all_its_feeds() {
    let mut db = DB::new();
    db.create_category(category_params("cat/1", "News")).unwrap();
    db.create_category(category_params("cat/2", "Tech")).unwrap();
    db.create_feed(feed_params("feed/1", "https://one.example/rss", "cat/1")).unwrap();
    db.create_feed(feed_params("feed/2", "https://two.example/rss", "cat/1")).unwrap();
    db.create_feed(feed_params("feed/3", "https://three.example/rss", "cat/2")).unwrap();
    db.create_article(article_params("item/1", "feed/1", "a", 1)).unwrap();
    db.create_article(article_params("item/2", "feed/2", "b", 2)).unwrap();
    db.create_article(article_params("item/3", "feed/3", "c", 3)).unwrap();
    db.create_article(article_params("item/4", "feed/2", "d", 4)).unwrap();
    assert_eq!(db.get_category_unread_count("cat/1"), Ok(3));
    assert_eq!(db.get_category_unread_count("cat/2"), Ok(1));
    assert_eq!(db.get_feed_unread_count("feed/2"), Ok(2));
    let articles = db.get_articles_for_category("cat/1").unwrap();
    assert_eq!(titles(&articles), vec!["d".to_string(), "b".to_string(), "a".to_string()]);
}

#[test]
fn an_article_that_is_not_stored_cannot_be_fetched() {
    let db = store_with_three_articles();
    assert!(matches!(db.get_article("item/ff".to_string()), Err(SyncError::StorageError)));
}

#[test]
fn reconciliation_marks_as_read_what_the_snapshot_does_not_name() {
    let mut db = store_with_three_articles();
    assert_eq!(db.mark_articles_as_read_except(vec!["item/0b".to_string()]), Ok(()));
    assert_eq!(db.get_article("item/0a".to_string()).unwrap().unread, 0);
    assert_eq!(db.get_article("item/0b".to_string()).unwrap().unread, 1);
    assert_eq!(db.get_article("item/0c".to_string()).unwrap().unread, 0);
    assert_eq!(db.get_feed_unread_count("feed/1"), Ok(1));
}

#[test]
fn reconciliation_never_makes_an_article_unread() {
    let mut db = store_with_three_articles();
    db.mark_article_as_read("item/0b").unwrap();
    assert_eq!(
        db.mark_articles_as_read_except(vec!["item/0b".to_string(), "item/0a".to_string()]),
        Ok(())
    );
    assert_eq!(db.get_article("item/0a".to_string()).unwrap().unread, 1);
    assert_eq!(db.get_article("item/0b".to_string()).unwrap().unread, 0);
    assert_eq!(db.get_article("item/0c".to_string()).unwrap().unread, 0);
}

#[test]
fn reconciliation_against_nothing_marks_everything_as_read() {
    let mut db = store_with_three_articles();
    assert_eq!(db.mark_articles_as_read_except(Vec::new()), Ok(()));
    assert_eq!(db.get_feed_unread_count("feed/1"), Ok(0));
    assert!(db.get_articles_for_feed("feed/1").unwrap().is_empty());
}

#[test]
fn reconciliation_goes_by_the_short_identifier() {
    let mut db = store_with_three_articles();
    assert_eq!(
        db.mark_articles_as_read_except(vec!["elsewhere/0A".to_string(), "not hex".to_string()]),
        Ok(())
    );
    assert_eq!(db.get_article("item/0a".to_string()).unwrap().unread, 1);
    assert_eq!(db.get_article("item/0b".to_string()).unwrap().unread, 0);
    assert_eq!(db.get_article("item/0c".to_string()).unwrap().unread, 0);
}

#[test]
fn reconciliation_refuses_an_identifier_that_comes_twice() {
    let mut db = store_with_three_articles();
    assert_eq!(
        db.mark_articles_as_read_except(vec!["item/0b".to_string(), "item/0b".to_string()]),
        Err(SyncError::StorageError)
    );
    assert_eq!(db.get_feed_unread_count("feed/1"), Ok(3));
}

#[test]
fn reconciliation_starts_from_an_empty_working_set() {
    let mut db = store_with_three_articles();
    assert_eq!(db.add_unread_id("item/0a"), Ok(()));
    assert_eq!(db.mark_articles_as_read_except(vec!["item/0b".to_string()]), Ok(()));
    assert_eq!(db.get_article("item/0a".to_string()).unwrap().unread, 0);
    assert_eq!(db.get_article("item/0b".to_string()).unwrap().unread, 1);
}

#[test]
fn the_working_set_refuses_what_it_holds_until_it_is_cleared() {
    let mut db = DB::new();
    assert_eq!(db.add_unread_id("item/1"), Ok(()));
    assert_eq!(db.add_unread_id("item/2"), Ok(()));
    assert_eq!(db.add_unread_id("item/1"), Err(SyncError::StorageError));
    assert_eq!(db.clear_unread_articles(), Ok(()));
    assert_eq!(db.add_unread_id("item/1"), Ok(()));
}

#[test]
fn the_store_lists_all_it_holds() {
    let mut db = store_with_three_articles();
    db.create_feed(feed_params("feed/2", "https://two.example/rss", "cat/7")).unwrap();
    db.mark_article_as_read("item/0c").unwrap();
    let feeds = db.get_feeds().unwrap();
    let feed_ids: Vec<String> = feeds.iter().map(|f| f.id.clone()).collect();
    assert_eq!(feed_ids, vec!["feed/1".to_string(), "feed/2".to_string()]);
    let articles = db.get_all_articles().unwrap();
    assert_eq!(titles(&articles), vec!["A".to_string(), "B".to_string(), "C".to_string()]);
    let flags: Vec<i8> = articles.iter().map(|a| a.unread).collect();
    assert_eq!(flags, vec![1, 1, 0]);
}

#[test]
fn reconciliation_run_again_changes_nothing() {
    let mut db = store_with_three_articles();
    let ids = vec!["item/0c".to_string(), "item/0a".to_string()];
    assert_eq!(db.mark_articles_as_read_except(ids.clone()), Ok(()));
    let first: Vec<i8> = db.get_all_articles().unwrap().iter().map(|a| a.unread).collect();
    assert_eq!(first, vec![1, 0, 1]);
    assert_eq!(db.mark_articles_as_read_except(ids), Ok(()));
    let second: Vec<i8> = db.get_all_articles().unwrap().iter().map(|a| a.unread).collect();
    assert_eq!(second, first);
}

#[test]
fn a_stored_row_names_its_unread_count() {
    let db = store_with_three_articles();
    let count = news_rss::db::UnreadCount { count: db.get_feed_unread_count("feed/1").unwrap() };
    assert_eq!(count.count, 3);
}
