use news_rss::article::Article;
use news_rss::category::Category;
use news_rss::error::SyncError;
use news_rss::feed::Feed;
use news_rss::tree_entry::TreeEntry;
use news_rss::utils::formatted_pub_date;

fn sample_article(unread: i8) -> Article {
    Article::new(
        "item/1a".to_string(),
        "https://site.example/a".to_string(),
        "A title".to_string(),
        "described".to_string(),
        "<p>body</p>".to_string(),
        unread,
        "feed/1".to_string(),
        1_700_000_000,
    )
}

#[test]
fn an_article_holds_what_it_was_made_from() {
    let article = sample_article(1);
    assert_eq!(article.id, "item/1a");
    assert_eq!(article.link, "https://site.example/a");
    assert_eq!(article.title, "A title");
    assert_eq!(article.description, "described");
    assert_eq!(article.content, "<p>body</p>");
    assert_eq!(article.unread, 1);
    assert_eq!(article.feed_id, "feed/1");
    assert_eq!(article.pub_date, 1_700_000_000);
    let copy = article.clone();
    assert_eq!(copy.id, article.id);
    assert_eq!(copy.pub_date, article.pub_date);
}

#[test]
fn an_article_is_unread_only_with_the_flag_one() {
    assert!(sample_article(1).unread());
    assert!(!sample_article(0).unread());
    assert!(!sample_article(2).unread());
    assert!(!sample_article(-1).unread());
}

#[test]
fn an_article_is_drawn_with_date_mark_and_title() {
    assert_eq!(sample_article(1).draw_dated("14/11/2023 22:13"), "14/11/2023 22:13 N A title");
    assert_eq!(sample_article(0).draw_dated("14/11/2023 22:13"), "14/11/2023 22:13   A title");
    assert_eq!(sample_article(1).draw_dated(""), " N A title");
}

#[test]
fn an_article_is_drawn_with_the_date_of_this_machine() {
    let line = sample_article(1).draw();
    let date = formatted_pub_date(1_700_000_000);
    assert_eq!(line, format!("{} N A title", date));
}

#[test]
fn a_date_is_shown_as_day_month_year_hour_minute() {
    let text = formatted_pub_date(1_700_000_000);
    let chars: Vec<char> = text.chars().collect();
    assert_eq!(chars.len(), 16);
    assert_eq!(chars[2], '/');
    assert_eq!(chars[5], '/');
    assert_eq!(chars[10], ' ');
    assert_eq!(chars[13], ':');
    assert_eq!(&text[3..10], "11/2023");
    assert_ne!(text, "1700000000");
}

#[test]
fn a_feed_holds_what_it_was_made_from() {
    let feed = Feed::new(
        "feed/1".to_string(),
        "Feed".to_string(),
        "https://one.example/rss".to_string(),
        "https://one.example/".to_string(),
        "about".to_string(),
        Some(12),
        "cat/1".to_string(),
    );
    assert_eq!(feed.id, "feed/1");
    assert_eq!(feed.title, "Feed");
    assert_eq!(feed.rss_link, "https://one.example/rss");
    assert_eq!(feed.link, "https://one.example/");
    assert_eq!(feed.description, "about");
    assert_eq!(feed.pub_date, Some(12));
    assert_eq!(feed.category_id, "cat/1");
    let copy = feed.clone();
    assert_eq!(copy.rss_link, feed.rss_link);
}

#[test]
fn a_category_hands_out_its_feed_links() {
    let links = vec!["https://one.example/rss".to_string(), "https://two.example/rss".to_string()];
    let category = Category::new("News", links.clone());
    assert_eq!(category.title, "News");
    assert_eq!(category.feed_links(), links);
    assert_eq!(category.clone().feed_links(), links);
    let empty = Category::default();
    assert_eq!(empty.title, "");
    assert!(empty.feed_links().is_empty());
}

#[test]
fn a_tree_entry_shows_its_count_before_its_title() {
    let mut entry =
        TreeEntry { title: "News".to_string(), id: "cat/1".to_string(), unread_count: Some(12) };
    assert_eq!(entry.label(), "(12) News");
    entry.unread_count = Some(0);
    assert_eq!(entry.label(), "News");
    entry.unread_count = None;
    assert_eq!(entry.label(), "News");
    entry.unread_count = Some(-3);
    assert_eq!(entry.label(), "(-3) News");
    entry.unread_count = Some(1_000_000);
    assert_eq!(entry.label(), "(1000000) News");
    assert_eq!(TreeEntry::default().label(), "");
}

#[test]
fn a_tree_entry_counts_up_and_down() {
    let mut entry =
        TreeEntry { title: "Feed".to_string(), id: "feed/1".to_string(), unread_count: Some(1) };
    entry.increase_unread_count();
    assert_eq!(entry.unread_count, Some(2));
    entry.decrease_unread_count();
    entry.decrease_unread_count();
    assert_eq!(entry.unread_count, Some(0));
    entry.decrease_unread_count();
    assert_eq!(entry.unread_count, Some(0));
    let mut blank = TreeEntry::default();
    blank.decrease_unread_count();
    assert_eq!(blank.unread_count, None);
    assert_eq!(entry.clone().title, "Feed");
}

#[test]
fn every_error_has_its_name() {
    assert_eq!(SyncError::MissingCredentials.describe(), "MissingCredentials");
    assert_eq!(SyncError::AuthRejected.describe(), "AuthRejected");
    assert_eq!(SyncError::TransportFailure.describe(), "TransportFailure");
    assert_eq!(SyncError::MalformedResponse.describe(), "MalformedResponse");
    assert_eq!(SyncError::MalformedIdentifier.describe(), "MalformedIdentifier");
    assert_eq!(SyncError::StorageError.describe(), "StorageError");
}
