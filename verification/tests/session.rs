use news_rss::config::Config;
use news_rss::db::DB;
use news_rss::error::SyncError;
use news_rss::greader::{
    find_auth_token, Category, Greader, Item, ItemCanonical, ItemOrigin, ItemSummary, ReadingList,
    Subscription, Subscriptions, UnreadItemId, UnreadItemIds,
};
use news_rss::request::Method;

fn full_config() -> Config {
    Config {
        fresh_rss_api_url: Some("https://rss.example/api/greader.php".to_string()),
        fresh_rss_api_user: Some("alice".to_string()),
        fresh_rss_api_password: Some("s3cret".to_string()),
        browser: None,
    }
}

fn session() -> Greader {
    Greader::login(full_config(), "SID=x\nLSID=null\nAuth=alice/8e6845e0\n").unwrap()
}

fn subscription(id: &str, url: &str, categories: Vec<(&str, &str)>) -> Subscription {
    Subscription {
        id: id.to_string(),
        title: format!("title of {}", id),
        categories: categories
            .into_iter()
            .map(|(id, label)| Category { id: id.to_string(), label: label.to_string() })
            .collect(),
        url: url.to_string(),
        html_url: format!("https://site.example/{}", id),
        icon_url: String::new(),
    }
}

fn item(id: &str, stream_id: &str, title: &str, published: i64) -> Item {
    Item {
        id: id.to_string(),
        published,
        title: title.to_string(),
        summary: ItemSummary { content: format!("<p>{}</p>", title) },
        canonical: vec![
            ItemCanonical { href: format!("https://site.example/{}", title) },
            ItemCanonical { href: "https://mirror.example/".to_string() },
        ],
        categories: vec!["user/-/state/com.google/reading-list".to_string()],
        origin: ItemOrigin {
            stream_id: stream_id.to_string(),
            html_url: "https://site.example/".to_string(),
            title: "Site".to_string(),
        },
    }
}

fn page(items: Vec<Item>, continuation: Option<&str>) -> ReadingList {
    ReadingList {
        id: "user/-/state/com.google/reading-list".to_string(),
        updated: 1_700_000_000,
        items,
        continuation: continuation.map(|c| c.to_string()),
    }
}

#[test]
fn the_login_request_posts_the_credentials() {
    let request = Greader::login_request(&full_config()).unwrap();
    assert_eq!(request.method, Method::Post);
    assert_eq!(request.url, "https://rss.example/api/greader.php/accounts/ClientLogin");
    assert!(request.headers.is_empty());
    assert_eq!(request.form, vec!["Email=alice".to_string(), "Passwd=s3cret".to_string()]);
}

#[test]
fn a_login_without_credentials_sends_nothing() {
    let mut config = full_config();
    config.fresh_rss_api_password = None;
    assert!(matches!(Greader::login_request(&config), Err(SyncError::MissingCredentials)));
    let mut config = full_config();
    config.fresh_rss_api_user = None;
    assert!(matches!(Greader::login_request(&config), Err(SyncError::MissingCredentials)));
    let mut config = full_config();
    config.fresh_rss_api_url = None;
    assert!(matches!(Greader::login_request(&config), Err(SyncError::MissingCredentials)));
    assert!(matches!(
        Greader::login(config, "Auth=token\n"),
        Err(SyncError::MissingCredentials)
    ));
    assert!(matches!(
        Greader::login(Config::default(), "Auth=token\n"),
        Err(SyncError::MissingCredentials)
    ));
}

#[test]
fn a_login_takes_the_token_of_the_auth_line() {
    let greader = session();
    assert_eq!(greader.token(), "alice/8e6845e0");
    assert_eq!(greader.api_url(), "https://rss.example/api/greader.php");
}

#[test]
fn a_login_without_a_token_line_is_rejected() {
    assert!(matches!(Greader::login(full_config(), ""), Err(SyncError::AuthRejected)));
    assert!(matches!(
        Greader::login(full_config(), "Error=BadAuthentication\n"),
        Err(SyncError::AuthRejected)
    ));
    assert!(matches!(Greader::login(full_config(), "Auth=\n"), Err(SyncError::AuthRejected)));
    assert!(matches!(
        Greader::login(full_config(), "Auth=   \r\nAuth=late\n"),
        Err(SyncError::AuthRejected)
    ));
    assert!(matches!(Greader::login(full_config(), "auth=abc\n"), Err(SyncError::AuthRejected)));
}

#[test]
fn the_token_is_the_rest_of_the_first_auth_line_without_white_space() {
    assert_eq!(find_auth_token("Auth=abc"), Some("abc".to_string()));
    assert_eq!(find_auth_token("Auth=  abc \r\n"), Some("abc".to_string()));
    assert_eq!(find_auth_token("SID=1\nAuth=first\nAuth=second\n"), Some("first".to_string()));
    assert_eq!(find_auth_token("Auth=a=b c\n"), Some("a=b c".to_string()));
    assert_eq!(find_auth_token("Authority=abc\nAuth=xyz"), Some("xyz".to_string()));
    assert_eq!(find_auth_token(" Auth=abc\n"), None);
    assert_eq!(find_auth_token("\n\n"), None);
    assert_eq!(find_auth_token("Auth=\u{00a0}t\u{00e9}\u{3000}\n"), Some("t\u{00e9}".to_string()));
}

#[test]
fn the_requests_of_a_session_carry_its_token() {
    let greader = session();
    let header = "Authorization:GoogleLogin auth=alice/8e6845e0".to_string();

    let request = greader.subscription_list_request();
    assert_eq!(request.method, Method::Get);
    assert_eq!(
        request.url,
        "https://rss.example/api/greader.php/reader/api/0/subscription/list?output=json"
    );
    assert_eq!(request.headers, vec![header.clone()]);
    assert!(request.form.is_empty());

    let request = greader.tag_list_request();
    assert_eq!(request.method, Method::Get);
    assert_eq!(
        request.url,
        "https://rss.example/api/greader.php/reader/api/0/tag/list?output=json"
    );
    assert_eq!(request.headers, vec![header.clone()]);

    let request = greader.unread_ids_request();
    assert_eq!(request.method, Method::Get);
    assert_eq!(
        request.url,
        "https://rss.example/api/greader.php/reader/api/0/stream/items/ids?output=json&s=user/-/state/com.google/reading-list&xt=user/-/state/com.google/read&n=10000&r=n"
    );
    assert_eq!(request.headers, vec![header]);
    assert!(request.form.is_empty());
}

#[test]
fn a_page_request_carries_the_continuation_and_the_watermark() {
    let greader = session();
    let first = greader.unread_content_request(&None, None);
    assert_eq!(first.method, Method::Get);
    assert_eq!(
        first.url,
        "https://rss.example/api/greader.php/reader/api/0/stream/contents?s=user/-/state/com.google/reading-list&xt=user/-/state/com.google/read&n=1000&r=n&c=&ot="
    );
    let next = greader.unread_content_request(&Some("CkP9".to_string()), Some(1_700_000_123));
    assert_eq!(
        next.url,
        "https://rss.example/api/greader.php/reader/api/0/stream/contents?s=user/-/state/com.google/reading-list&xt=user/-/state/com.google/read&n=1000&r=n&c=CkP9&ot=1700000123"
    );
    assert_eq!(next.headers, vec!["Authorization:GoogleLogin auth=alice/8e6845e0".to_string()]);
    let early = greader.unread_content_request(&None, Some(-5));
    assert!(early.url.ends_with("&c=&ot=-5"));
}

#[test]
fn an_edit_tag_request_adds_or_removes_the_read_tag() {
    let greader = session();
    let read = greader.edit_tag_request("tag:google.com,2005:reader/item/1a", false);
    assert_eq!(read.method, Method::Post);
    assert_eq!(read.url, "https://rss.example/api/greader.php/reader/api/0/edit-tag");
    assert_eq!(read.headers, vec!["Authorization:GoogleLogin auth=alice/8e6845e0".to_string()]);
    assert_eq!(
        read.form,
        vec![
            "i=tag:google.com,2005:reader/item/1a".to_string(),
            "a=user/-/state/com.google/read".to_string()
        ]
    );
    let unread = greader.edit_tag_request("tag:google.com,2005:reader/item/1a", true);
    assert_eq!(
        unread.form,
        vec![
            "i=tag:google.com,2005:reader/item/1a".to_string(),
            "r=user/-/state/com.google/read".to_string()
        ]
    );
}

#[test]
fn a_subscription_list_fills_categories_and_feeds() {
    let greader = session();
    let mut db = DB::new();
    let subs = Subscriptions {
        subscriptions: vec![subscription(
            "feed/1",
            "https://one.example/rss",
            vec![("cat/1", "News")],
        )],
    };
    assert_eq!(greader.get_subscription_list(&mut db, &subs), Ok(()));
    let categories = db.get_categories().unwrap();
    assert_eq!(categories.len(), 1);
    assert_eq!(categories[0].id, "cat/1");
    assert_eq!(categories[0].label, "News");
    let feeds = db.get_feeds_for_category("cat/1").unwrap();
    assert_eq!(feeds.len(), 1);
    assert_eq!(feeds[0].id, "feed/1");
    assert_eq!(feeds[0].title, "title of feed/1");
    assert_eq!(feeds[0].rss_link, "https://one.example/rss");
    assert_eq!(feeds[0].link, "https://site.example/feed/1");
    assert_eq!(feeds[0].description, "");
    assert_eq!(feeds[0].pub_date, None);
    assert_eq!(feeds[0].category_id, "cat/1");
}

#[test]
fn a_feed_of_several_categories_is_kept_under_the_first() {
    let greader = session();
    let mut db = DB::new();
    let subs = Subscriptions {
        subscriptions: vec![
            subscription(
                "feed/1",
                "https://one.example/rss",
                vec![("cat/2", "Tech"), ("cat/1", "News")],
            ),
            subscription("feed/2", "https://two.example/rss", vec![("cat/1", "Other label")]),
        ],
    };
    assert_eq!(greader.get_subscription_list(&mut db, &subs), Ok(()));
    let categories = db.get_categories().unwrap();
    let labels: Vec<String> = categories.iter().map(|c| c.label.clone()).collect();
    assert_eq!(labels, vec!["Tech".to_string(), "News".to_string()]);
    let tech: Vec<String> =
        db.get_feeds_for_category("cat/2").unwrap().iter().map(|f| f.id.clone()).collect();
    let news: Vec<String> =
        db.get_feeds_for_category("cat/1").unwrap().iter().map(|f| f.id.clone()).collect();
    assert_eq!(tech, vec!["feed/1".to_string()]);
    assert_eq!(news, vec!["feed/2".to_string()]);
}

#[test]
fn a_subscription_without_a_category_is_malformed() {
    let greader = session();
    let mut db = DB::new();
    let subs = Subscriptions {
        subscriptions: vec![
            subscription("feed/1", "https://one.example/rss", vec![("cat/1", "News")]),
            subscription("feed/2", "https://two.example/rss", vec![]),
            subscription("feed/3", "https://three.example/rss", vec![("cat/3", "Late")]),
        ],
    };
    assert_eq!(greader.get_subscription_list(&mut db, &subs), Err(SyncError::MalformedResponse));
    assert_eq!(db.get_categories().unwrap().len(), 1);
    assert_eq!(db.get_feeds_for_category("cat/1").unwrap().len(), 1);
}

#[test]
fn a_subscription_with_a_taken_link_is_refused_after_its_categories() {
    let greader = session();
    let mut db = DB::new();
    let subs = Subscriptions {
        subscriptions: vec![
            subscription("feed/1", "https://one.example/rss", vec![("cat/1", "News")]),
            subscription("feed/2", "https://one.example/rss", vec![("cat/2", "Tech")]),
        ],
    };
    assert_eq!(greader.get_subscription_list(&mut db, &subs), Err(SyncError::StorageError));
    assert_eq!(db.get_categories().unwrap().len(), 2);
    assert!(db.get_feeds_for_category("cat/2").unwrap().is_empty());
}

#[test]
fn a_page_fills_articles_and_hands_back_its_continuation() {
    let greader = session();
    let mut db = DB::new();
    let first = page(
        vec![item("item/1", "feed/1", "one", 10), item("item/2", "feed/1", "two", 20)],
        Some("next"),
    );
    assert_eq!(greader.get_unred_articles_content(&mut db, &first), Ok(Some("next".to_string())));
    let last = page(vec![item("item/2", "feed/1", "two again", 25)], None);
    assert_eq!(greader.get_unred_articles_content(&mut db, &last), Ok(None));
    let articles = db.get_articles_for_feed("feed/1").unwrap();
    assert_eq!(articles.len(), 2);
    assert_eq!(articles[0].id, "item/2");
    assert_eq!(articles[0].title, "two");
    assert_eq!(articles[0].link, "https://site.example/two");
    assert_eq!(articles[0].description, "");
    assert_eq!(articles[0].content, "<p>two</p>");
    assert_eq!(articles[0].unread, 1);
    assert_eq!(articles[0].feed_id, "feed/1");
    assert_eq!(articles[0].pub_date, 20);
    assert_eq!(articles[1].id, "item/1");
}

#[test]
fn an_item_without_a_link_is_malformed() {
    let greader = session();
    let mut db = DB::new();
    let mut broken = item("item/2", "feed/1", "two", 20);
    broken.canonical = Vec::new();
    let list = page(
        vec![item("item/1", "feed/1", "one", 10), broken, item("item/3", "feed/1", "three", 30)],
        Some("next"),
    );
    assert_eq!(
        greader.get_unred_articles_content(&mut db, &list),
        Err(SyncError::MalformedResponse)
    );
    assert_eq!(db.get_articles_for_feed("feed/1").unwrap().len(), 1);
}

#[test]
fn an_item_with_a_malformed_identifier_ends_the_page() {
    let greader = session();
    let mut db = DB::new();
    let list = page(
        vec![item("item/1", "feed/1", "one", 10), item("item/zz", "feed/1", "two", 20)],
        None,
    );
    assert_eq!(
        greader.get_unred_articles_content(&mut db, &list),
        Err(SyncError::MalformedIdentifier)
    );
    assert_eq!(db.get_articles_for_feed("feed/1").unwrap().len(), 1);
}

#[test]
fn the_store_is_marked_only_after_the_remote_service_was_told() {
    let greader = session();
    let mut db = DB::new();
    let list = page(vec![item("item/1", "feed/1", "one", 10)], None);
    greader.get_unred_articles_content(&mut db, &list).unwrap();
    assert_eq!(
        greader.mark_article_as_read(&mut db, "item/1", Err(SyncError::TransportFailure)),
        Err(SyncError::TransportFailure)
    );
    assert_eq!(db.get_article("item/1".to_string()).unwrap().unread, 1);
    assert_eq!(greader.mark_article_as_read(&mut db, "item/1", Ok(())), Ok(()));
    assert_eq!(db.get_article("item/1".to_string()).unwrap().unread, 0);
    assert_eq!(
        greader.mark_article_as_unread(&mut db, "item/1", Err(SyncError::TransportFailure)),
        Err(SyncError::TransportFailure)
    );
    assert_eq!(db.get_article("item/1".to_string()).unwrap().unread, 0);
    assert_eq!(greader.mark_article_as_unread(&mut db, "item/1", Ok(())), Ok(()));
    assert_eq!(db.get_article("item/1".to_string()).unwrap().unread, 1);
}

#[test]
fn the_unread_identifiers_reconcile_the_store() {
    let greader = session();
    let mut db = DB::new();
    let list = page(
        vec![
            item("item/0a", "feed/1", "A", 10),
            item("item/0b", "feed/1", "B", 20),
            item("item/0c", "feed/1", "C", 30),
        ],
        None,
    );
    greader.get_unred_articles_content(&mut db, &list).unwrap();
    let ids = UnreadItemIds {
        item_refs: vec![UnreadItemId { id: "item/0b".to_string() }],
        continuation: None,
    };
    assert_eq!(greader.mark_articles_as_read_except(&mut db, &ids), Ok(()));
    assert_eq!(db.get_article("item/0a".to_string()).unwrap().unread, 0);
    assert_eq!(db.get_article("item/0b".to_string()).unwrap().unread, 1);
    assert_eq!(db.get_article("item/0c".to_string()).unwrap().unread, 0);
}

#[test]
fn a_cloned_session_is_the_same_session() {
    let greader = session();
    let copy = greader.clone();
    assert_eq!(copy.token(), greader.token());
    assert_eq!(copy.api_url(), greader.api_url());
    let blank = Greader::default();
    assert_eq!(blank.token(), "");
    assert_eq!(blank.api_url(), "");
}
