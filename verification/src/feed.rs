//! A feed as the store hands it out.

use vstd::prelude::*;

verus! {

/// One subscribed feed.
#[derive(Debug)]
pub struct Feed {
    pub id: String,
    pub title: String,
    pub rss_link: String,
    pub link: String,
    pub description: String,
    pub pub_date: Option<i64>,
    pub category_id: String,
}

/// What a feed holds, as plain values.
pub struct FeedView {
    pub id: Seq<char>,
    pub title: Seq<char>,
    pub rss_link: Seq<char>,
    pub link: Seq<char>,
    pub description: Seq<char>,
    pub pub_date: Option<i64>,
    pub category_id: Seq<char>,
}

impl View for Feed {
    type V = FeedView;

    open spec fn view(&self) -> FeedView {
        FeedView {
            id: self.id@,
            title: self.title@,
            rss_link: self.rss_link@,
            link: self.link@,
            description: self.description@,
            pub_date: self.pub_date,
            category_id: self.category_id@,
        }
    }
}

impl Clone for Feed {
    fn clone(&self) -> (r: Self)
        ensures
            r@ == self@,
    {
        Feed {
            id: self.id.clone(),
            title: self.title.clone(),
            rss_link: self.rss_link.clone(),
            link: self.link.clone(),
            description: self.description.clone(),
            pub_date: self.pub_date,
            category_id: self.category_id.clone(),
        }
    }
}

impl Feed {
    /// A feed that holds what is handed in.
    pub fn new(
        id: String,
        title: String,
        rss_link: String,
        link: String,
        description: String,
        pub_date: Option<i64>,
        category_id: String,
    ) -> (r: Self)
        ensures
            r@ == (FeedView {
                id: id@,
                title: title@,
                rss_link: rss_link@,
                link: link@,
                description: description@,
                pub_date,
                category_id: category_id@,
            }),
    {
        Self { id, title, rss_link, link, description, pub_date, category_id }
    }
}

} // verus!
