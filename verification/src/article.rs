//! An article as the store hands it out.

use vstd::prelude::*;
use crate::utils::{formatted_pub_date, pub_date_in_range};

verus! {

/// One article of a feed.
#[derive(Debug)]
pub struct Article {
    pub id: String,
    pub link: String,
    pub title: String,
    pub description: String,
    pub content: String,
    /// 1 while the article is unread, 0 once it has been read.
    pub unread: i8,
    pub feed_id: String,
    /// Seconds since the epoch.
    pub pub_date: i64,
}

/// What an article holds, as plain values.
pub struct ArticleView {
    pub id: Seq<char>,
    pub link: Seq<char>,
    pub title: Seq<char>,
    pub description: Seq<char>,
    pub content: Seq<char>,
    pub unread: i8,
    pub feed_id: Seq<char>,
    pub pub_date: i64,
}

impl View for Article {
    type V = ArticleView;

    open spec fn view(&self) -> ArticleView {
        ArticleView {
            id: self.id@,
            link: self.link@,
            title: self.title@,
            description: self.description@,
            content: self.content@,
            unread: self.unread,
            feed_id: self.feed_id@,
            pub_date: self.pub_date,
        }
    }
}

impl Clone for Article {
    fn clone(&self) -> (r: Self)
        ensures
            r@ == self@,
    {
        Article {
            id: self.id.clone(),
            link: self.link.clone(),
            title: self.title.clone(),
            description: self.description.clone(),
            content: self.content.clone(),
            unread: self.unread,
            feed_id: self.feed_id.clone(),
            pub_date: self.pub_date,
        }
    }
}

impl Article {
    /// An article that holds what is handed in.
    pub fn new(
        id: String,
        link: String,
        title: String,
        description: String,
        content: String,
        unread: i8,
        feed_id: String,
        pub_date: i64,
    ) -> (r: Self)
        ensures
            r@ == (ArticleView {
                id: id@,
                link: link@,
                title: title@,
                description: description@,
                content: content@,
                unread,
                feed_id: feed_id@,
                pub_date,
            }),
    {
        Self { id, link, title, description, content, unread, feed_id, pub_date }
    }

    /// Whether the article is still unread.
    pub fn unread(&self) -> (r: bool)
        ensures
            r == (self@.unread == 1),
    {
        self.unread == 1
    }

    /// The line that shows the article in a list, beside the date text
    /// `date`: `N` marks an unread article.
    pub fn draw_dated(&self, date: &str) -> (r: String)
        ensures
            r@ == drawn(self@, date@),
    {
        let mut r = String::from_str(date);
        if self.unread() {
            r.append(" N ");
        } else {
            r.append("   ");
        }
        r.append(self.title.as_str());
        r
    }

    /// The line that shows the article in a list: its date in the time zone
    /// of this machine, the mark, and the title.
    pub fn draw(&self) -> (r: String)
        requires
            pub_date_in_range(self.pub_date),
        ensures
            exists|date: Seq<char>| r@ == drawn(self@, date),
    {
        let date = formatted_pub_date(self.pub_date);
        self.draw_dated(date.as_str())
    }
}

/// The line that shows the article `a` beside the date text `date`.
pub open spec fn drawn(a: ArticleView, date: Seq<char>) -> Seq<char> {
    date + (if a.unread == 1 {
        " N "@
    } else {
        "   "@
    }) + a.title
}

} // verus!
