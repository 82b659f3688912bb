//! A named group of feed links.

use vstd::prelude::*;
use crate::views::{lemma_views_push, views_of};

verus! {

/// A category with the links of its feeds.
#[derive(Debug)]
pub struct Category {
    pub title: String,
    pub feed_links: Vec<String>,
}

/// What a category holds, as plain values.
pub struct CategoryView {
    pub title: Seq<char>,
    pub feed_links: Seq<Seq<char>>,
}

impl View for Category {
    type V = CategoryView;

    open spec fn view(&self) -> CategoryView {
        CategoryView { title: self.title@, feed_links: views_of(self.feed_links@) }
    }
}

impl Default for Category {
    fn default() -> (r: Self)
        ensures
            r@ == (CategoryView { title: Seq::empty(), feed_links: Seq::empty() }),
    {
        let r = Category { title: String::new(), feed_links: Vec::new() };
        assert(r@.feed_links =~= Seq::empty());
        r
    }
}

impl Clone for Category {
    fn clone(&self) -> (r: Self)
        ensures
            r@ == self@,
    {
        Category { title: self.title.clone(), feed_links: self.feed_links() }
    }
}

impl Category {
    /// A category named `name` with the feed links `feed_links`.
    pub fn new(name: &str, feed_links: Vec<String>) -> (r: Self)
        ensures
            r@ == (CategoryView { title: name@, feed_links: views_of(feed_links@) }),
    {
        Self { title: String::from_str(name), feed_links }
    }

    /// The links of the feeds of this category, in order.
    pub fn feed_links(&self) -> (r: Vec<String>)
        ensures
            views_of(r@) == self@.feed_links,
    {
        let mut out: Vec<String> = Vec::new();
        let mut i: usize = 0;
        while i < self.feed_links.len()
            invariant
                i <= self.feed_links@.len(),
                views_of(out@) == self@.feed_links.take(i as int),
            decreases self.feed_links@.len() - i,
        {
            let link = self.feed_links[i].clone();
            proof {
                lemma_views_push(out@, link);
            }
            out.push(link);
            i += 1;
        }
        out
    }
}

} // verus!
