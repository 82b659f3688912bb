//! A row of the tree of categories and feeds.

use vstd::prelude::*;
use crate::text::{push_signed_decimal, signed_decimal};

verus! {

/// A category or a feed with the number of its unread articles.
#[derive(Debug)]
pub struct TreeEntry {
    pub title: String,
    pub id: String,
    pub unread_count: Option<i64>,
}

/// What a row holds, as plain values.
pub struct TreeEntryView {
    pub title: Seq<char>,
    pub id: Seq<char>,
    pub unread_count: Option<i64>,
}

impl View for TreeEntry {
    type V = TreeEntryView;

    open spec fn view(&self) -> TreeEntryView {
        TreeEntryView { title: self.title@, id: self.id@, unread_count: self.unread_count }
    }
}

impl Default for TreeEntry {
    fn default() -> (r: Self)
        ensures
            r@ == (TreeEntryView { title: Seq::empty(), id: Seq::empty(), unread_count: None }),
    {
        TreeEntry { title: String::new(), id: String::new(), unread_count: None }
    }
}

impl Clone for TreeEntry {
    fn clone(&self) -> (r: Self)
        ensures
            r@ == self@,
    {
        TreeEntry {
            title: self.title.clone(),
            id: self.id.clone(),
            unread_count: self.unread_count,
        }
    }
}

/// What stands before the title of a row: the count in brackets and a
/// space, where there is a count and it is not 0.
pub open spec fn count_prefix(unread_count: Option<i64>) -> Seq<char> {
    match unread_count {
        Some(count) => if count == 0 {
            Seq::empty()
        } else {
            "("@ + signed_decimal(count as int) + ") "@
        },
        None => Seq::empty(),
    }
}

impl TreeEntry {
    /// The text that shows the row: the count, where there is one to show,
    /// and the title.
    pub fn label(&self) -> (r: String)
        ensures
            r@ == count_prefix(self@.unread_count) + self@.title,
    {
        let mut r = String::new();
        match self.unread_count {
            Some(count) => {
                if count != 0 {
                    r.append("(");
                    push_signed_decimal(&mut r, count);
                    r.append(") ");
                }
            },
            None => {},
        }
        r.append(self.title.as_str());
        r
    }

    /// Counts one unread article less, down to none.
    pub fn decrease_unread_count(&mut self)
        ensures
            final(self)@ == (TreeEntryView {
                unread_count: match old(self)@.unread_count {
                    Some(count) => if count > 0 {
                        Some((count - 1) as i64)
                    } else {
                        Some(count)
                    },
                    None => None,
                },
                ..old(self)@
            }),
    {
        match self.unread_count {
            Some(count) => {
                if count > 0 {
                    self.unread_count = Some(count - 1);
                }
            },
            None => {},
        }
    }

    /// Counts one unread article more.
    pub fn increase_unread_count(&mut self)
        requires
            old(self)@.unread_count is Some,
            old(self)@.unread_count.unwrap() < i64::MAX,
        ensures
            final(self)@ == (TreeEntryView {
                unread_count: Some((old(self)@.unread_count.unwrap() + 1) as i64),
                ..old(self)@
            }),
    {
        match self.unread_count {
            Some(count) => {
                self.unread_count = Some(count + 1);
            },
            None => {},
        }
    }
}

} // verus!
