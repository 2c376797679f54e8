//! The news feed's records.
use vstd::prelude::*;

verus! {

/// One news post.
#[derive(Debug, Clone)]
pub struct NewsItem {
    pub title: String,
    pub link: String,
    pub description: String,
    pub guid: String,
    pub pub_date: String,
}

/// The feed's channel: its posts in order.
#[derive(Debug, Clone)]
pub struct Channel {
    pub item: Vec<NewsItem>,
}

/// The feed.
#[derive(Debug, Clone)]
pub struct Rss {
    pub channel: Channel,
}

impl Rss {
    /// The posts of the feed, in order.
    pub fn into_items(self) -> (r: Vec<NewsItem>)
        ensures
            r@ == self.channel.item@,
    {
        self.channel.item
    }
}

} // verus!
