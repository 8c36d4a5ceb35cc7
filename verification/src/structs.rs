//! Data model: the Steam application catalog, news feed items, and the
//! user-facing lookup failures.

use vstd::prelude::*;
use vstd::string::StringExecFns;

verus! {

/// Envelope of the list-all-applications endpoint.
pub struct MainAppList {
    pub applist: AppList,
}

/// The application catalog carried by `MainAppList`.
pub struct AppList {
    pub apps: Vec<SteamApp>,
}

/// One catalog entry: a stable numeric id, a display name (names are not
/// unique), and a match score populated during a single resolution pass.
#[derive(Debug)]
pub struct SteamApp {
    pub appid: i32,
    pub name: String,
    pub search_score: i32,
}

impl Clone for SteamApp {
    fn clone(&self) -> (r: Self)
        ensures
            r == *self,
    {
        SteamApp { appid: self.appid, name: self.name.clone(), search_score: self.search_score }
    }
}

/// Envelope of the get-news-for-application endpoint.
pub struct MainAppNews {
    pub appnews: AppNews,
}

/// The news feed carried by `MainAppNews`.
pub struct AppNews {
    pub appid: i32,
    pub newsitems: Vec<NewsItems>,
    pub count: i32,
}

/// One news feed item; `date` is epoch seconds.
#[derive(Debug)]
pub struct NewsItems {
    pub gid: String,
    pub title: String,
    pub url: String,
    pub is_external_url: bool,
    pub author: String,
    pub contents: String,
    pub feedlabel: String,
    pub date: i64,
    pub feedname: String,
    pub feed_type: i32,
    pub appid: i32,
}

impl Clone for NewsItems {
    fn clone(&self) -> (r: Self)
        ensures
            r == *self,
    {
        NewsItems {
            gid: self.gid.clone(),
            title: self.title.clone(),
            url: self.url.clone(),
            is_external_url: self.is_external_url,
            author: self.author.clone(),
            contents: self.contents.clone(),
            feedlabel: self.feedlabel.clone(),
            date: self.date,
            feedname: self.feedname.clone(),
            feed_type: self.feed_type,
            appid: self.appid,
        }
    }
}

/// Failure carrying the query that matched no application.
#[derive(Debug)]
pub struct CouldNotFindApp {
    pub game: String,
}

impl CouldNotFindApp {
    /// The user-facing report, echoing the query back.
    pub fn message(&self) -> (r: String)
        ensures
            r@ == "Could not find game '"@ + self.game@ + "'"@,
    {
        let mut s = String::from_str("Could not find game '");
        s.append(self.game.as_str());
        s.append("'");
        s
    }
}

/// Failure raised when the required feed has no item.
#[derive(Debug)]
pub struct CouldNotFindNews {}

impl CouldNotFindNews {
    /// The user-facing report.
    pub fn message(&self) -> (r: String)
        ensures
            r@ == "Could not find news"@,
    {
        String::from_str("Could not find news")
    }
}

} // verus!
