use steam_news::handler::{
    conclude_selection, count_param, news_reply, plan_from_catalog, render_news, CommandPlan,
};
use steam_news::selection::SelectionOutcome;
use steam_news::structs::{CouldNotFindApp, CouldNotFindNews, NewsItems, SteamApp};
use steam_news::NewsError;

fn app(appid: i32, name: &str) -> SteamApp {
    SteamApp { appid, name: String::from(name), search_score: 0 }
}

fn item(feedname: &str, title: &str) -> NewsItems {
    NewsItems {
        gid: String::from("1"),
        title: String::from(title),
        url: String::from("https://example.invalid/news"),
        is_external_url: false,
        author: String::from("author"),
        contents: String::from("contents"),
        feedlabel: String::from("label"),
        date: 1_700_000_000,
        feedname: String::from(feedname),
        feed_type: 0,
        appid: 10,
    }
}

#[test]
fn plan_uses_exact_match_id() {
    let catalog = vec![app(10, "Half-Life"), app(20, "Half-Life 2")];
    let r = plan_from_catalog(&catalog, &String::from("half-life"), 0, 77, 5);
    match r {
        Ok(CommandPlan::FetchNews(id)) => assert_eq!(id, 10),
        _ => panic!("expected a direct news fetch"),
    }
}

#[test]
fn plan_presents_scoped_menu() {
    let catalog = vec![app(1, "Counter-Strike"), app(2, "Counter-Strike 2")];
    let r = plan_from_catalog(&catalog, &String::from("counter"), 1000, 77, 5);
    match r {
        Ok(CommandPlan::PresentMenu(req)) => {
            assert_eq!(req.issued_at, 1000);
            assert_eq!(req.requester, 77);
            assert_eq!(req.channel, 5);
            assert_eq!(req.candidates.len(), 2);
            assert_eq!(req.candidates[0].appid, 1);
            assert_eq!(req.candidates[1].appid, 2);
        },
        _ => panic!("expected a selection menu"),
    }
}

#[test]
fn plan_rejects_empty_query() {
    let catalog = vec![app(1, "Counter-Strike")];
    let r = plan_from_catalog(&catalog, &String::from(""), 0, 77, 5);
    assert!(matches!(r, Err(NewsError::InvalidQuery)));
}

#[test]
fn plan_reports_unknown_game() {
    let catalog = vec![app(1, "Counter-Strike")];
    let r = plan_from_catalog(&catalog, &String::from("doom"), 0, 77, 5);
    assert!(matches!(r, Err(NewsError::NoSuchApplication)));
}

#[test]
fn chosen_app_hands_its_id_on() {
    let r = conclude_selection(&SelectionOutcome::Chosen(app(42, "Portal")));
    assert_eq!(r, Some(42));
}

#[test]
fn timeout_and_cancel_abandon_silently() {
    assert_eq!(conclude_selection(&SelectionOutcome::TimedOut), None);
    assert_eq!(conclude_selection(&SelectionOutcome::Cancelled), None);
}

#[test]
fn no_announcement_feed_means_no_news() {
    let items = vec![item("steam_updates", "patch"), item("rss", "external post")];
    let r = news_reply(&items);
    assert!(matches!(r, Err(NewsError::NoNewsFound)));
}

#[test]
fn empty_feed_means_no_news() {
    let items: Vec<NewsItems> = Vec::new();
    let r = news_reply(&items);
    assert!(matches!(r, Err(NewsError::NoNewsFound)));
}

#[test]
fn first_announcement_is_surfaced() {
    let items = vec![
        item("steam_updates", "patch"),
        item("Steam_Community_Announcements", "first announcement"),
        item("steam_community_announcements", "second announcement"),
    ];
    let r = news_reply(&items).unwrap();
    assert_eq!(r.title, "first announcement");
}

#[test]
fn count_defaults_to_broad_window() {
    assert_eq!(count_param(None), "999");
    assert_eq!(count_param(Some(String::from("5"))), "5");
}

#[test]
fn rendered_news_lists_title_link_body() {
    let it = item("steam_community_announcements", "Big Update");
    let r = render_news(&it);
    assert_eq!(r, "Big Update\nhttps://example.invalid/news\ncontents");
}

#[test]
fn lookup_failures_report_to_the_user() {
    let e = CouldNotFindApp { game: String::from("doom") };
    assert_eq!(e.message(), "Could not find game 'doom'");
    let n = CouldNotFindNews {};
    assert_eq!(n.message(), "Could not find news");
}
