use steam_news::funcs::{match_exactly, search_in, search_initial_text, search_partial_text};
use steam_news::structs::SteamApp;

fn app(appid: i32, name: &str) -> SteamApp {
    SteamApp { appid, name: String::from(name), search_score: 0 }
}

#[test]
fn match_exactly_case_insensitive() {
    let r = match_exactly(app(10, "Half-Life"), String::from("half-life"));
    assert!(r.is_some());
    assert_eq!(r.unwrap().appid, 10);
}

#[test]
fn match_exactly_rejects_substring() {
    let r = match_exactly(app(10, "Half-Life 2"), String::from("half-life"));
    assert!(r.is_none());
}

#[test]
fn search_initial_text_prefix_bonus() {
    let mut a = app(1, "Counter-Strike");
    search_initial_text(&mut a, String::from("counter"));
    assert_eq!(a.search_score, 10);
}

#[test]
fn search_initial_text_no_bonus_mid_name() {
    let mut a = app(1, "Counter-Strike");
    search_initial_text(&mut a, String::from("strike"));
    assert_eq!(a.search_score, 0);
}

#[test]
fn search_partial_text_same_rule() {
    let mut a = app(2, "Portal");
    search_partial_text(&mut a, String::from("PORT"));
    assert_eq!(a.search_score, 10);
    search_partial_text(&mut a, String::from("ortal"));
    assert_eq!(a.search_score, 10);
}

#[test]
fn search_in_returns_first_exact_match() {
    let mut apps = vec![app(10, "Half-Life 2"), app(20, "half-life"), app(30, "Half-Life")];
    let r = search_in(&mut apps, String::from("Half-Life"));
    assert!(r.is_some());
    assert_eq!(r.unwrap().appid, 20);
    // The entry before the exact match was scored (prefix bonus), the
    // entries from the match on were left untouched.
    assert_eq!(apps[0].search_score, 10);
    assert_eq!(apps[1].search_score, 0);
    assert_eq!(apps[2].search_score, 0);
}

#[test]
fn search_in_scores_all_without_exact_match() {
    let mut apps = vec![app(1, "Counter-Strike"), app(2, "Counter-Strike 2"), app(3, "Strike Force")];
    let r = search_in(&mut apps, String::from("counter"));
    assert!(r.is_none());
    assert_eq!(apps[0].search_score, 10);
    assert_eq!(apps[1].search_score, 10);
    assert_eq!(apps[2].search_score, 0);
}
