use steam_news::matcher::{filter_catalog, resolve, ResolveOutcome, MENU_CAPACITY};
use steam_news::structs::SteamApp;
use steam_news::NewsError;

fn app(appid: i32, name: &str) -> SteamApp {
    SteamApp { appid, name: String::from(name), search_score: 0 }
}

#[test]
fn exact_match_short_circuits() {
    let catalog = vec![app(10, "Half-Life"), app(20, "Half-Life 2"), app(30, "Portal")];
    let r = resolve(&catalog, &String::from("Half-Life"));
    match r {
        Ok(ResolveOutcome::Exact(a)) => {
            assert_eq!(a.appid, 10);
            assert_eq!(a.name, "Half-Life");
        },
        _ => panic!("expected an exact match"),
    }
}

#[test]
fn exact_match_ignores_case() {
    let catalog = vec![app(70, "HALF-LIFE")];
    let r = resolve(&catalog, &String::from("half-life"));
    match r {
        Ok(ResolveOutcome::Exact(a)) => assert_eq!(a.appid, 70),
        _ => panic!("expected an exact match across case"),
    }
}

#[test]
fn prefix_matches_rank_in_filter_order() {
    let catalog = vec![app(1, "Counter-Strike"), app(2, "Counter-Strike 2")];
    let r = resolve(&catalog, &String::from("counter"));
    match r {
        Ok(ResolveOutcome::Candidates(v)) => {
            assert_eq!(v.len(), 2);
            assert_eq!(v[0].appid, 1);
            assert_eq!(v[0].search_score, 10);
            assert_eq!(v[1].appid, 2);
            assert_eq!(v[1].search_score, 10);
        },
        _ => panic!("expected a candidate menu"),
    }
}

#[test]
fn empty_query_is_invalid() {
    let catalog = vec![app(1, "Counter-Strike")];
    let r = resolve(&catalog, &String::from(""));
    assert!(matches!(r, Err(NewsError::InvalidQuery)));
}

#[test]
fn no_substring_match_fails() {
    let catalog = vec![app(10, "Half-Life"), app(30, "Portal")];
    let r = resolve(&catalog, &String::from("doom"));
    assert!(matches!(r, Err(NewsError::NoSuchApplication)));
}

#[test]
fn ranking_is_stable_and_prefix_first() {
    // Non-prefix and prefix matches interleaved; no exact match.
    let catalog = vec![
        app(1, "The Spelunker"),
        app(2, "Spelunker Deluxe"),
        app(3, "My Spelunker"),
        app(4, "Spelunker World"),
    ];
    let r = resolve(&catalog, &String::from("spelunker"));
    match r {
        Ok(ResolveOutcome::Candidates(v)) => {
            let ids: Vec<i32> = v.iter().map(|a| a.appid).collect();
            assert_eq!(ids, vec![2, 4, 1, 3]);
            assert_eq!(v[0].search_score, 10);
            assert_eq!(v[1].search_score, 10);
            assert_eq!(v[2].search_score, 0);
            assert_eq!(v[3].search_score, 0);
        },
        _ => panic!("expected a candidate menu"),
    }
}

#[test]
fn truncation_keeps_ten_highest() {
    // Twelve candidates: four prefix matches and eight others. The menu
    // holds the four prefix matches first, then the first six others,
    // each group in filter order.
    let mut catalog = Vec::new();
    for i in 0..8 {
        catalog.push(app(100 + i, &format!("Super Rogue {}", i)));
    }
    for i in 0..4 {
        catalog.push(app(200 + i, &format!("Rogue Quest {}", i)));
    }
    let r = resolve(&catalog, &String::from("rogue"));
    match r {
        Ok(ResolveOutcome::Candidates(v)) => {
            assert_eq!(v.len(), MENU_CAPACITY);
            let ids: Vec<i32> = v.iter().map(|a| a.appid).collect();
            assert_eq!(ids, vec![200, 201, 202, 203, 100, 101, 102, 103, 104, 105]);
        },
        _ => panic!("expected a candidate menu"),
    }
}

#[test]
fn filter_keeps_duplicate_names_as_distinct_candidates() {
    let catalog = vec![app(1, "Portal"), app(2, "Portal"), app(3, "Doom")];
    let cands = filter_catalog(&catalog, &String::from("porta"));
    assert_eq!(cands.len(), 2);
    assert_eq!(cands[0].appid, 1);
    assert_eq!(cands[1].appid, 2);
}

#[test]
fn filter_is_case_insensitive_both_ways() {
    let catalog = vec![app(1, "HALF-LIFE"), app(2, "gordon")];
    let cands = filter_catalog(&catalog, &String::from("Half"));
    assert_eq!(cands.len(), 1);
    assert_eq!(cands[0].appid, 1);
}
