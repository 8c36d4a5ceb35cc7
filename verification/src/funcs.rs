//! Matching primitives: exact-name comparison and prefix scoring, exactly
//! one bonus applied per candidate per resolution pass.

use vstd::prelude::*;

use crate::strutil::{contains_seq, is_prefix, lower_of, lowercase, starts_with_chars, str_eq_chars};
use crate::structs::SteamApp;

verus! {

/// The application's name, case folded, equals the folded query `q`.
pub open spec fn is_exact(app: SteamApp, q: Seq<char>) -> bool {
    lower_of(app.name@) == q
}

/// The application's name, case folded, contains the folded query `q`.
pub open spec fn name_contains(app: SteamApp, q: Seq<char>) -> bool {
    contains_seq(lower_of(app.name@), q)
}

/// The prefix bonus: +10 when the folded query occurs at the start of the
/// folded name, nothing otherwise.
pub open spec fn prefix_bonus(app: SteamApp, q: Seq<char>) -> int {
    if is_prefix(q, lower_of(app.name@)) {
        10
    } else {
        0
    }
}

/// The application after one scoring pass against the folded query `q`.
pub open spec fn scored_once(app: SteamApp, q: Seq<char>) -> SteamApp {
    SteamApp {
        appid: app.appid,
        name: app.name,
        search_score: (app.search_score + prefix_bonus(app, q)) as i32,
    }
}

/// Some application among the first `n` of `apps` is an exact match for `q`.
pub open spec fn exact_within(apps: Seq<SteamApp>, q: Seq<char>, n: int) -> bool {
    exists|i: int| 0 <= i < n && is_exact(apps[i], q)
}

/// `k` is the position of the first exact match for `q` in `apps`.
pub open spec fn is_first_exact(apps: Seq<SteamApp>, q: Seq<char>, k: int) -> bool {
    &&& 0 <= k < apps.len()
    &&& is_exact(apps[k], q)
    &&& forall|j: int| 0 <= j < k ==> !is_exact(apps[j], q)
}

/// Returns the application when its name case-insensitively equals `text`.
pub fn match_exactly(app_searched: SteamApp, text: String) -> (r: Option<SteamApp>)
    ensures
        r == if is_exact(app_searched, lower_of(text@)) {
            Some(app_searched)
        } else {
            None::<SteamApp>
        },
{
    let lname = lowercase(app_searched.name.as_str());
    let ltext = lowercase(text.as_str());
    if str_eq_chars(lname.as_str(), ltext.as_str()) {
        Some(app_searched)
    } else {
        None
    }
}

/// Adds the prefix bonus to the application's match score: +10 when the
/// folded `text` occurs at position zero of the folded name.
pub fn search_initial_text(app_searched: &mut SteamApp, text: String)
    requires
        old(app_searched).search_score <= i32::MAX - 10,
    ensures
        *final(app_searched) == scored_once(*old(app_searched), lower_of(text@)),
{
    let lname = lowercase(app_searched.name.as_str());
    let ltext = lowercase(text.as_str());
    if starts_with_chars(lname.as_str(), ltext.as_str()) {
        app_searched.search_score = app_searched.search_score + 10;
    }
}

/// Adds the prefix bonus to the application's match score; same rule as
/// `search_initial_text`.
pub fn search_partial_text(apps_searched: &mut SteamApp, text: String)
    requires
        old(apps_searched).search_score <= i32::MAX - 10,
    ensures
        *final(apps_searched) == scored_once(*old(apps_searched), lower_of(text@)),
{
    let lname = lowercase(apps_searched.name.as_str());
    let ltext = lowercase(text.as_str());
    if starts_with_chars(lname.as_str(), ltext.as_str()) {
        apps_searched.search_score = apps_searched.search_score + 10;
    }
}

/// Walks the candidate list looking for an exact match for `text`. The walk
/// stops at the first exact match, which is returned unscored; every
/// candidate before it has received exactly one scoring pass. When no exact
/// match exists, every candidate is scored and `None` is returned.
pub fn search_in(apps_searched: &mut Vec<SteamApp>, text: String) -> (r: Option<SteamApp>)
    requires
        forall|i: int|
            0 <= i < old(apps_searched)@.len() ==> old(apps_searched)@[i].search_score <= i32::MAX
                - 10,
    ensures
        final(apps_searched)@.len() == old(apps_searched)@.len(),
        ({
            let q = lower_of(text@);
            let before = old(apps_searched)@;
            let after = final(apps_searched)@;
            if exact_within(before, q, before.len() as int) {
                exists|k: int|
                    {
                        &&& #[trigger] is_first_exact(before, q, k)
                        &&& r == Some(before[k])
                        &&& forall|i: int| 0 <= i < k ==> after[i] == scored_once(before[i], q)
                        &&& forall|i: int| k <= i < before.len() ==> after[i] == before[i]
                    }
            } else {
                &&& r is None
                &&& forall|i: int|
                    0 <= i < before.len() ==> after[i] == scored_once(before[i], q)
            }
        }),
{
    let ghost q = lower_of(text@);
    let ghost before = apps_searched@;
    let n = apps_searched.len();
    let mut i: usize = 0;
    while i < n
        invariant
            n == before.len(),
            apps_searched@.len() == n,
            before == old(apps_searched)@,
            q == lower_of(text@),
            i <= n,
            forall|j: int| 0 <= j < n ==> before[j].search_score <= i32::MAX - 10,
            forall|j: int| 0 <= j < i ==> !is_exact(before[j], q),
            forall|j: int| 0 <= j < i ==> apps_searched@[j] == scored_once(before[j], q),
            forall|j: int| i <= j < n ==> apps_searched@[j] == before[j],
        decreases n - i,
    {
        let app_matched = match_exactly(apps_searched[i].clone(), text.clone());
        if app_matched.is_some() {
            proof {
                assert(is_first_exact(before, q, i as int));
            }
            return app_matched;
        }
        proof {
            assert(apps_searched@[i as int] == before[i as int]);
        }
        search_initial_text(&mut apps_searched[i], text.clone());
        i = i + 1;
    }
    None
}

} // verus!
