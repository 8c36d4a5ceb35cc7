//! The application matcher: substring filter, exact-match short circuit,
//! prefix scoring, stable descending rank and menu truncation.

use vstd::prelude::*;

use crate::funcs::{exact_within, is_exact, is_first_exact, name_contains};
use crate::strutil::{
    contains_chars, is_prefix, lower_of, lowercase, occurs_at, starts_with_chars, str_eq_chars,
};
use crate::structs::SteamApp;
use crate::NewsError;

verus! {

/// An interactive menu holds at most this many entries.
pub const MENU_CAPACITY: usize = 10;

/// What a resolution pass yields short of an error: either one
/// unambiguous application, or a ranked menu of candidates.
pub enum ResolveOutcome {
    Exact(SteamApp),
    Candidates(Vec<SteamApp>),
}

/// The substring filter for the folded query `q`.
pub open spec fn contains_pred(q: Seq<char>) -> spec_fn(SteamApp) -> bool {
    |a: SteamApp| name_contains(a, q)
}

/// Candidates whose folded name has the folded query as a prefix.
pub open spec fn prefix_pred(q: Seq<char>) -> spec_fn(SteamApp) -> bool {
    |a: SteamApp| is_prefix(q, lower_of(a.name@))
}

/// The complement of `prefix_pred`.
pub open spec fn non_prefix_pred(q: Seq<char>) -> spec_fn(SteamApp) -> bool {
    |a: SteamApp| !is_prefix(q, lower_of(a.name@))
}

/// The candidate with its score computed for this pass: 10 for a prefix
/// match, 0 otherwise.
pub open spec fn rank_score(app: SteamApp, q: Seq<char>) -> SteamApp {
    SteamApp {
        appid: app.appid,
        name: app.name,
        search_score: if is_prefix(q, lower_of(app.name@)) {
            10
        } else {
            0
        },
    }
}

/// `rank_score` as a mapping function.
pub open spec fn rank_fn(q: Seq<char>) -> spec_fn(SteamApp) -> SteamApp {
    |a: SteamApp| rank_score(a, q)
}

/// The candidate set: catalog entries whose folded name contains the
/// folded query, in catalog order.
pub open spec fn candidates_of(catalog: Seq<SteamApp>, q: Seq<char>) -> Seq<SteamApp> {
    catalog.filter(contains_pred(q))
}

/// The candidates scored and stably sorted by score descending: prefix
/// matches first in candidate order, then the rest in candidate order.
pub open spec fn ranked_of(cands: Seq<SteamApp>, q: Seq<char>) -> Seq<SteamApp> {
    let scored = cands.map_values(rank_fn(q));
    scored.filter(prefix_pred(q)) + scored.filter(non_prefix_pred(q))
}

/// The ranked candidates truncated to the menu capacity.
pub open spec fn menu_of(cands: Seq<SteamApp>, q: Seq<char>) -> Seq<SteamApp> {
    let ranked = ranked_of(cands, q);
    if ranked.len() <= 10 {
        ranked
    } else {
        ranked.take(10)
    }
}

/// Every element of a filtered sequence is an element of the original.
pub proof fn lemma_filter_element_of<A>(s: Seq<A>, pred: spec_fn(A) -> bool, i: int)
    requires
        0 <= i < s.filter(pred).len(),
    ensures
        s.contains(s.filter(pred)[i]),
    decreases s.len(),
{
    reveal(Seq::filter);
    if s.len() > 0 {
        let sub = s.drop_last().filter(pred);
        if i < sub.len() {
            lemma_filter_element_of(s.drop_last(), pred, i);
            let x = sub[i];
            let j = choose|j: int| 0 <= j < s.drop_last().len() && s.drop_last()[j] == x;
            assert(s[j] == x);
        } else {
            assert(s.filter(pred)[i] == s.last());
        }
    }
}

/// Filtering by a predicate that holds of every element keeps the sequence.
pub proof fn lemma_filter_all_true<A>(s: Seq<A>, pred: spec_fn(A) -> bool)
    requires
        forall|i: int| 0 <= i < s.len() ==> pred(s[i]),
    ensures
        s.filter(pred) == s,
    decreases s.len(),
{
    reveal(Seq::filter);
    if s.len() > 0 {
        lemma_filter_all_true(s.drop_last(), pred);
        assert(s.filter(pred) =~= s);
    }
}

/// Filtering by a predicate that holds of no element empties the sequence.
pub proof fn lemma_filter_all_false<A>(s: Seq<A>, pred: spec_fn(A) -> bool)
    requires
        forall|i: int| 0 <= i < s.len() ==> !pred(s[i]),
    ensures
        s.filter(pred) == Seq::<A>::empty(),
    decreases s.len(),
{
    reveal(Seq::filter);
    if s.len() > 0 {
        lemma_filter_all_false(s.drop_last(), pred);
    }
}

/// Two predicates that agree on every element filter a sequence alike.
pub proof fn lemma_filter_congruence<A>(s: Seq<A>, p1: spec_fn(A) -> bool, p2: spec_fn(A) -> bool)
    requires
        forall|i: int| 0 <= i < s.len() ==> (p1(s[i]) <==> p2(s[i])),
    ensures
        s.filter(p1) == s.filter(p2),
    decreases s.len(),
{
    reveal(Seq::filter);
    if s.len() > 0 {
        lemma_filter_congruence(s.drop_last(), p1, p2);
    }
}

/// Filters the catalog to the candidate set for `query`: the entries whose
/// name case-insensitively contains the query, in catalog order.
pub fn filter_catalog(catalog: &Vec<SteamApp>, query: &String) -> (r: Vec<SteamApp>)
    ensures
        r@ == candidates_of(catalog@, lower_of(query@)),
{
    let ghost q = lower_of(query@);
    let lquery = lowercase(query.as_str());
    let n = catalog.len();
    let mut cands: Vec<SteamApp> = Vec::new();
    let mut i: usize = 0;
    while i < n
        invariant
            n == catalog@.len(),
            i <= n,
            q == lquery@,
            cands@ == catalog@.take(i as int).filter(contains_pred(q)),
        decreases n - i,
    {
        let lname = lowercase(catalog[i].name.as_str());
        proof {
            reveal(Seq::filter);
            assert(catalog@.take(i + 1).drop_last() =~= catalog@.take(i as int));
            assert(catalog@.take(i + 1).last() == catalog@[i as int]);
        }
        if contains_chars(lname.as_str(), lquery.as_str()) {
            cands.push(catalog[i].clone());
        }
        i = i + 1;
    }
    proof {
        assert(catalog@.take(n as int) =~= catalog@);
    }
    cands
}

/// Resolves a free-text query against the catalog: an empty query is
/// invalid; a query matching no name fails; the first case-insensitive
/// exact match short-circuits; otherwise the scored, stably ranked and
/// truncated candidate menu is returned.
pub fn resolve(catalog: &Vec<SteamApp>, query: &String) -> (r: Result<ResolveOutcome, NewsError>)
    ensures
        query@.len() == 0 ==> r == Err::<ResolveOutcome, NewsError>(NewsError::InvalidQuery),
        query@.len() > 0 ==> ({
            let q = lower_of(query@);
            let cands = candidates_of(catalog@, q);
            &&& (cands.len() == 0 ==> r == Err::<ResolveOutcome, NewsError>(
                NewsError::NoSuchApplication,
            ))
            &&& (exact_within(cands, q, cands.len() as int) ==> exists|k: int|
                {
                    &&& #[trigger] is_first_exact(cands, q, k)
                    &&& r == Ok::<ResolveOutcome, NewsError>(ResolveOutcome::Exact(cands[k]))
                })
            &&& (cands.len() > 0 && !exact_within(cands, q, cands.len() as int) ==> (r matches Ok(
                ResolveOutcome::Candidates(v),
            ) && v@ == menu_of(cands, q)))
        }),
{
    if query.as_str().unicode_len() == 0 {
        return Err(NewsError::InvalidQuery);
    }
    let ghost q = lower_of(query@);
    let lquery = lowercase(query.as_str());
    let cands = filter_catalog(catalog, query);

    if cands.len() == 0 {
        return Err(NewsError::NoSuchApplication);
    }

    let m = cands.len();
    let mut j: usize = 0;
    while j < m
        invariant
            m == cands@.len(),
            1 <= m,
            j <= m,
            q == lquery@,
            q == lower_of(query@),
            query@.len() > 0,
            cands@ == candidates_of(catalog@, q),
            forall|k: int| 0 <= k < j ==> !is_exact(cands@[k], q),
        decreases m - j,
    {
        let lname = lowercase(cands[j].name.as_str());
        if str_eq_chars(lname.as_str(), lquery.as_str()) {
            proof {
                assert(is_first_exact(cands@, q, j as int));
            }
            return Ok(ResolveOutcome::Exact(cands[j].clone()));
        }
        j = j + 1;
    }

    let mut top: Vec<SteamApp> = Vec::new();
    let mut rest: Vec<SteamApp> = Vec::new();
    let mut k: usize = 0;
    while k < m
        invariant
            m == cands@.len(),
            k <= m,
            q == lquery@,
            top@ == cands@.take(k as int).map_values(rank_fn(q)).filter(prefix_pred(q)),
            rest@ == cands@.take(k as int).map_values(rank_fn(q)).filter(non_prefix_pred(q)),
        decreases m - k,
    {
        let lname = lowercase(cands[k].name.as_str());
        let is_top = starts_with_chars(lname.as_str(), lquery.as_str());
        let scored_app = SteamApp {
            appid: cands[k].appid,
            name: cands[k].name.clone(),
            search_score: if is_top {
                10
            } else {
                0
            },
        };
        proof {
            reveal(Seq::filter);
            let sc_next = cands@.take(k + 1).map_values(rank_fn(q));
            assert(sc_next.drop_last() =~= cands@.take(k as int).map_values(rank_fn(q)));
            assert(sc_next.last() == rank_score(cands@[k as int], q));
            assert(scored_app == rank_score(cands@[k as int], q));
        }
        if is_top {
            top.push(scored_app);
        } else {
            rest.push(scored_app);
        }
        k = k + 1;
    }
    proof {
        assert(cands@.take(m as int) =~= cands@);
    }
    top.append(&mut rest);
    if top.len() > MENU_CAPACITY {
        top.truncate(MENU_CAPACITY);
    }
    Ok(ResolveOutcome::Candidates(top))
}

/// Complementary filters split a sequence's length.
pub proof fn lemma_filter_complement_len<A>(
    s: Seq<A>,
    p: spec_fn(A) -> bool,
    np: spec_fn(A) -> bool,
)
    requires
        forall|i: int| 0 <= i < s.len() ==> (np(s[i]) <==> !p(s[i])),
    ensures
        s.filter(p).len() + s.filter(np).len() == s.len(),
    decreases s.len(),
{
    reveal(Seq::filter);
    if s.len() > 0 {
        lemma_filter_complement_len(s.drop_last(), p, np);
    }
}

/// Ranking reorders the candidates without adding or dropping any.
pub proof fn lemma_ranked_len(cands: Seq<SteamApp>, q: Seq<char>)
    ensures
        ranked_of(cands, q).len() == cands.len(),
{
    let scored = cands.map_values(rank_fn(q));
    lemma_filter_complement_len(scored, prefix_pred(q), non_prefix_pred(q));
}

/// Candidates of a given score, as a selector.
pub open spec fn score_pred(v: int) -> spec_fn(SteamApp) -> bool {
    |a: SteamApp| a.search_score == v
}

/// An exact match always survives the substring filter.
pub proof fn lemma_exact_is_candidate(app: SteamApp, q: Seq<char>)
    requires
        is_exact(app, q),
    ensures
        name_contains(app, q),
{
    let h = lower_of(app.name@);
    assert(h.subrange(0, h.len() as int) =~= h);
    assert(occurs_at(h, q, 0));
}

/// When exactly one application in the catalog is an exact match for the
/// folded query, the candidate set holds an exact match and its first exact
/// match is that application: resolution returns it as the exact match.
pub proof fn lemma_unique_exact(catalog: Seq<SteamApp>, q: Seq<char>, e: int)
    requires
        0 <= e < catalog.len(),
        is_exact(catalog[e], q),
        forall|i: int| 0 <= i < catalog.len() && i != e ==> !is_exact(catalog[i], q),
    ensures
        ({
            let cands = candidates_of(catalog, q);
            &&& exact_within(cands, q, cands.len() as int)
            &&& forall|k: int| #[trigger] is_first_exact(cands, q, k) ==> cands[k] == catalog[e]
        }),
{
    let cands = candidates_of(catalog, q);
    lemma_exact_is_candidate(catalog[e], q);
    assert(contains_pred(q)(catalog[e]));
    catalog.lemma_filter_contains(contains_pred(q), e);
    let w = choose|w: int| 0 <= w < cands.len() && cands[w] == catalog[e];
    assert(is_exact(cands[w], q));
    assert(exact_within(cands, q, cands.len() as int));
    assert forall|k: int| #[trigger] is_first_exact(cands, q, k) implies cands[k] == catalog[e] by {
        lemma_filter_element_of(catalog, contains_pred(q), k);
        let i = choose|i: int| 0 <= i < catalog.len() && catalog[i] == cands[k];
        assert(is_exact(catalog[i], q));
    }
}

/// A query that no catalog name contains yields an empty candidate set:
/// resolution signals that no such application exists.
pub proof fn lemma_no_substring_match(catalog: Seq<SteamApp>, q: Seq<char>)
    requires
        forall|i: int| 0 <= i < catalog.len() ==> !name_contains(catalog[i], q),
    ensures
        candidates_of(catalog, q).len() == 0,
{
    assert(forall|i: int|
        0 <= i < catalog.len() ==> !#[trigger] contains_pred(q)(catalog[i]));
    lemma_filter_all_false(catalog, contains_pred(q));
}

/// Every scored candidate carries score 10 exactly when its folded name has
/// the folded query as a prefix, and score 0 otherwise.
proof fn lemma_scored_shape(cands: Seq<SteamApp>, q: Seq<char>)
    ensures
        ({
            let scored = cands.map_values(rank_fn(q));
            &&& scored.len() == cands.len()
            &&& forall|i: int|
                0 <= i < scored.len() ==> ((#[trigger] scored[i]).search_score == 10 <==> prefix_pred(
                    q,
                )(scored[i]))
            &&& forall|i: int|
                0 <= i < scored.len() ==> ((#[trigger] scored[i]).search_score == 10 || scored[i].search_score
                    == 0)
        }),
{
}

/// Every element of the top half of the rank has score 10; every element of
/// the bottom half has score 0.
proof fn lemma_rank_halves(cands: Seq<SteamApp>, q: Seq<char>)
    ensures
        ({
            let scored = cands.map_values(rank_fn(q));
            let a = scored.filter(prefix_pred(q));
            let b = scored.filter(non_prefix_pred(q));
            &&& forall|i: int| 0 <= i < a.len() ==> (#[trigger] a[i]).search_score == 10
            &&& forall|i: int| 0 <= i < b.len() ==> (#[trigger] b[i]).search_score == 0
        }),
{
    let scored = cands.map_values(rank_fn(q));
    let a = scored.filter(prefix_pred(q));
    let b = scored.filter(non_prefix_pred(q));
    lemma_scored_shape(cands, q);
    assert forall|i: int| 0 <= i < a.len() implies (#[trigger] a[i]).search_score == 10 by {
        lemma_filter_element_of(scored, prefix_pred(q), i);
        scored.lemma_filter_pred(prefix_pred(q), i);
        let j = choose|j: int| 0 <= j < scored.len() && scored[j] == a[i];
    }
    assert forall|i: int| 0 <= i < b.len() implies (#[trigger] b[i]).search_score == 0 by {
        lemma_filter_element_of(scored, non_prefix_pred(q), i);
        scored.lemma_filter_pred(non_prefix_pred(q), i);
        let j = choose|j: int| 0 <= j < scored.len() && scored[j] == b[i];
    }
}

/// Ranking is stable: for any score value, the subsequence of the ranked
/// candidates carrying that score equals the subsequence of the scored,
/// pre-sort candidates carrying it, so candidates of equal score keep
/// their relative order from the filtered sequence.
pub proof fn lemma_rank_stable(cands: Seq<SteamApp>, q: Seq<char>, v: int)
    ensures
        ({
            let scored = cands.map_values(rank_fn(q));
            ranked_of(cands, q).filter(score_pred(v)) == scored.filter(score_pred(v))
        }),
{
    let scored = cands.map_values(rank_fn(q));
    let a = scored.filter(prefix_pred(q));
    let b = scored.filter(non_prefix_pred(q));
    Seq::filter_distributes_over_add(a, b, score_pred(v));
    lemma_scored_shape(cands, q);
    lemma_rank_halves(cands, q);
    if v == 10 {
        lemma_filter_all_true(a, score_pred(10));
        lemma_filter_all_false(b, score_pred(10));
        lemma_filter_congruence(scored, score_pred(10), prefix_pred(q));
        assert(a + Seq::<SteamApp>::empty() =~= a);
    } else if v == 0 {
        lemma_filter_all_false(a, score_pred(0));
        lemma_filter_all_true(b, score_pred(0));
        lemma_filter_congruence(scored, score_pred(0), non_prefix_pred(q));
        assert(Seq::<SteamApp>::empty() + b =~= b);
    } else {
        lemma_filter_all_false(a, score_pred(v));
        lemma_filter_all_false(b, score_pred(v));
        lemma_filter_all_false(scored, score_pred(v));
        assert(Seq::<SteamApp>::empty() + Seq::<SteamApp>::empty() =~= Seq::<SteamApp>::empty());
    }
}

/// The menu never exceeds ten entries, is a prefix of the ranked sequence,
/// the ranked sequence is sorted by score descending, and every retained
/// entry scores at least as high as every entry the truncation dropped.
pub proof fn lemma_menu_truncation(cands: Seq<SteamApp>, q: Seq<char>)
    ensures
        ({
            let ranked = ranked_of(cands, q);
            let menu = menu_of(cands, q);
            &&& menu.len() <= 10
            &&& menu.len() == if ranked.len() <= 10 {
                ranked.len() as int
            } else {
                10
            }
            &&& forall|i: int| 0 <= i < menu.len() ==> menu[i] == ranked[i]
            &&& forall|i: int, j: int|
                0 <= i < j < ranked.len() ==> ranked[i].search_score >= ranked[j].search_score
            &&& forall|i: int, j: int|
                0 <= i < menu.len() && menu.len() <= j < ranked.len() ==> menu[i].search_score
                    >= ranked[j].search_score
        }),
{
    let scored = cands.map_values(rank_fn(q));
    let a = scored.filter(prefix_pred(q));
    let b = scored.filter(non_prefix_pred(q));
    let ranked = ranked_of(cands, q);
    lemma_rank_halves(cands, q);
    assert forall|i: int, j: int|
        0 <= i < j < ranked.len() implies ranked[i].search_score >= ranked[j].search_score by {
        if i < a.len() {
            assert(ranked[i] == a[i]);
        } else {
            assert(ranked[i] == b[i - a.len()]);
        }
        if j < a.len() {
            assert(ranked[j] == a[j]);
        } else {
            assert(ranked[j] == b[j - a.len()]);
        }
    }
}

} // verus!
