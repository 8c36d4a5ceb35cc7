//! The news command orchestration: decide what to do after the catalog
//! arrives, conclude an interactive selection, pick the community
//! announcement out of a fetched feed, and render the reply.

use vstd::prelude::*;
use vstd::string::StringExecFns;

use crate::funcs::{exact_within, is_first_exact};
use crate::matcher::{
    candidates_of, lemma_ranked_len, menu_of, resolve, ResolveOutcome,
};
use crate::selection::{SelectionOutcome, SelectionRequest};
use crate::structs::{NewsItems, SteamApp};
use crate::strutil::{lower_of, lowercase, str_eq_chars};
use crate::NewsError;

verus! {

/// What the command does next once the catalog is in hand: fetch news for
/// one resolved application, or present a menu and await a selection.
pub enum CommandPlan {
    FetchNews(i32),
    PresentMenu(SelectionRequest),
}

/// Decides the step that follows the catalog fetch: resolve the query, use
/// an exact match's id at once, or wrap the ranked menu in a selection
/// request scoped to the requester and channel, issued at `now`.
pub fn plan_from_catalog(
    catalog: &Vec<SteamApp>,
    query: &String,
    now: u64,
    requester: u64,
    channel: u64,
) -> (r: Result<CommandPlan, NewsError>)
    requires
        now + 180 <= u64::MAX,
    ensures
        query@.len() == 0 ==> r == Err::<CommandPlan, NewsError>(NewsError::InvalidQuery),
        query@.len() > 0 ==> ({
            let q = lower_of(query@);
            let cands = candidates_of(catalog@, q);
            &&& (cands.len() == 0 ==> r == Err::<CommandPlan, NewsError>(
                NewsError::NoSuchApplication,
            ))
            &&& (exact_within(cands, q, cands.len() as int) ==> exists|k: int|
                {
                    &&& #[trigger] is_first_exact(cands, q, k)
                    &&& r == Ok::<CommandPlan, NewsError>(CommandPlan::FetchNews(cands[k].appid))
                })
            &&& (cands.len() > 0 && !exact_within(cands, q, cands.len() as int) ==> (r matches Ok(
                CommandPlan::PresentMenu(req),
            ) && req.wf() && req.candidates@ == menu_of(cands, q) && req.issued_at == now
                && req.requester == requester && req.channel == channel))
        }),
{
    match resolve(catalog, query) {
        Err(e) => Err(e),
        Ok(ResolveOutcome::Exact(app)) => Ok(CommandPlan::FetchNews(app.appid)),
        Ok(ResolveOutcome::Candidates(menu)) => {
            proof {
                let q = lower_of(query@);
                let cands = candidates_of(catalog@, q);
                lemma_ranked_len(cands, q);
            }
            Ok(
                CommandPlan::PresentMenu(SelectionRequest::new(menu, now, requester, channel)),
            )
        },
    }
}

/// Concludes a resolved selection: a chosen application hands its id on;
/// cancellation and timeout abandon the flow with nothing to report.
pub fn conclude_selection(outcome: &SelectionOutcome) -> (r: Option<i32>)
    ensures
        r == match *outcome {
            SelectionOutcome::Chosen(app) => Some(app.appid),
            SelectionOutcome::Cancelled => None::<i32>,
            SelectionOutcome::TimedOut => None::<i32>,
        },
{
    match outcome {
        SelectionOutcome::Chosen(app) => Some(app.appid),
        SelectionOutcome::Cancelled => None,
        SelectionOutcome::TimedOut => None,
    }
}

/// The item sits on the community-announcement feed: its feed name, case
/// folded, is exactly `steam_community_announcements`.
pub open spec fn is_announcement(item: NewsItems) -> bool {
    lower_of(item.feedname@) == "steam_community_announcements"@
}

/// Some item among the first `n` is a community announcement.
pub open spec fn announcement_within(items: Seq<NewsItems>, n: int) -> bool {
    exists|i: int| 0 <= i < n && is_announcement(items[i])
}

/// `k` is the position of the first community announcement.
pub open spec fn is_first_announcement(items: Seq<NewsItems>, k: int) -> bool {
    &&& 0 <= k < items.len()
    &&& is_announcement(items[k])
    &&& forall|j: int| 0 <= j < k ==> !is_announcement(items[j])
}

/// Picks the news item to surface: the first item of the fetched feed whose
/// feed name case-insensitively equals `steam_community_announcements`;
/// when no such item came back, the lookup failed.
pub fn news_reply(items: &Vec<NewsItems>) -> (r: Result<NewsItems, NewsError>)
    ensures
        announcement_within(items@, items@.len() as int) ==> exists|k: int|
            {
                &&& #[trigger] is_first_announcement(items@, k)
                &&& r == Ok::<NewsItems, NewsError>(items@[k])
            },
        !announcement_within(items@, items@.len() as int) ==> r == Err::<NewsItems, NewsError>(
            NewsError::NoNewsFound,
        ),
{
    let n = items.len();
    let mut i: usize = 0;
    while i < n
        invariant
            n == items@.len(),
            i <= n,
            forall|j: int| 0 <= j < i ==> !is_announcement(items@[j]),
        decreases n - i,
    {
        let lname = lowercase(items[i].feedname.as_str());
        if str_eq_chars(lname.as_str(), "steam_community_announcements") {
            proof {
                assert(is_first_announcement(items@, i as int));
            }
            return Ok(items[i].clone());
        }
        i = i + 1;
    }
    Err(NewsError::NoNewsFound)
}

/// The news window requested from the feed: the given quantity, or the
/// broad default of 999 items when absent.
pub fn count_param(quantity: Option<String>) -> (r: String)
    ensures
        r@ == match quantity {
            Some(s) => s@,
            None => "999"@,
        },
{
    match quantity {
        Some(s) => s,
        None => String::from_str("999"),
    }
}

/// Renders the surfaced announcement: title, link and body, one per line.
pub fn render_news(item: &NewsItems) -> (r: String)
    ensures
        r@ == item.title@ + "\n"@ + item.url@ + "\n"@ + item.contents@,
{
    let mut s = item.title.clone();
    s.append("\n");
    s.append(item.url.as_str());
    s.append("\n");
    s.append(item.contents.as_str());
    s
}

} // verus!
