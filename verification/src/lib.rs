//! Steam game-news resolution library.
//!
//! Resolves a free-text game name against the Steam application catalog,
//! ranks candidate matches, drives a bounded-time interactive selection,
//! and picks the community announcement out of a fetched news feed.

pub mod funcs;
pub mod handler;
pub mod matcher;
pub mod selection;
pub mod structs;
pub mod strutil;

use vstd::prelude::*;

verus! {

/// Consolidated error taxonomy shared by every stage of a news command.
#[derive(Clone, Copy, PartialEq, Eq, Structural, Debug)]
pub enum NewsError {
    /// The search text was empty.
    InvalidQuery,
    /// No application name contains the search text.
    NoSuchApplication,
    /// The chosen application has no community-announcement item.
    NoNewsFound,
    /// The news API could not be reached or decoded.
    UpstreamUnavailable,
}

} // verus!
