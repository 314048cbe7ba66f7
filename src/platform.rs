//! The platforms, their collections, and which passes a run makes on each.
use std::collections::HashSet;
use vstd::prelude::*;

use crate::engine::{Config, DeleteReply, Policy, RetentionPolicy};
use crate::protection::entries;

verus! {

/// A platform whose history is cleaned up.
#[derive(Clone, Copy, Debug, PartialEq, Eq, Structural)]
pub enum Platform {
    /// The decentralized-protocol network (AT Protocol).
    Bluesky,
    /// The federated microblogging network.
    Mastodon,
    /// The centralized graph API.
    Threads,
}

/// The name under which a platform's entries stand in the keep-list.
pub open spec fn platform_name(p: Platform) -> Seq<char> {
    match p {
        Platform::Bluesky => "bluesky"@,
        Platform::Mastodon => "mastodon"@,
        Platform::Threads => "threads"@,
    }
}

impl Platform {
    /// The name under which this platform's entries stand in the keep-list.
    pub fn name(&self) -> (r: &'static str)
        ensures
            r@ == platform_name(*self),
    {
        match self {
            Platform::Bluesky => "bluesky",
            Platform::Mastodon => "mastodon",
            Platform::Threads => "threads",
        }
    }
}

/// A collection of records on a platform, cleaned up by a pass of its own.
#[derive(Clone, Copy, Debug, PartialEq, Eq, Structural)]
pub enum Collection {
    /// Posts, and on platforms without a collection of their own, reposts.
    Posts,
    /// Reposts, where they are records of their own.
    Reposts,
    /// Likes or favourites.
    Likes,
}

/// The passes a run makes on a platform, in order: posts always; reposts
/// where they are a collection of their own and are to be deleted; likes
/// where the platform has them and they are to be deleted.
pub open spec fn passes_of(p: Platform, cfg: Config) -> Seq<Collection> {
    let reposts = if cfg.delete_reposts {
        seq![Collection::Reposts]
    } else {
        Seq::empty()
    };
    let likes = if cfg.delete_likes {
        seq![Collection::Likes]
    } else {
        Seq::empty()
    };
    match p {
        Platform::Bluesky => seq![Collection::Posts] + reposts + likes,
        Platform::Mastodon => seq![Collection::Posts] + likes,
        Platform::Threads => seq![Collection::Posts],
    }
}

/// The reply that an HTTP status of a deletion request stands for.
pub open spec fn reply_of_status(status: u16) -> DeleteReply {
    if 200 <= status && status <= 299 {
        DeleteReply::Deleted
    } else if status == 429 {
        DeleteReply::RateLimited
    } else {
        DeleteReply::Failed
    }
}

impl Platform {
    /// The passes a run makes on this platform, in order.
    pub fn passes(&self, cfg: &Config) -> (r: Vec<Collection>)
        ensures
            r@ == passes_of(*self, *cfg),
    {
        let mut r: Vec<Collection> = Vec::new();
        r.push(Collection::Posts);
        match self {
            Platform::Bluesky => {
                if cfg.delete_reposts {
                    r.push(Collection::Reposts);
                }
                if cfg.delete_likes {
                    r.push(Collection::Likes);
                }
            },
            Platform::Mastodon => {
                if cfg.delete_likes {
                    r.push(Collection::Likes);
                }
            },
            Platform::Threads => {},
        }
        assert(r@ =~= passes_of(*self, *cfg));
        r
    }

    /// Whether the run looks up the pinned record: only where the platform
    /// marks it in a profile, and only while pinned records are kept.
    pub fn needs_pinned_lookup(&self, cfg: &Config) -> (r: bool)
        ensures
            r == (*self == Platform::Bluesky && !cfg.delete_pinned),
    {
        *self == Platform::Bluesky && !cfg.delete_pinned
    }

    /// The pause after each deletion request, in milliseconds, that keeps a
    /// run under the platform's rate limits.
    pub fn delete_delay_ms(&self) -> (r: u64)
        ensures
            r == match *self {
                Platform::Bluesky => 100u64,
                Platform::Mastodon => 300u64,
                Platform::Threads => 200u64,
            },
    {
        match self {
            Platform::Bluesky => 100,
            Platform::Mastodon => 300,
            Platform::Threads => 200,
        }
    }

    /// The policy of the pass over `collection`: the pinned record found by
    /// the lookup counts for posts only.
    pub fn policy_for(
        &self,
        collection: Collection,
        cfg: Config,
        pinned: &Option<String>,
        keep: HashSet<String>,
    ) -> (r: RetentionPolicy)
        ensures
            r@ == (Policy {
                platform: *self,
                config: cfg,
                pinned: match (collection, pinned) {
                    (Collection::Posts, Some(p)) => Some(p@),
                    _ => None,
                },
                keep: entries(&keep),
            }),
    {
        let pinned = match (collection, pinned) {
            (Collection::Posts, Some(p)) => Some(p.clone()),
            _ => None,
        };
        RetentionPolicy { platform: *self, config: cfg, pinned, keep }
    }
}

/// The reply that the HTTP status of a deletion request stands for:
/// success, rate-limited (429), or another failure.
pub fn reply_for_status(status: u16) -> (r: DeleteReply)
    ensures
        r == reply_of_status(status),
{
    if 200 <= status && status <= 299 {
        DeleteReply::Deleted
    } else if status == 429 {
        DeleteReply::RateLimited
    } else {
        DeleteReply::Failed
    }
}

} // verus!
