use skyscraper::{reply_for_status, Collection, Config, DeleteReply, Instant, Platform};

fn config(delete_reposts: bool, delete_likes: bool, delete_pinned: bool) -> Config {
    Config {
        cutoff: Instant { secs: 0, nanos: 0 },
        dry_run: false,
        delete_pinned,
        delete_reposts,
        delete_likes,
    }
}

#[test]
fn bluesky_passes_follow_flags() {
    let p = Platform::Bluesky;
    assert_eq!(
        p.passes(&config(true, true, false)),
        vec![Collection::Posts, Collection::Reposts, Collection::Likes]
    );
    assert_eq!(p.passes(&config(false, false, false)), vec![Collection::Posts]);
    assert_eq!(p.passes(&config(false, true, false)), vec![Collection::Posts, Collection::Likes]);
}

#[test]
fn mastodon_and_threads_passes() {
    assert_eq!(
        Platform::Mastodon.passes(&config(true, true, false)),
        vec![Collection::Posts, Collection::Likes]
    );
    assert_eq!(Platform::Mastodon.passes(&config(true, false, false)), vec![Collection::Posts]);
    assert_eq!(Platform::Threads.passes(&config(true, true, false)), vec![Collection::Posts]);
}

#[test]
fn pinned_lookup_only_when_pinned_kept() {
    assert!(Platform::Bluesky.needs_pinned_lookup(&config(true, true, false)));
    assert!(!Platform::Bluesky.needs_pinned_lookup(&config(true, true, true)));
    assert!(!Platform::Mastodon.needs_pinned_lookup(&config(true, true, false)));
    assert!(!Platform::Threads.needs_pinned_lookup(&config(true, true, false)));
}

#[test]
fn platform_names_and_delays() {
    assert_eq!(Platform::Bluesky.name(), "bluesky");
    assert_eq!(Platform::Mastodon.name(), "mastodon");
    assert_eq!(Platform::Threads.name(), "threads");
    assert_eq!(Platform::Bluesky.delete_delay_ms(), 100);
    assert_eq!(Platform::Mastodon.delete_delay_ms(), 300);
    assert_eq!(Platform::Threads.delete_delay_ms(), 200);
}

#[test]
fn delete_status_replies() {
    assert_eq!(reply_for_status(200), DeleteReply::Deleted);
    assert_eq!(reply_for_status(204), DeleteReply::Deleted);
    assert_eq!(reply_for_status(429), DeleteReply::RateLimited);
    assert_eq!(reply_for_status(404), DeleteReply::Failed);
    assert_eq!(reply_for_status(500), DeleteReply::Failed);
}

#[test]
fn pinned_counts_for_posts_only() {
    let pinned = Some("at://x/app.bsky.feed.post/p".to_string());
    let keep = std::collections::HashSet::new();
    let posts = Platform::Bluesky.policy_for(Collection::Posts, config(true, true, false), &pinned, keep.clone());
    assert_eq!(posts.pinned, pinned);
    let likes = Platform::Bluesky.policy_for(Collection::Likes, config(true, true, false), &pinned, keep);
    assert_eq!(likes.pinned, None);
}
