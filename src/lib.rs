//! Retention-based cleanup of social-media history.
//!
//! The engine (`engine`) decides, record by record, what a pass over a
//! collection deletes: records older than a cutoff, except reposts and the
//! pinned record where those are kept, and whatever the keep-list
//! (`protection`) protects. A pass is a state machine that its owner feeds
//! with pages and deletion replies; `laws` proves what every pass obeys.
pub mod engine;
pub mod laws;
pub mod link;
pub mod platform;
pub mod protection;
pub mod text;
pub mod timestamp;

pub use engine::{
    key_of, Action, Config, DeleteReply, DeletionOutcome, Page, Pass, Phase, Record,
    RetentionPolicy, Verdict,
};
pub use link::{last_id_cursor, parse_max_id_from_link};
pub use platform::{reply_for_status, Collection, Platform};
pub use protection::{is_protected, load_keep_list};
pub use timestamp::{parse_timestamp, Instant, Timestamp, TimestampError};
