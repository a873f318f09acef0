//! Tracking status of directory entries against a repository that uses the
//! home directory as its work-tree.
//!
//! The tracked paths of the repository are collapsed into counts per
//! top-level entry ([`aggregate`]), and every entry of a directory listing
//! is then classified against those counts ([`report`]).

pub mod aggregate;
pub mod command;
pub mod counts;
pub mod decimal;
pub mod listing;
pub mod path_key;
pub mod report;
pub mod text;

pub use aggregate::count_tracked_files;
pub use command::{directory_listing_command, tracked_listing_command, GIT_DIR_NAME};
pub use counts::TrackedCounts;
pub use listing::{lines_of, parse_listing, ListingError};
pub use report::{
    report_dir_with_tracked_files, report_dir_without_tracked_files, report_entry,
    report_tracked_file, report_tracking_status, report_untracked_file, CountFault,
};
