//! The rules of the Doyo task manager, verified: the hierarchy and its
//! properties, undo, focus timers, habits, countdowns, time blocks, tags,
//! saved filters, JSON and Markdown transfer, backups and startup recovery.

/// What the activity log records.
pub mod activity;
/// Where attachment files go.
pub mod attachment;
/// Which backups to keep, and whether a file may replace the live database.
pub mod backup;
/// Countdowns to and from a date.
pub mod countdown;
/// The schema's history.
pub mod db;
/// The library's failures.
pub mod error;
/// The transfer document and the Markdown files an export writes.
pub mod export;
/// Focus timers.
pub mod focus;
/// Habits, their logs, streaks and summaries.
pub mod habit;
/// Fresh identifiers.
pub mod ids;
/// Reading a transfer document back.
pub mod import;
/// JSON values as the library holds them.
pub mod json;
/// Reading and writing JSON text.
pub mod json_text;
/// The hierarchy of workspaces, groups, tasks and notes.
pub mod node;
/// Orderings of names.
pub mod order;
/// File paths.
pub mod paths;
/// Plugins: their manifests, permissions and script storage.
pub mod plugin;
/// Saved task filters.
pub mod saved_filter;
/// Bringing the database up, and recovering when it cannot be.
pub mod startup;
/// Tags.
pub mod tag;
/// Text: trimming, comparing, decimal digits.
pub mod text;
/// Calendar time blocks.
pub mod time_block;
/// Instants and calendar days.
pub mod time;
/// Undo and redo of changes to the hierarchy.
pub mod undo;
