//! Background engine of a clipboard-history manager: change detection,
//! deduplication, thumbnail compression and the history store.
//!
//! - [`clipboard_read`]: the capture pipeline.  What the clipboard offers is
//!   classified by format priority, passed by the dedup guard, and turned
//!   into a record; a state machine drives one cycle of it at a time.
//! - [`optimize_img`]: the image compressor, which makes bounded thumbnails.
//! - [`db`]: the history store with insert-or-refresh, filtered listing and
//!   retention.
//! - [`clipboard_write`]: what to put back on the clipboard for a chosen
//!   entry.
//! - [`encoding`]: base64, as values and thumbnails of images are stored.
//! - [`text`]: substring search, decimal numbers and escaping.
//! - [`nspanel`]: the visibility flag of the history panel.
//!
//! The library decides; reading the clipboard, the clock, files and the
//! database on disk are the host's part.
pub mod clipboard_read;
pub mod clipboard_write;
pub mod db;
pub mod encoding;
pub mod nspanel;
pub mod optimize_img;
pub mod text;
