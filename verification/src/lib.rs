//! Incremental ingestion of chat messages and their image attachments, with
//! the rules of the application around it, stated and proved.
//!
//! The ingestion walks the history of each configured channel from its
//! newest page back to the cutoff, fetches the still images of the messages
//! once, and hands the messages whose images are all there to the store, a
//! page at a time. The library decides; it does no input or output. The
//! run is a state machine that names the next action and takes in what came
//! of it:
//!
//! - [`cutoff`]: how far back a run reaches.
//! - [`filter`]: which attachments are still images.
//! - [`download`]: where a fetched image is kept.
//! - [`message`], [`page`]: the messages of a page, their order, the cursor
//!   and the downloads they call for.
//! - [`persist`]: the rows handed to the store, and what the store is taken
//!   to do with them.
//! - [`ingest`]: the moves of a run, as mathematics.
//! - [`run`]: the run itself.
//! - [`laws`]: what holds of every run.
//!
//! Around it stand the smaller rules of the application: [`discord`] for
//! servers and channels, [`config`] and [`schema`] and [`sqlite_manager`]
//! for the store, [`showcase_manager`] for showcases, [`version_manager`]
//! for releases, [`logging`] for the log, [`models`] for the records, and
//! [`text`] for the work on characters that all of them share.

pub mod config;
pub mod cutoff;
pub mod discord;
pub mod download;
pub mod filter;
pub mod ingest;
pub mod laws;
pub mod logging;
pub mod message;
pub mod models;
pub mod page;
pub mod persist;
pub mod run;
pub mod schema;
pub mod showcase_manager;
pub mod sqlite_manager;
pub mod text;
pub mod version_manager;
