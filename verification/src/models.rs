//! The records that the application keeps and shows.

use vstd::prelude::*;

verus! {

/// The corner of an image in which the overlay is drawn.
#[derive(Debug, Clone, Copy, PartialEq, Eq, Structural)]
pub enum OverlayPosition {
    TopLeft,
    TopRight,
    BottomLeft,
    BottomRight,
    Hidden,
}

/// The colour scheme of the overlay.
#[derive(Debug, Clone, Copy, PartialEq, Eq, Structural)]
pub enum OverlayStyle {
    Black,
    White,
}

impl OverlayPosition {
    /// The name of the position where settings are stored or exchanged.
    pub open spec fn spec_name(self) -> Seq<char> {
        match self {
            OverlayPosition::TopLeft => "top-left"@,
            OverlayPosition::TopRight => "top-right"@,
            OverlayPosition::BottomLeft => "bottom-left"@,
            OverlayPosition::BottomRight => "bottom-right"@,
            OverlayPosition::Hidden => "hidden"@,
        }
    }

    /// The name of the position where settings are stored or exchanged.
    pub fn name(&self) -> (r: &'static str)
        ensures
            r@ == self.spec_name(),
    {
        match self {
            OverlayPosition::TopLeft => "top-left",
            OverlayPosition::TopRight => "top-right",
            OverlayPosition::BottomLeft => "bottom-left",
            OverlayPosition::BottomRight => "bottom-right",
            OverlayPosition::Hidden => "hidden",
        }
    }
}

impl OverlayStyle {
    /// The name of the style where settings are stored or exchanged.
    pub open spec fn spec_name(self) -> Seq<char> {
        match self {
            OverlayStyle::Black => "black"@,
            OverlayStyle::White => "white"@,
        }
    }

    /// The name of the style where settings are stored or exchanged.
    pub fn name(&self) -> (r: &'static str)
        ensures
            r@ == self.spec_name(),
    {
        match self {
            OverlayStyle::Black => "black",
            OverlayStyle::White => "white",
        }
    }
}

/// A stored message that was chosen for a showcase, with the one image
/// chosen from it.
#[derive(Debug, Clone)]
pub struct SelectedMessage {
    pub message_id: String,
    pub channel_id: String,
    pub author_id: String,
    pub author_name: String,
    pub author_avatar: Option<String>,
    pub message_content: String,
    pub selected_attachment_filename: String,
    pub timestamp: i64,
}

/// The changes asked for to the title, description and status of a showcase;
/// a field that is absent stays as it is.
#[derive(Debug)]
pub struct UpdateShowcasePayload {
    pub title: Option<String>,
    pub description: Option<String>,
    pub status: Option<String>,
}

/// What the user has set up: the server, its channels to read, and whether
/// the setup was completed.
#[derive(Debug, Clone)]
pub struct AppConfig {
    pub selected_server_id: Option<String>,
    pub selected_channel_ids: Vec<String>,
    pub is_setup_complete: bool,
}

impl Default for AppConfig {
    fn default() -> (config: AppConfig)
        ensures
            config.selected_server_id is None,
            config.selected_channel_ids@.len() == 0,
            !config.is_setup_complete,
    {
        AppConfig {
            selected_server_id: None,
            selected_channel_ids: Vec::new(),
            is_setup_complete: false,
        }
    }
}

/// An attachment as it is shown to the user.
#[derive(Debug, Clone)]
pub struct AttachmentInfo {
    pub id: String,
    pub url: String,
    pub filename: String,
    pub content_type: Option<String>,
    pub width: Option<u64>,
    pub height: Option<u64>,
}

/// A stored message as it is read back: the recorded paths of its images,
/// and whether a showcase uses it.
#[derive(Debug, Clone)]
pub struct IndexedMessage {
    pub message_id: String,
    pub channel_id: String,
    pub author_id: String,
    pub author_name: String,
    pub author_avatar: Option<String>,
    pub message_content: String,
    pub attachments: Vec<String>,
    pub timestamp: i64,
    pub is_used: bool,
}

/// How much the application keeps on disk.
#[derive(Debug, Clone)]
pub struct StorageUsage {
    pub database_size_bytes: u64,
    pub image_cache_size_bytes: u64,
    pub total_size_bytes: u64,
    pub database_path: String,
    pub message_count: i64,
    pub showcase_count: i64,
    pub protected_message_count: i64,
    pub cache_file_count: u64,
    pub oldest_message_date: Option<i64>,
    pub newest_message_date: Option<i64>,
}

/// What a cleanup removed and what it left alone.
#[derive(Debug)]
pub struct CleanupStats {
    pub messages_deleted: usize,
    pub files_deleted: usize,
    pub skipped_used_messages: usize,
}

} // verus!
