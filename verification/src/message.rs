//! Messages and attachment metadata as the remote service reports them.

use vstd::prelude::*;
use vstd::string::StringExecFns;

verus! {

/// What is known of one attachment before it is fetched.
pub struct AttachmentMetadata {
    pub id: u64,
    pub filename: String,
    pub content_type: Option<String>,
    pub width: Option<u32>,
    pub height: Option<u32>,
    pub url: String,
}

/// The mathematical value of an [`AttachmentMetadata`].
#[verifier::ext_equal]
pub struct AttachmentView {
    pub id: u64,
    pub filename: Seq<char>,
    pub content_type: Option<Seq<char>>,
    pub width: Option<u32>,
    pub height: Option<u32>,
    pub url: Seq<char>,
}

impl View for AttachmentMetadata {
    type V = AttachmentView;

    open spec fn view(&self) -> AttachmentView {
        AttachmentView {
            id: self.id,
            filename: self.filename@,
            content_type: self.content_type.deep_view(),
            width: self.width,
            height: self.height,
            url: self.url@,
        }
    }
}

impl DeepView for AttachmentMetadata {
    type V = AttachmentView;

    open spec fn deep_view(&self) -> AttachmentView {
        self@
    }
}

/// A snapshot of one remote message. The ingestion reads it and never changes
/// it.
pub struct Message {
    pub id: u64,
    pub channel_id: u64,
    pub author_id: u64,
    pub author_name: String,
    pub author_avatar: Option<String>,
    pub content: String,
    pub attachments: Vec<AttachmentMetadata>,
    /// Seconds since the epoch, as the remote service assigned them.
    pub timestamp: i64,
}

/// The mathematical value of a [`Message`].
#[verifier::ext_equal]
pub struct MessageView {
    pub id: u64,
    pub channel_id: u64,
    pub author_id: u64,
    pub author_name: Seq<char>,
    pub author_avatar: Option<Seq<char>>,
    pub content: Seq<char>,
    pub attachments: Seq<AttachmentView>,
    pub timestamp: i64,
}

impl View for Message {
    type V = MessageView;

    open spec fn view(&self) -> MessageView {
        MessageView {
            id: self.id,
            channel_id: self.channel_id,
            author_id: self.author_id,
            author_name: self.author_name@,
            author_avatar: self.author_avatar.deep_view(),
            content: self.content@,
            attachments: self.attachments.deep_view(),
            timestamp: self.timestamp,
        }
    }
}

impl DeepView for Message {
    type V = MessageView;

    open spec fn deep_view(&self) -> MessageView {
        self@
    }
}

/// A copy of an optional string.
pub fn clone_optional(text: &Option<String>) -> (r: Option<String>)
    ensures
        r.deep_view() == text.deep_view(),
{
    match text {
        Some(t) => Some(t.clone()),
        None => None,
    }
}

/// Whether a number is an identifier of the remote service: any but zero.
pub open spec fn identifier(n: u64) -> bool {
    n != 0
}

/// Whether `n` is an identifier of the remote service.
pub fn is_identifier(n: u64) -> (r: bool)
    ensures
        r == identifier(n),
{
    n != 0
}

/// The identifier that a text writes: an unsigned 64-bit number that is not
/// zero.
pub open spec fn identifier_of(text: Seq<char>) -> Option<u64> {
    match crate::text::parsed_u64(text) {
        Some(n) => if identifier(n) {
            Some(n)
        } else {
            None
        },
        None => None,
    }
}

/// Reads an identifier of the remote service.
pub fn parse_identifier(text: &str) -> (r: Option<u64>)
    ensures
        r == identifier_of(text@),
{
    match crate::text::parse_u64(text) {
        Some(n) => if n != 0 {
            Some(n)
        } else {
            None
        },
        None => None,
    }
}

/// Why a page cannot be asked for, if it cannot: the channel, or the message
/// before which the page is to lie, is no identifier.
pub open spec fn fetch_refused(channel_id: u64, before: Option<u64>) -> Option<Seq<char>> {
    if !identifier(channel_id) {
        Some("Invalid channel ID: 0"@)
    } else if before == Some(0u64) {
        Some("Invalid message ID: 0"@)
    } else {
        None
    }
}

/// Why the page of channel `channel_id` before the message `before` cannot
/// be asked for; nothing where it can.
pub fn fetch_refusal(channel_id: u64, before: Option<u64>) -> (r: Option<String>)
    ensures
        r.deep_view() == fetch_refused(channel_id, before),
{
    if channel_id == 0 {
        return Some(String::from_str("Invalid channel ID: 0"));
    }
    match before {
        Some(id) => if id == 0 {
            Some(String::from_str("Invalid message ID: 0"))
        } else {
            None
        },
        None => None,
    }
}

} // verus!
