//! What is written to storage: one row for each message whose images are all
//! in the cache, a page's rows in one transaction.

use crate::message::{clone_optional, Message, MessageView};
use crate::text::{decimal, decimal_string, lemma_decimal_injective};
use vstd::prelude::*;

verus! {

/// The statement that writes one row. A row whose message identifier is
/// already stored is left as it is.
pub const INSERT_MESSAGE: &'static str =
    "INSERT OR IGNORE INTO messages (message_id, channel_id, author_id, author_name, author_avatar, message_content, attachments, timestamp) VALUES (?1, ?2, ?3, ?4, ?5, ?6, ?7, ?8)";

/// One row of the table of messages, its columns in the order in which the
/// statement binds them. `paths` are the recorded paths of the message's
/// images and `attachments` is the same list as JSON text.
pub struct MessageRow {
    pub message_id: String,
    pub channel_id: String,
    pub author_id: String,
    pub author_name: String,
    pub author_avatar: Option<String>,
    pub message_content: String,
    pub paths: Vec<String>,
    pub attachments: String,
    pub timestamp: i64,
}

/// The mathematical value of a [`MessageRow`].
#[verifier::ext_equal]
pub struct MessageRowView {
    pub message_id: Seq<char>,
    pub channel_id: Seq<char>,
    pub author_id: Seq<char>,
    pub author_name: Seq<char>,
    pub author_avatar: Option<Seq<char>>,
    pub message_content: Seq<char>,
    pub paths: Seq<Seq<char>>,
    pub attachments: Seq<char>,
    pub timestamp: i64,
}

impl View for MessageRow {
    type V = MessageRowView;

    open spec fn view(&self) -> MessageRowView {
        MessageRowView {
            message_id: self.message_id@,
            channel_id: self.channel_id@,
            author_id: self.author_id@,
            author_name: self.author_name@,
            author_avatar: self.author_avatar.deep_view(),
            message_content: self.message_content@,
            paths: self.paths.deep_view(),
            attachments: self.attachments@,
            timestamp: self.timestamp,
        }
    }
}

impl DeepView for MessageRow {
    type V = MessageRowView;

    open spec fn deep_view(&self) -> MessageRowView {
        self@
    }
}

/// The JSON text that `serde_json::to_string` makes of a list of strings.
pub uninterp spec fn json_of_strings(items: Seq<Seq<char>>) -> Seq<char>;

/// `serde_json::to_string` on a list of strings. serde_json names two causes
/// for which it fails, a value that refuses to be written and a map whose
/// keys are no strings; a list of strings has neither, so there is always a
/// text. The type of the result is kept, with an error as its text
/// (`to_string` of `serde_json::Error`).
#[verifier::external_body]
pub(crate) fn strings_to_json(items: &Vec<String>) -> (r: Result<String, String>)
    ensures
        r is Ok,
        r matches Ok(text) ==> text@ == json_of_strings(items.deep_view()),
{
    match serde_json::to_string(items) {
        Ok(text) => Ok(text),
        Err(e) => Err(e.to_string()),
    }
}

/// The row of a message whose images are kept under `paths`, written as the
/// JSON text `attachments`.
pub open spec fn row_of(m: MessageView, paths: Seq<Seq<char>>, attachments: Seq<char>)
    -> MessageRowView {
    MessageRowView {
        message_id: decimal(m.id as nat),
        channel_id: decimal(m.channel_id as nat),
        author_id: decimal(m.author_id as nat),
        author_name: m.author_name,
        author_avatar: m.author_avatar,
        message_content: m.content,
        paths,
        attachments,
        timestamp: m.timestamp,
    }
}

/// The row of a message and the paths of its images, which it holds as a
/// list and as JSON text.
pub open spec fn row_for(m: MessageView, paths: Seq<Seq<char>>) -> MessageRowView {
    row_of(m, paths, json_of_strings(paths))
}

/// The row of `m` with the paths of its images and the JSON text that
/// writes them.
pub fn row_with(m: &Message, paths: Vec<String>, attachments: String) -> (row: MessageRow)
    ensures
        row@ == row_of(m@, paths.deep_view(), attachments@),
{
    MessageRow {
        message_id: decimal_string(m.id),
        channel_id: decimal_string(m.channel_id),
        author_id: decimal_string(m.author_id),
        author_name: m.author_name.clone(),
        author_avatar: clone_optional(&m.author_avatar),
        message_content: m.content.clone(),
        paths,
        attachments,
        timestamp: m.timestamp,
    }
}

/// Builds the row of `m` from the paths under which its images are kept.
/// There is always a row.
pub fn message_row(m: &Message, paths: Vec<String>) -> (r: Result<MessageRow, String>)
    ensures
        r matches Ok(row) && row@ == row_for(m@, paths.deep_view()),
{
    match strings_to_json(&paths) {
        Ok(attachments) => Ok(row_with(m, paths, attachments)),
        Err(why) => Err(why),
    }
}

/// A copy of a list of strings.
pub fn clone_strings(items: &Vec<String>) -> (r: Vec<String>)
    ensures
        r.deep_view() == items.deep_view(),
{
    let mut r: Vec<String> = Vec::new();
    let mut i: usize = 0;
    while i < items.len()
        invariant
            i <= items.len(),
            r.deep_view() == items.deep_view().take(i as int),
        decreases items.len() - i,
    {
        let ghost before = r.deep_view();
        r.push(items[i].clone());
        assert(r.deep_view() == before.push(items[i as int]@));
        i += 1;
    }
    assert(items.deep_view().take(items.len() as int) == items.deep_view());
    r
}

/// A copy of a row.
pub fn clone_row(row: &MessageRow) -> (r: MessageRow)
    ensures
        r@ == row@,
{
    MessageRow {
        message_id: row.message_id.clone(),
        channel_id: row.channel_id.clone(),
        author_id: row.author_id.clone(),
        author_name: row.author_name.clone(),
        author_avatar: clone_optional(&row.author_avatar),
        message_content: row.message_content.clone(),
        paths: clone_strings(&row.paths),
        attachments: row.attachments.clone(),
        timestamp: row.timestamp,
    }
}

/// A copy of a batch of rows.
pub fn clone_rows(rows: &Vec<MessageRow>) -> (r: Vec<MessageRow>)
    ensures
        r.deep_view() == rows.deep_view(),
{
    let mut r: Vec<MessageRow> = Vec::new();
    let mut i: usize = 0;
    while i < rows.len()
        invariant
            i <= rows.len(),
            r.deep_view() == rows.deep_view().take(i as int),
        decreases rows.len() - i,
    {
        let ghost before = r.deep_view();
        r.push(clone_row(&rows[i]));
        assert(r.deep_view() == before.push(rows[i as int]@));
        i += 1;
    }
    assert(rows.deep_view().take(rows.len() as int) == rows.deep_view());
    r
}

/// The stored messages, each under its message identifier.
pub type Stored = Map<Seq<char>, MessageRowView>;

/// What the store holds after one row is written: the row is added unless its
/// identifier is already there.
pub open spec fn insert_or_ignore(stored: Stored, row: MessageRowView) -> Stored {
    if stored.dom().contains(row.message_id) {
        stored
    } else {
        stored.insert(row.message_id, row)
    }
}

/// What the store holds after a batch is committed: its rows written in
/// order.
pub open spec fn committed(stored: Stored, batch: Seq<MessageRowView>) -> Stored
    decreases batch.len(),
{
    if batch.len() == 0 {
        stored
    } else {
        insert_or_ignore(committed(stored, batch.drop_last()), batch.last())
    }
}

/// A commit never changes or removes what is stored.
pub proof fn lemma_commit_keeps(stored: Stored, batch: Seq<MessageRowView>, id: Seq<char>)
    requires
        stored.dom().contains(id),
    ensures
        committed(stored, batch).dom().contains(id),
        committed(stored, batch)[id] == stored[id],
    decreases batch.len(),
{
    if batch.len() > 0 {
        lemma_commit_keeps(stored, batch.drop_last(), id);
    }
}

/// After a commit every row of the batch has its identifier stored.
pub proof fn lemma_commit_stores(stored: Stored, batch: Seq<MessageRowView>, i: int)
    requires
        0 <= i < batch.len(),
    ensures
        committed(stored, batch).dom().contains(batch[i].message_id),
    decreases batch.len(),
{
    if i < batch.len() - 1 {
        lemma_commit_stores(stored, batch.drop_last(), i);
        assert(batch.drop_last()[i] == batch[i]);
    }
}

/// Writing a message that is already stored changes nothing: a second batch
/// whose identifiers are all stored leaves the store as it was.
pub proof fn lemma_commit_again(stored: Stored, batch: Seq<MessageRowView>)
    requires
        forall|i: int| 0 <= i < batch.len() ==> stored.dom().contains(#[trigger] batch[i].message_id),
    ensures
        committed(stored, batch) == stored,
    decreases batch.len(),
{
    if batch.len() > 0 {
        let shorter = batch.drop_last();
        assert forall|i: int| 0 <= i < shorter.len() implies stored.dom().contains(
            #[trigger] shorter[i].message_id,
        ) by {
            assert(shorter[i] == batch[i]);
        }
        lemma_commit_again(stored, shorter);
        assert(stored.dom().contains(batch[batch.len() - 1].message_id));
    }
}

/// Persisting a message twice, in two batches, leaves one row under its
/// identifier: the one stored first.
pub proof fn lemma_one_row_per_message(
    stored: Stored,
    first: Seq<MessageRowView>,
    second: Seq<MessageRowView>,
    i: int,
    j: int,
)
    requires
        0 <= i < first.len(),
        0 <= j < second.len(),
        first[i].message_id == second[j].message_id,
    ensures
        committed(committed(stored, first), second)[second[j].message_id] == committed(
            stored,
            first,
        )[first[i].message_id],
{
    lemma_commit_stores(stored, first, i);
    lemma_commit_keeps(committed(stored, first), second, first[i].message_id);
}

/// The rows of two messages are stored under the same identifier only if the
/// messages have the same identifier.
pub proof fn lemma_row_key_tells_message(
    a: MessageView,
    paths_a: Seq<Seq<char>>,
    json_a: Seq<char>,
    b: MessageView,
    paths_b: Seq<Seq<char>>,
    json_b: Seq<char>,
)
    requires
        row_of(a, paths_a, json_a).message_id == row_of(b, paths_b, json_b).message_id,
    ensures
        a.id == b.id,
{
    lemma_decimal_injective(a.id as nat, b.id as nat);
}

} // verus!
