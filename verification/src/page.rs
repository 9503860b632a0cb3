//! One fetched page: its messages put in order of time, the cursor for the
//! page before it, and the downloads that its messages call for.

use crate::cutoff::{in_window, within};
use crate::download::{local_file_name, local_name, recorded_path, relative_path};
use crate::filter::{is_qualifying_image, qualifies};
use crate::message::{AttachmentMetadata, AttachmentView, Message, MessageView};
use vstd::prelude::*;

verus! {

/// One qualifying attachment and the place where it is kept.
pub struct PlannedDownload {
    /// Where the bytes are fetched from.
    pub url: String,
    /// The name the remote service gave the attachment.
    pub filename: String,
    /// The name of the file in the cache.
    pub file_name: String,
    /// The path recorded in storage once the file is there.
    pub relative_path: String,
}

/// The mathematical value of a [`PlannedDownload`].
#[verifier::ext_equal]
pub struct PlannedDownloadView {
    pub url: Seq<char>,
    pub filename: Seq<char>,
    pub file_name: Seq<char>,
    pub relative_path: Seq<char>,
}

impl View for PlannedDownload {
    type V = PlannedDownloadView;

    open spec fn view(&self) -> PlannedDownloadView {
        PlannedDownloadView {
            url: self.url@,
            filename: self.filename@,
            file_name: self.file_name@,
            relative_path: self.relative_path@,
        }
    }
}

impl DeepView for PlannedDownload {
    type V = PlannedDownloadView;

    open spec fn deep_view(&self) -> PlannedDownloadView {
        self@
    }
}

/// A message inside the window together with the downloads it calls for,
/// of which there is at least one.
pub struct PlannedMessage {
    pub message: Message,
    pub downloads: Vec<PlannedDownload>,
}

/// The mathematical value of a [`PlannedMessage`].
#[verifier::ext_equal]
pub struct PlannedMessageView {
    pub message: MessageView,
    pub downloads: Seq<PlannedDownloadView>,
}

impl View for PlannedMessage {
    type V = PlannedMessageView;

    open spec fn view(&self) -> PlannedMessageView {
        PlannedMessageView { message: self.message@, downloads: self.downloads.deep_view() }
    }
}

impl DeepView for PlannedMessage {
    type V = PlannedMessageView;

    open spec fn deep_view(&self) -> PlannedMessageView {
        self@
    }
}

/// Whether `a` does not come after `b` in a page put in order: it is older,
/// or it is of the same second and its identifier is not the higher one.
/// Identifiers are handed out in the order of time, so of two messages of one
/// second the one with the lower identifier is the older.
pub open spec fn not_later(a: MessageView, b: MessageView) -> bool {
    a.timestamp < b.timestamp || (a.timestamp == b.timestamp && a.id <= b.id)
}

/// `sorted` with `m` put behind every message that does not come after it.
pub open spec fn insert_by_time(sorted: Seq<MessageView>, m: MessageView) -> Seq<MessageView>
    decreases sorted.len(),
{
    if sorted.len() == 0 || not_later(sorted.last(), m) {
        sorted.push(m)
    } else {
        insert_by_time(sorted.drop_last(), m).push(sorted.last())
    }
}

/// The messages of a page, oldest first; messages of the same second stand
/// in the order of their identifiers.
pub open spec fn sort_by_time(page: Seq<MessageView>) -> Seq<MessageView>
    decreases page.len(),
{
    if page.len() == 0 {
        page
    } else {
        insert_by_time(sort_by_time(page.drop_last()), page.last())
    }
}

/// Whether no message of `s` comes after one that stands behind it.
pub open spec fn ordered_by_time(s: Seq<MessageView>) -> bool {
    forall|i: int, j: int| 0 <= i <= j < s.len() ==> not_later(s[i], s[j])
}

/// The cursor after a page: the identifier of its oldest message, which of
/// the messages of the oldest second is the one with the lowest identifier.
pub open spec fn cursor_after(page: Seq<MessageView>) -> Option<u64> {
    if page.len() == 0 {
        None
    } else {
        Some(sort_by_time(page).first().id)
    }
}

/// Whether a page holds a message from before the cutoff.
pub open spec fn holds_older(page: Seq<MessageView>, cutoff: i64) -> bool {
    exists|i: int| 0 <= i < page.len() && !within(#[trigger] page[i].timestamp, cutoff)
}

/// The download that one qualifying attachment of a message calls for.
pub open spec fn planned_download(message_id: u64, a: AttachmentView) -> PlannedDownloadView {
    PlannedDownloadView {
        url: a.url,
        filename: a.filename,
        file_name: local_name(message_id, a.id, a.filename),
        relative_path: recorded_path(local_name(message_id, a.id, a.filename)),
    }
}

/// What one attachment adds to the downloads of its message.
pub open spec fn download_for(message_id: u64, a: AttachmentView) -> Option<PlannedDownloadView> {
    if qualifies(a.filename, a.content_type) {
        Some(planned_download(message_id, a))
    } else {
        None
    }
}

/// The downloads of a message: one for each qualifying attachment, in the
/// order of the attachments.
pub open spec fn downloads_of(m: MessageView) -> Seq<PlannedDownloadView> {
    m.attachments.filter_map(|a: AttachmentView| download_for(m.id, a))
}

/// What one message adds to the work of its page: nothing where it is older
/// than the cutoff or has no qualifying attachment.
pub open spec fn plan_message(m: MessageView, cutoff: i64) -> Option<PlannedMessageView> {
    if within(m.timestamp, cutoff) && downloads_of(m).len() > 0 {
        Some(PlannedMessageView { message: m, downloads: downloads_of(m) })
    } else {
        None
    }
}

/// The work of a page whose messages are `messages`, in their order.
pub open spec fn plan_of(messages: Seq<MessageView>, cutoff: i64) -> Seq<PlannedMessageView> {
    messages.filter_map(|m: MessageView| plan_message(m, cutoff))
}

/// Inserting a message at the place where the ones that come after it begin
/// is `insert_by_time`.
proof fn lemma_insert_position(sorted: Seq<MessageView>, m: MessageView, k: int)
    requires
        0 <= k <= sorted.len(),
        forall|j: int| k <= j < sorted.len() ==> !not_later(sorted[j], m),
        k > 0 ==> not_later(sorted[k - 1], m),
    ensures
        insert_by_time(sorted, m) == sorted.insert(k, m),
    decreases sorted.len() - k,
{
    if k == sorted.len() {
        assert(sorted.insert(k, m) == sorted.push(m));
    } else {
        let shorter = sorted.drop_last();
        lemma_insert_position(shorter, m, k);
        assert(shorter.insert(k, m).push(sorted.last()) == sorted.insert(k, m));
    }
}

/// The messages of `page`, oldest first; messages of one second stand in
/// the order of their identifiers.
pub fn sort_page(page: Vec<Message>) -> (sorted: Vec<Message>)
    ensures
        sorted.deep_view() == sort_by_time(page.deep_view()),
{
    let mut sorted: Vec<Message> = Vec::new();
    let ghost whole = page.deep_view();
    for m in it: page
        invariant
            it.seq().len() == whole.len(),
            forall|i: int| 0 <= i < whole.len() ==> (#[trigger] it.seq()[i])@ == whole[i],
            sorted.deep_view() == sort_by_time(whole.take(it.index() as int)),
    {
        let mut k: usize = sorted.len();
        while k > 0 && (sorted[k - 1].timestamp > m.timestamp || (sorted[k - 1].timestamp
            == m.timestamp && sorted[k - 1].id > m.id))
            invariant
                k <= sorted.len(),
                forall|j: int| k <= j < sorted.len() ==> !not_later(sorted@[j]@, m@),
            decreases k,
        {
            k -= 1;
        }
        proof {
            let before = sorted.deep_view();
            assert forall|j: int| k <= j < before.len() implies !not_later(before[j], m@) by {
                assert(before[j] == sorted@[j]@);
            }
            if k > 0 {
                assert(before[k - 1] == sorted@[k - 1]@);
            }
            lemma_insert_position(before, m@, k as int);
            let next = whole.take(it.index() + 1);
            assert(next.drop_last() == whole.take(it.index() as int));
            assert(next.last() == m@);
        }
        let ghost before = sorted.deep_view();
        sorted.insert(k, m);
        assert(sorted.deep_view() == before.insert(k as int, m@));
    }
    assert(whole.take(whole.len() as int) == whole);
    sorted
}

/// Where `insert_by_time` puts a message: behind the last message that does
/// not come after it.
pub open spec fn insert_point(sorted: Seq<MessageView>, m: MessageView) -> int
    decreases sorted.len(),
{
    if sorted.len() == 0 || not_later(sorted.last(), m) {
        sorted.len() as int
    } else {
        insert_point(sorted.drop_last(), m)
    }
}

/// `insert_by_time` inserts at `insert_point`, in front of which no message
/// comes after `m` and from which on every message does.
pub proof fn lemma_insert_point(sorted: Seq<MessageView>, m: MessageView)
    ensures
        0 <= insert_point(sorted, m) <= sorted.len(),
        forall|j: int|
            insert_point(sorted, m) <= j < sorted.len() ==> !not_later(sorted[j], m),
        insert_point(sorted, m) > 0 ==> not_later(sorted[insert_point(sorted, m) - 1], m),
        insert_by_time(sorted, m) == sorted.insert(insert_point(sorted, m), m),
    decreases sorted.len(),
{
    let k = insert_point(sorted, m);
    if !(sorted.len() == 0 || not_later(sorted.last(), m)) {
        let shorter = sorted.drop_last();
        lemma_insert_point(shorter, m);
        assert forall|j: int| k <= j < sorted.len() implies !not_later(sorted[j], m) by {
            if j < shorter.len() {
                assert(shorter[j] == sorted[j]);
            }
        }
        if k > 0 {
            assert(shorter[k - 1] == sorted[k - 1]);
        }
    }
    lemma_insert_position(sorted, m, k);
}

/// `insert_by_time` keeps an ordered sequence ordered, and adds `m` to what
/// the sequence holds.
pub proof fn lemma_insert_by_time(sorted: Seq<MessageView>, m: MessageView)
    requires
        ordered_by_time(sorted),
    ensures
        ordered_by_time(insert_by_time(sorted, m)),
        insert_by_time(sorted, m).len() == sorted.len() + 1,
        insert_by_time(sorted, m).to_multiset() == sorted.to_multiset().insert(m),
{
    let k = insert_point(sorted, m);
    let r = sorted.insert(k, m);
    lemma_insert_point(sorted, m);
    vstd::seq_lib::to_multiset_insert(sorted, k, m);
    assert forall|i: int| 0 <= i < r.len() implies #[trigger] r[i] == (if i < k {
        sorted[i]
    } else if i == k {
        m
    } else {
        sorted[i - 1]
    }) by {}
    assert forall|i: int, j: int| 0 <= i <= j < r.len() implies not_later(r[i], r[j]) by {
        if i < k && j >= k {
            assert(not_later(sorted[i], sorted[k - 1]));
        }
    }
}

/// Sorting a page orders it by time and neither adds nor loses a message.
pub proof fn lemma_sort_by_time(page: Seq<MessageView>)
    ensures
        ordered_by_time(sort_by_time(page)),
        sort_by_time(page).len() == page.len(),
        sort_by_time(page).to_multiset() == page.to_multiset(),
    decreases page.len(),
{
    if page.len() > 0 {
        let shorter = page.drop_last();
        lemma_sort_by_time(shorter);
        lemma_insert_by_time(sort_by_time(shorter), page.last());
        vstd::seq_lib::to_multiset_build(shorter, page.last());
        assert(shorter.push(page.last()) == page);
    }
}

/// The messages of `s` that have the timestamp and the identifier of
/// `like`, in their order.
pub open spec fn of_place(s: Seq<MessageView>, like: MessageView) -> Seq<MessageView>
    decreases s.len(),
{
    if s.len() == 0 {
        s
    } else if s.last().timestamp == like.timestamp && s.last().id == like.id {
        of_place(s.drop_last(), like).push(s.last())
    } else {
        of_place(s.drop_last(), like)
    }
}

/// `insert_by_time` puts a message behind the messages of its own second and
/// identifier and leaves all others as they were among themselves.
pub proof fn lemma_insert_keeps_places(sorted: Seq<MessageView>, m: MessageView, like: MessageView)
    ensures
        of_place(insert_by_time(sorted, m), like) == (if m.timestamp == like.timestamp && m.id
            == like.id {
            of_place(sorted, like).push(m)
        } else {
            of_place(sorted, like)
        }),
    decreases sorted.len(),
{
    if sorted.len() == 0 || not_later(sorted.last(), m) {
        assert(sorted.push(m).drop_last() == sorted);
    } else {
        let inner = insert_by_time(sorted.drop_last(), m);
        lemma_insert_keeps_places(sorted.drop_last(), m, like);
        assert(inner.push(sorted.last()).drop_last() == inner);
    }
}

/// Sorting is stable: messages that the order does not tell apart, of one
/// second and one identifier, stand in a sorted page in the order in which
/// the page held them.
pub proof fn lemma_sort_is_stable(page: Seq<MessageView>, like: MessageView)
    ensures
        of_place(sort_by_time(page), like) == of_place(page, like),
    decreases page.len(),
{
    if page.len() > 0 {
        lemma_sort_is_stable(page.drop_last(), like);
        lemma_insert_keeps_places(sort_by_time(page.drop_last()), page.last(), like);
    }
}

/// A sorted page holds exactly the messages of the page.
pub proof fn lemma_sort_keeps_members(page: Seq<MessageView>, m: MessageView)
    ensures
        sort_by_time(page).contains(m) == page.contains(m),
{
    lemma_sort_by_time(page);
    vstd::seq_lib::to_multiset_contains(page, m);
    vstd::seq_lib::to_multiset_contains(sort_by_time(page), m);
}

/// The first message of a sorted page is the oldest of the page: it comes
/// after no message of the page.
pub proof fn lemma_first_is_oldest(page: Seq<MessageView>, i: int)
    requires
        0 <= i < page.len(),
    ensures
        not_later(sort_by_time(page).first(), page[i]),
{
    let sorted = sort_by_time(page);
    lemma_sort_by_time(page);
    lemma_sort_keeps_members(page, page[i]);
    assert(page.contains(page[i]));
    let k = choose|k: int| 0 <= k < sorted.len() && sorted[k] == page[i];
    assert(not_later(sorted[0], sorted[k]));
}

/// Sorting does not change whether a page holds a message from before the
/// cutoff.
pub proof fn lemma_sort_keeps_older(page: Seq<MessageView>, cutoff: i64)
    ensures
        holds_older(sort_by_time(page), cutoff) == holds_older(page, cutoff),
{
    let sorted = sort_by_time(page);
    if holds_older(page, cutoff) {
        let i = choose|i: int| 0 <= i < page.len() && !within(#[trigger] page[i].timestamp, cutoff);
        lemma_sort_keeps_members(page, page[i]);
        assert(page.contains(page[i]));
        let k = choose|k: int| 0 <= k < sorted.len() && sorted[k] == page[i];
        assert(!within(sorted[k].timestamp, cutoff));
    }
    if holds_older(sorted, cutoff) {
        let i = choose|i: int|
            0 <= i < sorted.len() && !within(#[trigger] sorted[i].timestamp, cutoff);
        lemma_sort_keeps_members(page, sorted[i]);
        assert(sorted.contains(sorted[i]));
        let k = choose|k: int| 0 <= k < page.len() && page[k] == sorted[i];
        assert(!within(page[k].timestamp, cutoff));
    }
}

/// The download that one attachment of a message calls for.
fn plan_download(message_id: u64, a: &AttachmentMetadata) -> (d: PlannedDownload)
    ensures
        d@ == planned_download(message_id, a@),
{
    let file_name = local_file_name(message_id, a.id, a.filename.as_str());
    let path = relative_path(file_name.as_str());
    PlannedDownload {
        url: a.url.clone(),
        filename: a.filename.clone(),
        file_name,
        relative_path: path,
    }
}

/// Whether an attachment is a qualifying image.
pub fn attachment_qualifies(a: &AttachmentMetadata) -> (r: bool)
    ensures
        r == qualifies(a@.filename, a@.content_type),
{
    match &a.content_type {
        Some(t) => is_qualifying_image(a.filename.as_str(), Some(t.as_str())),
        None => is_qualifying_image(a.filename.as_str(), None),
    }
}

/// The downloads that a message calls for, in the order of its attachments.
pub fn plan_downloads(m: &Message) -> (downloads: Vec<PlannedDownload>)
    ensures
        downloads.deep_view() == downloads_of(m@),
{
    let mut downloads: Vec<PlannedDownload> = Vec::new();
    let ghost pick = |a: AttachmentView| download_for(m.id, a);
    let ghost all = m.attachments.deep_view();
    let mut i: usize = 0;
    while i < m.attachments.len()
        invariant
            i <= m.attachments.len(),
            all == m.attachments.deep_view(),
            all == m@.attachments,
            pick == |a: AttachmentView| download_for(m.id, a),
            downloads.deep_view() == all.take(i as int).filter_map(pick),
        decreases m.attachments.len() - i,
    {
        let a = &m.attachments[i];
        proof {
            all.lemma_filter_map_take_succ(pick, i as int);
            assert(all[i as int] == a@);
        }
        if attachment_qualifies(a) {
            let ghost before = downloads.deep_view();
            let d = plan_download(m.id, a);
            downloads.push(d);
            assert(downloads.deep_view() == before + seq![planned_download(m.id, a@)]);
        }
        i += 1;
    }
    assert(all.take(all.len() as int) == all);
    downloads
}

/// The work of a page whose messages are already in order, and whether the
/// page holds a message from before the cutoff.
pub fn plan_page(messages: Vec<Message>, cutoff: i64) -> (r: (Vec<PlannedMessage>, bool))
    ensures
        r.0.deep_view() == plan_of(messages.deep_view(), cutoff),
        r.1 == holds_older(messages.deep_view(), cutoff),
{
    let mut plan: Vec<PlannedMessage> = Vec::new();
    let mut older = false;
    let ghost whole = messages.deep_view();
    let ghost pick = |m: MessageView| plan_message(m, cutoff);
    for m in it: messages
        invariant
            it.seq().len() == whole.len(),
            forall|i: int| 0 <= i < whole.len() ==> (#[trigger] it.seq()[i])@ == whole[i],
            pick == |m: MessageView| plan_message(m, cutoff),
            plan.deep_view() == whole.take(it.index() as int).filter_map(pick),
            older == holds_older(whole.take(it.index() as int), cutoff),
    {
        proof {
            whole.lemma_filter_map_take_succ(pick, it.index() as int);
            let shown = whole.take(it.index() as int);
            let next = whole.take(it.index() + 1);
            assert(next[it.index() as int] == m@);
            if holds_older(shown, cutoff) {
                let i = choose|i: int|
                    0 <= i < shown.len() && !within(#[trigger] shown[i].timestamp, cutoff);
                assert(!within(next[i].timestamp, cutoff));
            }
            if holds_older(next, cutoff) && within(m@.timestamp, cutoff) {
                let i = choose|i: int|
                    0 <= i < next.len() && !within(#[trigger] next[i].timestamp, cutoff);
                assert(!within(shown[i].timestamp, cutoff));
            }
        }
        if !in_window(m.timestamp, cutoff) {
            older = true;
        } else {
            let downloads = plan_downloads(&m);
            if downloads.len() > 0 {
                let ghost before = plan.deep_view();
                let planned = PlannedMessage { message: m, downloads };
                plan.push(planned);
                assert(plan.deep_view() == before + seq![planned@]);
            }
        }
    }
    assert(whole.take(whole.len() as int) == whole);
    (plan, older)
}

/// How many of `messages` lie before the cutoff.
pub open spec fn older_count(messages: Seq<MessageView>, cutoff: i64) -> nat
    decreases messages.len(),
{
    if messages.len() == 0 {
        0
    } else if within(messages.last().timestamp, cutoff) {
        older_count(messages.drop_last(), cutoff)
    } else {
        older_count(messages.drop_last(), cutoff) + 1
    }
}

/// Whether every message inside the window has a qualifying image.
pub open spec fn all_have_images(messages: Seq<MessageView>, cutoff: i64) -> bool {
    forall|i: int|
        0 <= i < messages.len() && within((#[trigger] messages[i]).timestamp, cutoff)
            ==> downloads_of(messages[i]).len() > 0
}

/// A page holds a message from before the cutoff exactly where it holds one
/// such message at least, and never more such messages than messages.
pub proof fn lemma_older_count(messages: Seq<MessageView>, cutoff: i64)
    ensures
        older_count(messages, cutoff) <= messages.len(),
        holds_older(messages, cutoff) == (older_count(messages, cutoff) > 0),
    decreases messages.len(),
{
    if messages.len() > 0 {
        let shorter = messages.drop_last();
        lemma_older_count(shorter, cutoff);
        if holds_older(shorter, cutoff) {
            let i = choose|i: int|
                0 <= i < shorter.len() && !within(#[trigger] shorter[i].timestamp, cutoff);
            assert(!within(messages[i].timestamp, cutoff));
        }
        if holds_older(messages, cutoff) && within(messages.last().timestamp, cutoff) {
            let i = choose|i: int|
                0 <= i < messages.len() && !within(#[trigger] messages[i].timestamp, cutoff);
            assert(!within(shorter[i].timestamp, cutoff));
        }
        if !within(messages.last().timestamp, cutoff) {
            assert(!within(messages[messages.len() - 1].timestamp, cutoff));
        }
    }
}

/// Where every message inside the window has a qualifying image, the work
/// of a page holds its messages inside the window, all of them: as many as
/// the page has messages that do not lie before the cutoff.
pub proof fn lemma_plan_counts(messages: Seq<MessageView>, cutoff: i64)
    requires
        all_have_images(messages, cutoff),
    ensures
        plan_of(messages, cutoff).len() + older_count(messages, cutoff) == messages.len(),
    decreases messages.len(),
{
    if messages.len() > 0 {
        let shorter = messages.drop_last();
        assert(all_have_images(shorter, cutoff)) by {
            assert forall|i: int|
                0 <= i < shorter.len() && within(
                    (#[trigger] shorter[i]).timestamp,
                    cutoff,
                ) implies downloads_of(shorter[i]).len() > 0 by {
                assert(shorter[i] == messages[i]);
            }
        }
        lemma_plan_counts(shorter, cutoff);
        assert(messages.last() == messages[messages.len() - 1]);
    }
}

/// Putting a message in its place by time adds it to the count of the
/// messages before the cutoff if it is one of them.
pub proof fn lemma_insert_keeps_older_count(sorted: Seq<MessageView>, m: MessageView, cutoff: i64)
    ensures
        older_count(insert_by_time(sorted, m), cutoff) == older_count(sorted, cutoff) + (if within(
            m.timestamp,
            cutoff,
        ) {
            0nat
        } else {
            1nat
        }),
    decreases sorted.len(),
{
    if sorted.len() == 0 || not_later(sorted.last(), m) {
        assert(sorted.push(m).drop_last() == sorted);
    } else {
        let inner = insert_by_time(sorted.drop_last(), m);
        lemma_insert_keeps_older_count(sorted.drop_last(), m, cutoff);
        assert(inner.push(sorted.last()).drop_last() == inner);
    }
}

/// Sorting a page changes neither how many of its messages lie before the
/// cutoff nor whether every message inside the window has an image.
pub proof fn lemma_sort_keeps_counts(messages: Seq<MessageView>, cutoff: i64)
    ensures
        older_count(sort_by_time(messages), cutoff) == older_count(messages, cutoff),
        all_have_images(messages, cutoff) ==> all_have_images(sort_by_time(messages), cutoff),
    decreases messages.len(),
{
    if messages.len() > 0 {
        lemma_sort_keeps_counts(messages.drop_last(), cutoff);
        lemma_insert_keeps_older_count(
            sort_by_time(messages.drop_last()),
            messages.last(),
            cutoff,
        );
    }
    if all_have_images(messages, cutoff) {
        let sorted = sort_by_time(messages);
        assert forall|i: int|
            0 <= i < sorted.len() && within((#[trigger] sorted[i]).timestamp, cutoff) implies
            downloads_of(sorted[i]).len() > 0 by {
            assert(sorted.contains(sorted[i]));
            lemma_sort_keeps_members(messages, sorted[i]);
            let k = choose|k: int| 0 <= k < messages.len() && messages[k] == sorted[i];
            assert(within(messages[k].timestamp, cutoff));
        }
    }
}

} // verus!
