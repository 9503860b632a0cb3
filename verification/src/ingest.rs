//! The ingestion run as a state machine.
//!
//! A run walks the configured channels one after the other. In each it asks
//! for pages of messages, newest page first, until a page is empty, a page
//! holds a message from before the cutoff, or a fetch fails for another
//! reason than a rate limit. Every page is put in order, filtered by the
//! cutoff, its qualifying images are fetched or found in the cache, and the
//! messages whose images are all there are committed together.
//!
//! The machine does no input or output itself. Each state names the one
//! [`Action`](crate::run::Action) it waits for; the caller performs it and
//! hands back what happened. This module is the mathematical description of
//! the moves; [`crate::run`] holds the executable machine.

use crate::message::MessageView;
use crate::page::{
    cursor_after, downloads_of, holds_older, plan_message, plan_of, sort_by_time,
    PlannedDownloadView, PlannedMessageView,
};
use crate::persist::{row_for, MessageRowView};
use crate::message::identifier_of;
use crate::text::decimal;
use vstd::prelude::*;

verus! {

/// The most messages asked for in one page.
pub const PAGE_LIMIT: u8 = 100;

/// How long a run waits after the remote service has limited its rate.
pub const RATE_LIMIT_DELAY_SECONDS: u64 = 5;

/// How long the fetch of one attachment may take.
pub const DOWNLOAD_TIMEOUT_SECONDS: u64 = 30;

/// The status with which the remote service limits the rate of requests.
pub const RATE_LIMITED_STATUS: u16 = 429;

/// The four kinds of events that an observer is told.
#[derive(Clone, Copy, PartialEq, Eq, Structural, Debug)]
pub enum EventKind {
    Status,
    Progress,
    Error,
    Complete,
}

/// The mathematical value of an event for the observer.
#[verifier::ext_equal]
pub struct EventView {
    pub kind: EventKind,
    pub payload: Seq<char>,
}

/// What the machine waits for.
#[derive(Clone, Copy, PartialEq, Eq, Structural, Debug)]
pub enum Phase {
    /// A page of the current channel has been asked for.
    FetchingPage,
    /// The rate was limited; the delay is running.
    Waiting,
    /// The cache is being asked whether the current image is there.
    CheckingLocal,
    /// The current image is being fetched.
    Downloading,
    /// The rows of the page are being committed.
    Persisting,
    /// Every channel has been dealt with.
    Finished,
}

/// The mathematical value of what the caller is asked to do.
#[verifier::ext_equal]
pub enum ActionView {
    FetchPage { channel_id: u64, before: Option<u64>, limit: u8 },
    Wait { seconds: u64 },
    CheckLocal { file_name: Seq<char> },
    Download { url: Seq<char>, file_name: Seq<char>, timeout_seconds: u64 },
    Commit { rows: Seq<MessageRowView> },
    Finish,
}

/// The mathematical value of what the caller reports.
#[verifier::ext_equal]
pub enum OutcomeView {
    Page { messages: Seq<MessageView> },
    FetchFailed { status: Option<u16>, detail: Seq<char> },
    DelayElapsed,
    LocalFound,
    LocalMissing,
    Saved,
    AttachmentFailed,
    Committed,
    CommitFailed { detail: Seq<char> },
    CommitAborted { detail: Seq<char> },
}

/// The mathematical value of a run.
#[verifier::ext_equal]
pub struct RunView {
    /// The configured channels, as the user wrote them.
    pub channels: Seq<Seq<char>>,
    /// How many of them have been taken up.
    pub next_channel: nat,
    /// The oldest timestamp that is still taken in.
    pub cutoff: i64,
    pub phase: Phase,
    /// The channel that is being scanned.
    pub channel_id: u64,
    /// The oldest message of the page fetched last, if a page was fetched.
    pub cursor: Option<u64>,
    /// The messages of the page that still have images to fetch, the
    /// current one first.
    pub queue: Seq<PlannedMessageView>,
    /// Which download of the current message is under way.
    pub download_index: nat,
    /// The recorded paths of the current message's images so far.
    pub saved: Seq<Seq<char>>,
    /// The rows of the page so far.
    pub batch: Seq<MessageRowView>,
    /// Whether the page held a message from before the cutoff.
    pub reached_older: bool,
    /// Messages fetched, over all channels.
    pub fetched: u64,
    /// Messages handed on for storage, over all channels.
    pub persisted: u64,
    /// Images saved or found in the cache, over all channels.
    pub images: u64,
    /// Messages fetched in the channel that is being scanned.
    pub channel_fetched: u64,
    /// Messages handed on for storage in the channel that is being scanned.
    pub channel_persisted: u64,
    /// Images saved or found in the cache in the channel that is being
    /// scanned.
    pub channel_images: u64,
}

/// A move of the machine: the state it leads to and what the observer is
/// told on the way.
#[verifier::ext_equal]
pub struct Moved {
    pub run: RunView,
    pub events: Seq<EventView>,
}

/// The name under which events of a kind are sent.
pub open spec fn event_name(kind: EventKind) -> Seq<char> {
    match kind {
        EventKind::Status => "indexing-status"@,
        EventKind::Progress => "indexing-progress"@,
        EventKind::Error => "indexing-error"@,
        EventKind::Complete => "indexing-complete"@,
    }
}

pub open spec fn event(kind: EventKind, payload: Seq<char>) -> EventView {
    EventView { kind, payload }
}

pub open spec fn no_channels_text() -> Seq<char> {
    "No channels selected"@
}

pub open spec fn invalid_channel_text(channel: Seq<char>) -> Seq<char> {
    "Invalid channel ID: "@ + channel
}

pub open spec fn starting_text(channel_id: u64) -> Seq<char> {
    "Starting to fetch channel with id: "@ + decimal(channel_id as nat)
}

pub open spec fn fetched_text(fetched: u64) -> Seq<char> {
    "Fetched "@ + decimal(fetched as nat) + " message metadata total"@
}

pub open spec fn downloading_text(filename: Seq<char>, images: u64) -> Seq<char> {
    "Downloading: "@ + filename + "... ("@ + decimal(images as nat) + " indexed)"@
}

pub open spec fn attachments_failed_text(message_id: u64) -> Seq<char> {
    "Failed to process attachments for message "@ + decimal(message_id as nat)
}

pub open spec fn fetch_error_text(channel_id: u64, detail: Seq<char>) -> Seq<char> {
    "Fetch Error "@ + decimal(channel_id as nat) + ": "@ + detail
}

pub open spec fn rate_limited_text() -> Seq<char> {
    "Rate limited, waiting..."@
}

pub open spec fn store_error_text(detail: Seq<char>) -> Seq<char> {
    "DB Error: "@ + detail
}

pub open spec fn task_error_text(detail: Seq<char>) -> Seq<char> {
    "Task Error: "@ + detail
}

pub open spec fn finished_text(persisted: u64) -> Seq<char> {
    "Indexing finished. "@ + decimal(persisted as nat) + " messages with images processed."@
}

/// `a + b`, or the largest count where that is out of reach.
pub open spec fn capped_sum(a: u64, b: nat) -> u64 {
    if a + b > u64::MAX {
        u64::MAX
    } else {
        (a + b) as u64
    }
}

/// A run before its first move.
pub open spec fn initial(channels: Seq<Seq<char>>, cutoff: i64) -> RunView {
    RunView {
        channels,
        next_channel: 0,
        cutoff,
        phase: Phase::Finished,
        channel_id: 0,
        cursor: None,
        queue: Seq::empty(),
        download_index: 0,
        saved: Seq::empty(),
        batch: Seq::empty(),
        reached_older: false,
        fetched: 0,
        persisted: 0,
        images: 0,
        channel_fetched: 0,
        channel_persisted: 0,
        channel_images: 0,
    }
}

/// `run` with nothing left of the page it worked on.
pub open spec fn cleared(run: RunView) -> RunView {
    RunView {
        queue: Seq::empty(),
        download_index: 0,
        saved: Seq::empty(),
        batch: Seq::empty(),
        reached_older: false,
        ..run
    }
}

/// Takes up the next configured channel, whose counts begin at nothing. A
/// channel that is no identifier is reported and passed over;
/// when none is left the run finishes and says how many messages it handed
/// on.
pub open spec fn open_channel(run: RunView) -> Moved
    decreases run.channels.len() - run.next_channel,
{
    if run.next_channel >= run.channels.len() {
        Moved {
            run: RunView { phase: Phase::Finished, ..run },
            events: seq![event(EventKind::Complete, finished_text(run.persisted))],
        }
    } else {
        let text = run.channels[run.next_channel as int];
        let rest = RunView { next_channel: run.next_channel + 1, ..run };
        match identifier_of(text) {
            Some(id) => Moved {
                run: RunView {
                    phase: Phase::FetchingPage,
                    channel_id: id,
                    cursor: None,
                    channel_fetched: 0,
                    channel_persisted: 0,
                    channel_images: 0,
                    ..rest
                },
                events: seq![event(EventKind::Status, starting_text(id))],
            },
            None => Moved {
                run: open_channel(rest).run,
                events: seq![event(EventKind::Error, invalid_channel_text(text))] + open_channel(
                    rest,
                ).events,
            },
        }
    }
}

/// The first move of a run. Without channels there is nothing to do, which
/// is said as a status and is no error.
pub open spec fn started(channels: Seq<Seq<char>>, cutoff: i64) -> Moved {
    if channels.len() == 0 {
        Moved {
            run: initial(channels, cutoff),
            events: seq![event(EventKind::Status, no_channels_text())],
        }
    } else {
        open_channel(initial(channels, cutoff))
    }
}

/// The move after a page has been dealt with: the next older page, or, where
/// the page reached behind the cutoff, the next channel.
pub open spec fn after_page(run: RunView) -> Moved {
    if run.reached_older {
        open_channel(cleared(run))
    } else {
        Moved { run: RunView { phase: Phase::FetchingPage, ..cleared(run) }, events: Seq::empty() }
    }
}

/// The move once no message of the page is left to work on: the rows are
/// committed if there are any.
pub open spec fn settle(run: RunView) -> Moved {
    if run.batch.len() > 0 {
        Moved { run: RunView { phase: Phase::Persisting, ..run }, events: Seq::empty() }
    } else {
        after_page(run)
    }
}

/// Turns to the first download of the message at the head of the queue, or
/// settles the page where the queue is empty.
pub open spec fn next_work(run: RunView) -> Moved {
    if run.queue.len() > 0 {
        Moved {
            run: RunView {
                phase: Phase::CheckingLocal,
                download_index: 0,
                saved: Seq::empty(),
                ..run
            },
            events: Seq::empty(),
        }
    } else {
        settle(RunView { download_index: 0, saved: Seq::empty(), ..run })
    }
}

/// The download that is under way.
pub open spec fn current_download(run: RunView) -> PlannedDownloadView {
    run.queue[0].downloads[run.download_index as int]
}

/// The message at the head of the queue has all its images: its row, with
/// the paths saved for it, joins the batch, and the message is counted.
pub open spec fn concluded(run: RunView) -> RunView {
    RunView {
        queue: run.queue.skip(1),
        batch: run.batch.push(row_for(run.queue[0].message, run.saved)),
        persisted: capped_sum(run.persisted, 1),
        channel_persisted: capped_sum(run.channel_persisted, 1),
        ..run
    }
}

/// `run` with the path of the image under way saved and the image counted.
pub open spec fn counted(run: RunView) -> RunView {
    RunView {
        saved: run.saved.push(current_download(run).relative_path),
        images: capped_sum(run.images, 1),
        channel_images: capped_sum(run.channel_images, 1),
        ..run
    }
}

/// The image under way is in the cache, fetched just now or found there.
/// The run turns to the next image of the message, or, after the last one,
/// concludes the message.
pub open spec fn image_kept(run: RunView) -> Moved {
    if run.download_index + 1 < run.queue[0].downloads.len() {
        Moved {
            run: RunView {
                phase: Phase::CheckingLocal,
                download_index: run.download_index + 1,
                ..counted(run)
            },
            events: Seq::empty(),
        }
    } else {
        next_work(concluded(counted(run)))
    }
}

/// The image under way could not be had. Its message is dropped from the
/// page, whatever was saved for it before, and the observer is told.
pub open spec fn image_failed(run: RunView) -> Moved {
    Moved {
        run: next_work(RunView { queue: run.queue.skip(1), ..run }).run,
        events: seq![
            event(EventKind::Error, attachments_failed_text(run.queue[0].message.id)),
        ] + next_work(RunView { queue: run.queue.skip(1), ..run }).events,
    }
}

/// `run` with a page that is not empty taken in: its messages counted, the
/// cursor set to its oldest message, and its work planned in order of time.
pub open spec fn page_planned(run: RunView, messages: Seq<MessageView>) -> RunView {
    RunView {
        fetched: capped_sum(run.fetched, messages.len()),
        channel_fetched: capped_sum(run.channel_fetched, messages.len()),
        cursor: cursor_after(messages),
        queue: plan_of(sort_by_time(messages), run.cutoff),
        reached_older: holds_older(messages, run.cutoff),
        ..cleared(run)
    }
}

/// A page has arrived. An empty page ends the scan of the channel.
pub open spec fn page_fetched(run: RunView, messages: Seq<MessageView>) -> Moved {
    if messages.len() == 0 {
        open_channel(cleared(run))
    } else {
        Moved {
            run: next_work(page_planned(run, messages)).run,
            events: seq![
                event(EventKind::Progress, fetched_text(page_planned(run, messages).fetched)),
            ] + next_work(page_planned(run, messages)).events,
        }
    }
}

/// A fetch has failed. After a rate limit the same page is asked for again
/// once the delay is over; any other failure ends the scan of the channel.
pub open spec fn fetch_failed(run: RunView, status: Option<u16>, detail: Seq<char>) -> Moved {
    let told = event(EventKind::Error, fetch_error_text(run.channel_id, detail));
    if status == Some(RATE_LIMITED_STATUS) {
        Moved {
            run: RunView { phase: Phase::Waiting, ..run },
            events: seq![told, event(EventKind::Status, rate_limited_text())],
        }
    } else {
        Moved {
            run: open_channel(cleared(run)).run,
            events: seq![told] + open_channel(cleared(run)).events,
        }
    }
}

/// A report that does not answer what was asked changes nothing.
pub open spec fn ignored(run: RunView) -> Moved {
    Moved { run, events: Seq::empty() }
}

/// The move that `outcome` causes in `run`.
pub open spec fn step_of(run: RunView, outcome: OutcomeView) -> Moved {
    match run.phase {
        Phase::FetchingPage => match outcome {
            OutcomeView::Page { messages } => page_fetched(run, messages),
            OutcomeView::FetchFailed { status, detail } => fetch_failed(run, status, detail),
            _ => ignored(run),
        },
        Phase::Waiting => match outcome {
            OutcomeView::DelayElapsed => Moved {
                run: RunView { phase: Phase::FetchingPage, ..run },
                events: Seq::empty(),
            },
            _ => ignored(run),
        },
        Phase::CheckingLocal => match outcome {
            OutcomeView::LocalFound => image_kept(run),
            OutcomeView::LocalMissing => Moved {
                run: RunView { phase: Phase::Downloading, ..run },
                events: seq![
                    event(
                        EventKind::Status,
                        downloading_text(current_download(run).filename, run.images),
                    ),
                ],
            },
            OutcomeView::AttachmentFailed => image_failed(run),
            _ => ignored(run),
        },
        Phase::Downloading => match outcome {
            OutcomeView::Saved => image_kept(run),
            OutcomeView::AttachmentFailed => image_failed(run),
            _ => ignored(run),
        },
        Phase::Persisting => match outcome {
            OutcomeView::Committed => after_page(run),
            OutcomeView::CommitFailed { detail } => Moved {
                run: after_page(run).run,
                events: seq![event(EventKind::Error, store_error_text(detail))] + after_page(
                    run,
                ).events,
            },
            OutcomeView::CommitAborted { detail } => Moved {
                run: after_page(run).run,
                events: seq![event(EventKind::Error, task_error_text(detail))] + after_page(
                    run,
                ).events,
            },
            _ => ignored(run),
        },
        Phase::Finished => ignored(run),
    }
}

/// What a run in this state asks its caller to do.
pub open spec fn action_of(run: RunView) -> ActionView {
    match run.phase {
        Phase::FetchingPage => ActionView::FetchPage {
            channel_id: run.channel_id,
            before: run.cursor,
            limit: PAGE_LIMIT,
        },
        Phase::Waiting => ActionView::Wait { seconds: RATE_LIMIT_DELAY_SECONDS },
        Phase::CheckingLocal => ActionView::CheckLocal {
            file_name: current_download(run).file_name,
        },
        Phase::Downloading => ActionView::Download {
            url: current_download(run).url,
            file_name: current_download(run).file_name,
            timeout_seconds: DOWNLOAD_TIMEOUT_SECONDS,
        },
        Phase::Persisting => ActionView::Commit { rows: run.batch },
        Phase::Finished => ActionView::Finish,
    }
}

/// The recorded paths of a list of downloads, in their order.
pub open spec fn paths_of(downloads: Seq<PlannedDownloadView>) -> Seq<Seq<char>> {
    Seq::new(downloads.len(), |i: int| downloads[i].relative_path)
}

/// Whether `planned` is what its message adds to the work of a page: the
/// message lies inside the window and the downloads are those of all its
/// qualifying attachments, of which there is one at least.
pub open spec fn is_planned(planned: PlannedMessageView, cutoff: i64) -> bool {
    plan_message(planned.message, cutoff) == Some(planned)
}

/// Whether `row` is the row of a message inside the window, with the
/// recorded paths of all its qualifying images and of nothing else.
pub open spec fn is_complete_row(row: MessageRowView, cutoff: i64) -> bool {
    exists|m: MessageView| #[trigger]
        plan_message(m, cutoff) is Some && row_for(m, paths_of(downloads_of(m))) == row
}

/// What holds of every state that a run can reach, whatever it waits for.
/// No more channels are taken up than there are, and no count of a channel
/// is above that of the run. The queue holds planned messages only, and the
/// batch complete rows only.
pub open spec fn sound(run: RunView) -> bool {
    &&& run.next_channel <= run.channels.len()
    &&& run.channel_fetched <= run.fetched
    &&& run.channel_persisted <= run.persisted
    &&& run.channel_images <= run.images
    &&& forall|i: int| 0 <= i < run.queue.len() ==> is_planned(#[trigger] run.queue[i], run.cutoff)
    &&& forall|i: int|
        0 <= i < run.batch.len() ==> is_complete_row(#[trigger] run.batch[i], run.cutoff)
}

/// What holds of every state that a run can reach. While an image is looked
/// for or fetched, it is a download of the message at the head of the queue,
/// and the paths saved for that message are those of its downloads before.
/// What is committed is a batch that is not empty, once no message of the
/// page is left to work on. At all other times nothing of a page is left.
/// Until the run has finished, the channel it scans has an identifier.
pub open spec fn well_formed(run: RunView) -> bool {
    &&& sound(run)
    &&& run.phase != Phase::Finished ==> crate::message::identifier(run.channel_id)
    &&& match run.phase {
        Phase::CheckingLocal | Phase::Downloading => {
            &&& run.queue.len() > 0
            &&& run.download_index < run.queue[0].downloads.len()
            &&& run.saved == paths_of(run.queue[0].downloads.take(run.download_index as int))
        },
        Phase::Persisting => {
            &&& run.queue.len() == 0
            &&& run.batch.len() > 0
        },
        Phase::FetchingPage | Phase::Waiting | Phase::Finished => run == cleared(run),
    }
}

/// Every message in the work of a page is a planned message.
pub proof fn lemma_plan_is_planned(messages: Seq<MessageView>, cutoff: i64, i: int)
    requires
        0 <= i < plan_of(messages, cutoff).len(),
    ensures
        is_planned(plan_of(messages, cutoff)[i], cutoff),
{
    let pick = |m: MessageView| plan_message(m, cutoff);
    let plan = messages.filter_map(pick);
    assert(plan.contains(plan[i]));
    messages.lemma_filter_map_contains(pick, plan[i]);
}

/// Taking up the next channel leads to a well-formed state.
pub proof fn lemma_open_channel_well_formed(run: RunView)
    requires
        sound(run),
        run == cleared(run),
    ensures
        well_formed(open_channel(run).run),
    decreases run.channels.len() - run.next_channel,
{
    if run.next_channel < run.channels.len() {
        let rest = RunView { next_channel: run.next_channel + 1, ..run };
        if identifier_of(run.channels[run.next_channel as int]) is None {
            lemma_open_channel_well_formed(rest);
        }
    }
}

/// A run starts in a well-formed state.
pub proof fn lemma_started_well_formed(channels: Seq<Seq<char>>, cutoff: i64)
    ensures
        well_formed(started(channels, cutoff).run),
{
    lemma_open_channel_well_formed(initial(channels, cutoff));
}

/// Moving on from a page leads to a well-formed state.
pub proof fn lemma_after_page_well_formed(run: RunView)
    requires
        sound(run),
        crate::message::identifier(run.channel_id),
    ensures
        well_formed(after_page(run).run),
{
    lemma_open_channel_well_formed(cleared(run));
}

/// Turning to the next message of a page leads to a well-formed state.
pub proof fn lemma_next_work_well_formed(run: RunView)
    requires
        sound(run),
        crate::message::identifier(run.channel_id),
    ensures
        well_formed(next_work(run).run),
        run.queue.len() == 0 ==> well_formed(settle(run).run),
{
    lemma_after_page_well_formed(run);
    lemma_after_page_well_formed(RunView { download_index: 0, saved: Seq::empty(), ..run });
    if run.queue.len() > 0 {
        assert(is_planned(run.queue[0], run.cutoff));
        assert(paths_of(run.queue[0].downloads.take(0)) == Seq::<Seq<char>>::empty());
    }
}

/// Dropping the message at the head of the queue keeps a state sound.
pub proof fn lemma_queue_tail_sound(run: RunView)
    requires
        sound(run),
        run.queue.len() > 0,
    ensures
        sound(RunView { queue: run.queue.skip(1), ..run }),
{
    let tail = run.queue.skip(1);
    assert forall|i: int| 0 <= i < tail.len() implies is_planned(#[trigger] tail[i], run.cutoff) by {
        assert(tail[i] == run.queue[i + 1]);
    }
}

/// Concluding the message at the head of the queue keeps a state sound, where
/// the paths saved are those of all its downloads.
pub proof fn lemma_concluded_sound(run: RunView)
    requires
        sound(run),
        run.queue.len() > 0,
        run.saved == paths_of(run.queue[0].downloads),
    ensures
        sound(concluded(run)),
{
    lemma_queue_tail_sound(run);
    let m = run.queue[0].message;
    assert(is_planned(run.queue[0], run.cutoff));
    assert(run.queue[0].downloads == downloads_of(m));
    let batch = run.batch.push(row_for(m, run.saved));
    assert forall|i: int| 0 <= i < batch.len() implies is_complete_row(
        #[trigger] batch[i],
        run.cutoff,
    ) by {
        if i < run.batch.len() {
            assert(batch[i] == run.batch[i]);
        } else {
            assert(plan_message(m, run.cutoff) is Some);
        }
    }
}

/// Every move leads from a well-formed state to a well-formed state.
pub proof fn lemma_step_keeps_well_formed(run: RunView, outcome: OutcomeView)
    requires
        well_formed(run),
    ensures
        well_formed(step_of(run, outcome).run),
{
    match run.phase {
        Phase::FetchingPage => {
            lemma_open_channel_well_formed(cleared(run));
            match outcome {
                OutcomeView::Page { messages } => {
                    if messages.len() > 0 {
                        let plan = plan_of(sort_by_time(messages), run.cutoff);
                        assert forall|i: int| 0 <= i < plan.len() implies is_planned(
                            #[trigger] plan[i],
                            run.cutoff,
                        ) by {
                            lemma_plan_is_planned(sort_by_time(messages), run.cutoff, i);
                        }
                        lemma_next_work_well_formed(page_planned(run, messages));
                    }
                },
                _ => {},
            }
        },
        Phase::Waiting => {},
        Phase::CheckingLocal | Phase::Downloading => {
            let downloads = run.queue[0].downloads;
            let kept = counted(run);
            assert(kept.saved == paths_of(downloads.take(run.download_index as int + 1)));
            if run.download_index + 1 == downloads.len() {
                assert(downloads.take(run.download_index as int + 1) == downloads);
                lemma_concluded_sound(kept);
                lemma_next_work_well_formed(concluded(kept));
            }
            lemma_queue_tail_sound(run);
            lemma_next_work_well_formed(RunView { queue: run.queue.skip(1), ..run });
        },
        Phase::Persisting => {
            lemma_after_page_well_formed(run);
        },
        Phase::Finished => {},
    }
}

} // verus!
