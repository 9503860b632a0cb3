//! The executable ingestion run.
//!
//! [`IngestionRun::start`] makes a run and says what to do first. The caller
//! tells the observer the events of each [`Step`], performs its action and
//! passes what happened to [`IngestionRun::step`], until the action is
//! [`Action::Finish`]. Every move is the one that [`crate::ingest`]
//! describes.

use crate::ingest::{
    action_of, after_page, cleared, concluded, event, event_name, fetch_failed, image_failed,
    image_kept, initial, lemma_started_well_formed, lemma_step_keeps_well_formed, next_work,
    open_channel, page_fetched, settle, started, step_of, well_formed, ActionView, EventKind,
    EventView, OutcomeView, Phase, RunView, DOWNLOAD_TIMEOUT_SECONDS, PAGE_LIMIT,
    RATE_LIMITED_STATUS, RATE_LIMIT_DELAY_SECONDS,
};
use crate::message::{parse_identifier, Message};
use crate::page::{lemma_sort_keeps_older, plan_page, sort_page, PlannedMessage};
use crate::persist::{clone_rows, message_row, MessageRow};
use crate::text::{append_decimal, decimal};
use vstd::prelude::*;
use vstd::string::StringExecFns;

verus! {

/// One event for the observer: its kind and what it says.
pub struct ObserverEvent {
    pub kind: EventKind,
    pub payload: String,
}

impl View for ObserverEvent {
    type V = EventView;

    open spec fn view(&self) -> EventView {
        EventView { kind: self.kind, payload: self.payload@ }
    }
}

impl DeepView for ObserverEvent {
    type V = EventView;

    open spec fn deep_view(&self) -> EventView {
        self@
    }
}

impl ObserverEvent {
    /// The name under which the event is sent.
    pub fn name(&self) -> (r: &'static str)
        ensures
            r@ == event_name(self.kind),
    {
        match self.kind {
            EventKind::Status => "indexing-status",
            EventKind::Progress => "indexing-progress",
            EventKind::Error => "indexing-error",
            EventKind::Complete => "indexing-complete",
        }
    }
}

/// What the caller is asked to do next.
pub enum Action {
    /// Fetch at most `limit` messages of the channel, those just before the
    /// message `before`, or the newest where there is no `before`.
    FetchPage { channel_id: u64, before: Option<u64>, limit: u8 },
    /// Let the given time pass.
    Wait { seconds: u64 },
    /// Say whether the cache holds a file of this name.
    CheckLocal { file_name: String },
    /// Fetch the bytes at `url` and write them into the cache under
    /// `file_name`.
    Download { url: String, file_name: String, timeout_seconds: u64 },
    /// Write the rows in one transaction.
    Commit { rows: Vec<MessageRow> },
    /// Nothing: the run is over.
    Finish,
}

impl View for Action {
    type V = ActionView;

    open spec fn view(&self) -> ActionView {
        match self {
            Action::FetchPage { channel_id, before, limit } => ActionView::FetchPage {
                channel_id: *channel_id,
                before: *before,
                limit: *limit,
            },
            Action::Wait { seconds } => ActionView::Wait { seconds: *seconds },
            Action::CheckLocal { file_name } => ActionView::CheckLocal { file_name: file_name@ },
            Action::Download { url, file_name, timeout_seconds } => ActionView::Download {
                url: url@,
                file_name: file_name@,
                timeout_seconds: *timeout_seconds,
            },
            Action::Commit { rows } => ActionView::Commit { rows: rows.deep_view() },
            Action::Finish => ActionView::Finish,
        }
    }
}

/// What the caller reports of the action it was asked for.
pub enum Outcome {
    /// The page that was fetched; empty where the history ends.
    Page { messages: Vec<Message> },
    /// The fetch failed, with this status if the remote service gave one.
    FetchFailed { status: Option<u16>, detail: String },
    /// The time has passed.
    DelayElapsed,
    /// The cache holds the file.
    LocalFound,
    /// The cache does not hold the file.
    LocalMissing,
    /// The bytes were fetched and written.
    Saved,
    /// The file could not be looked for, fetched or written.
    AttachmentFailed,
    /// The transaction was committed.
    Committed,
    /// The store refused the transaction; nothing of it is kept.
    CommitFailed { detail: String },
    /// The work on the store did not come to an end.
    CommitAborted { detail: String },
}

impl View for Outcome {
    type V = OutcomeView;

    open spec fn view(&self) -> OutcomeView {
        match self {
            Outcome::Page { messages } => OutcomeView::Page { messages: messages.deep_view() },
            Outcome::FetchFailed { status, detail } => OutcomeView::FetchFailed {
                status: *status,
                detail: detail@,
            },
            Outcome::DelayElapsed => OutcomeView::DelayElapsed,
            Outcome::LocalFound => OutcomeView::LocalFound,
            Outcome::LocalMissing => OutcomeView::LocalMissing,
            Outcome::Saved => OutcomeView::Saved,
            Outcome::AttachmentFailed => OutcomeView::AttachmentFailed,
            Outcome::Committed => OutcomeView::Committed,
            Outcome::CommitFailed { detail } => OutcomeView::CommitFailed { detail: detail@ },
            Outcome::CommitAborted { detail } => OutcomeView::CommitAborted { detail: detail@ },
        }
    }
}

/// What is reported of a download that the remote service answered with
/// the status `code`: the image is saved where the status says that the
/// fetch went well and the bytes were read and written, and the attachment
/// has failed otherwise.
pub open spec fn download_report(code: u16, stored: bool) -> OutcomeView {
    if crate::download::success_status(code) && stored {
        OutcomeView::Saved
    } else {
        OutcomeView::AttachmentFailed
    }
}

/// What is reported of a download once the status of the answer is known,
/// if that settles it: with a status that does not say that the fetch went
/// well the attachment has failed, and the body need not be read.
pub fn outcome_of_status(code: u16) -> (r: Option<Outcome>)
    ensures
        r is None <==> crate::download::success_status(code),
        r matches Some(outcome) ==> outcome@ == OutcomeView::AttachmentFailed
            && outcome@ == download_report(code, true),
{
    if crate::download::is_success_status(code) {
        None
    } else {
        Some(Outcome::AttachmentFailed)
    }
}

/// What is reported of a download that was answered with the status `code`
/// and whose bytes were, or were not, read and written to the cache.
pub fn outcome_of_download(code: u16, stored: bool) -> (r: Outcome)
    ensures
        r@ == download_report(code, stored),
{
    if crate::download::is_success_status(code) && stored {
        Outcome::Saved
    } else {
        Outcome::AttachmentFailed
    }
}

/// The events of one move and the action that the run now waits for.
pub struct Step {
    pub events: Vec<ObserverEvent>,
    pub action: Action,
}

/// The fields of a run.
struct RunState {
    channels: Vec<String>,
    next_channel: usize,
    cutoff: i64,
    phase: Phase,
    channel_id: u64,
    cursor: Option<u64>,
    queue: Vec<PlannedMessage>,
    download_index: usize,
    saved: Vec<String>,
    batch: Vec<MessageRow>,
    reached_older: bool,
    fetched: u64,
    persisted: u64,
    images: u64,
    channel_fetched: u64,
    channel_persisted: u64,
    channel_images: u64,
}

impl View for RunState {
    type V = RunView;

    closed spec fn view(&self) -> RunView {
        RunView {
            channels: self.channels.deep_view(),
            next_channel: self.next_channel as nat,
            cutoff: self.cutoff,
            phase: self.phase,
            channel_id: self.channel_id,
            cursor: self.cursor,
            queue: self.queue.deep_view(),
            download_index: self.download_index as nat,
            saved: self.saved.deep_view(),
            batch: self.batch.deep_view(),
            reached_older: self.reached_older,
            fetched: self.fetched,
            persisted: self.persisted,
            images: self.images,
            channel_fetched: self.channel_fetched,
            channel_persisted: self.channel_persisted,
            channel_images: self.channel_images,
        }
    }
}

/// Adds an event to those of the move.
fn tell(events: &mut Vec<ObserverEvent>, kind: EventKind, payload: String)
    ensures
        final(events).deep_view() == old(events).deep_view().push(event(kind, payload@)),
{
    let ghost before = events.deep_view();
    events.push(ObserverEvent { kind, payload });
    assert(events.deep_view() == before.push(event(kind, payload@)));
}

/// `lead`, then the numeral of `n`.
fn counted_text(lead: &str, n: u64) -> (text: String)
    ensures
        text@ == lead@ + decimal(n as nat),
{
    let mut text = String::from_str(lead);
    append_decimal(&mut text, n);
    text
}

/// `lead`, then the numeral of `n`, then `tail`.
fn numbered(lead: &str, n: u64, tail: &str) -> (text: String)
    ensures
        text@ == lead@ + decimal(n as nat) + tail@,
{
    let mut text = counted_text(lead, n);
    text.append(tail);
    text
}

/// `lead`, then `rest`.
fn joined(lead: &str, rest: &str) -> (text: String)
    ensures
        text@ == lead@ + rest@,
{
    let mut text = String::from_str(lead);
    text.append(rest);
    text
}

/// The state with nothing left of the page it worked on.
fn clear_page(run: RunState) -> (r: RunState)
    ensures
        r@ == cleared(run@),
{
    RunState {
        queue: Vec::new(),
        download_index: 0,
        saved: Vec::new(),
        batch: Vec::new(),
        reached_older: false,
        ..run
    }
}

/// Takes up the next configured channel that names one.
fn open_next_channel(run: RunState, events: &mut Vec<ObserverEvent>) -> (r: RunState)
    requires
        run.next_channel <= run.channels.len(),
    ensures
        r@ == open_channel(run@).run,
        final(events).deep_view() == old(events).deep_view() + open_channel(run@).events,
{
    let ghost start = run@;
    let ghost told = events.deep_view();
    let mut run = run;
    loop
        invariant_except_break
            run.next_channel <= run.channels.len(),
            open_channel(start).run == open_channel(run@).run,
            told + open_channel(start).events == events.deep_view() + open_channel(run@).events,
        invariant
            told == old(events).deep_view(),
        ensures
            run@ == open_channel(start).run,
            events.deep_view() == told + open_channel(start).events,
        decreases run.channels.len() - run.next_channel,
    {
        let ghost here = run@;
        let ghost so_far = events.deep_view();
        if run.next_channel >= run.channels.len() {
            tell(events, EventKind::Complete, numbered(
                "Indexing finished. ",
                run.persisted,
                " messages with images processed.",
            ));
            run.phase = Phase::Finished;
            assert(events.deep_view() == so_far + open_channel(here).events);
            break;
        }
        let at = run.next_channel;
        assert(run.channels.deep_view()[at as int] == run.channels@[at as int]@);
        match parse_identifier(run.channels[at].as_str()) {
            Some(id) => {
                tell(
                    events,
                    EventKind::Status,
                    counted_text("Starting to fetch channel with id: ", id),
                );
                run.next_channel = at + 1;
                run.phase = Phase::FetchingPage;
                run.channel_id = id;
                run.cursor = None;
                run.channel_fetched = 0;
                run.channel_persisted = 0;
                run.channel_images = 0;
                assert(events.deep_view() == so_far + open_channel(here).events);
                break;
            },
            None => {
                tell(events, EventKind::Error, joined(
                    "Invalid channel ID: ",
                    run.channels[at].as_str(),
                ));
                run.next_channel = at + 1;
                assert(so_far + open_channel(here).events == events.deep_view() + open_channel(
                    run@,
                ).events);
            },
        }
    }
    run
}

/// The move after a page has been dealt with.
fn move_after_page(run: RunState, events: &mut Vec<ObserverEvent>) -> (r: RunState)
    requires
        run.next_channel <= run.channels.len(),
    ensures
        r@ == after_page(run@).run,
        final(events).deep_view() == old(events).deep_view() + after_page(run@).events,
{
    if run.reached_older {
        open_next_channel(clear_page(run), events)
    } else {
        let mut next = clear_page(run);
        next.phase = Phase::FetchingPage;
        assert(events.deep_view() + Seq::<EventView>::empty() == events.deep_view());
        next
    }
}

/// The move once no message of the page is left to work on.
fn settle_page(run: RunState, events: &mut Vec<ObserverEvent>) -> (r: RunState)
    requires
        run.next_channel <= run.channels.len(),
    ensures
        r@ == settle(run@).run,
        final(events).deep_view() == old(events).deep_view() + settle(run@).events,
{
    let ghost told = events.deep_view();
    if run.batch.len() > 0 {
        let mut next = run;
        next.phase = Phase::Persisting;
        assert(told + Seq::<EventView>::empty() == told);
        next
    } else {
        move_after_page(run, events)
    }
}

/// Turns to the message at the head of the queue, or settles the page.
fn take_next_work(run: RunState, events: &mut Vec<ObserverEvent>) -> (r: RunState)
    requires
        run.next_channel <= run.channels.len(),
    ensures
        r@ == next_work(run@).run,
        final(events).deep_view() == old(events).deep_view() + next_work(run@).events,
{
    let mut next = run;
    next.download_index = 0;
    next.saved = Vec::new();
    if next.queue.len() > 0 {
        next.phase = Phase::CheckingLocal;
        assert(events.deep_view() + Seq::<EventView>::empty() == events.deep_view());
        next
    } else {
        settle_page(next, events)
    }
}

/// Drops the message at the head of the queue and hands it out.
fn take_front(run: RunState) -> (r: (RunState, PlannedMessage))
    requires
        run.queue.len() > 0,
    ensures
        r.0@ == (RunView { queue: run@.queue.skip(1), ..run@ }),
        r.1@ == run@.queue[0],
{
    let mut rest = run;
    let ghost before = rest.queue.deep_view();
    let front = rest.queue.remove(0);
    assert(rest.queue.deep_view() == before.skip(1));
    assert(before[0] == front@);
    (rest, front)
}

/// The image under way is in the cache.
fn keep_image(run: RunState, events: &mut Vec<ObserverEvent>) -> (r: RunState)
    requires
        well_formed(run@),
        run.phase == Phase::CheckingLocal || run.phase == Phase::Downloading,
    ensures
        r@ == image_kept(run@).run,
        final(events).deep_view() == old(events).deep_view() + image_kept(run@).events,
{
    let mut counted = run;
    assert(counted.queue.deep_view()[0] == counted.queue@[0]@);
    assert(counted.download_index < counted.queue@[0].downloads.len());
    assert(counted.queue@[0].downloads.deep_view()[counted.download_index as int]
        == counted.queue@[0].downloads@[counted.download_index as int]@);
    let path = counted.queue[0].downloads[counted.download_index].relative_path.clone();
    let ghost before = counted.saved.deep_view();
    counted.saved.push(path);
    assert(counted.saved.deep_view() == before.push(path@));
    counted.images = counted.images.saturating_add(1);
    counted.channel_images = counted.channel_images.saturating_add(1);
    if counted.download_index + 1 < counted.queue[0].downloads.len() {
        counted.download_index = counted.download_index + 1;
        counted.phase = Phase::CheckingLocal;
        assert(events.deep_view() + Seq::<EventView>::empty() == events.deep_view());
        counted
    } else {
        let ghost full = counted@;
        let (mut rest, front) = take_front(counted);
        rest.persisted = rest.persisted.saturating_add(1);
        rest.channel_persisted = rest.channel_persisted.saturating_add(1);
        let mut paths: Vec<String> = Vec::new();
        let ghost kept = rest.saved.deep_view();
        paths.append(&mut rest.saved);
        assert(paths.deep_view() == kept);
        match message_row(&front.message, paths) {
            Ok(row) => {
                let ghost rows = rest.batch.deep_view();
                rest.batch.push(row);
                assert(rest.batch.deep_view() == rows.push(row@));
            },
            Err(_) => {},
        }
        proof {
            let shown = RunView { saved: Seq::empty(), download_index: 0, ..concluded(full) };
            assert(next_work(concluded(full)) == next_work(shown));
            let mine = RunView { saved: Seq::empty(), download_index: 0, ..rest@ };
            assert(mine == shown);
            assert(next_work(rest@) == next_work(mine));
        }
        take_next_work(rest, events)
    }
}

/// The image under way could not be had.
fn fail_image(run: RunState, events: &mut Vec<ObserverEvent>) -> (r: RunState)
    requires
        well_formed(run@),
        run.phase == Phase::CheckingLocal || run.phase == Phase::Downloading,
    ensures
        r@ == image_failed(run@).run,
        final(events).deep_view() == old(events).deep_view() + image_failed(run@).events,
{
    let ghost told = events.deep_view();
    let (rest, front) = take_front(run);
    tell(
        events,
        EventKind::Error,
        counted_text("Failed to process attachments for message ", front.message.id),
    );
    let r = take_next_work(rest, events);
    assert(events.deep_view() == told + image_failed(run@).events);
    r
}

/// A page has arrived.
fn take_page(run: RunState, messages: Vec<Message>, events: &mut Vec<ObserverEvent>) -> (r:
    RunState)
    requires
        run.next_channel <= run.channels.len(),
    ensures
        r@ == page_fetched(run@, messages.deep_view()).run,
        final(events).deep_view() == old(events).deep_view() + page_fetched(
            run@,
            messages.deep_view(),
        ).events,
{
    if messages.len() == 0 {
        return open_next_channel(clear_page(run), events);
    }
    let ghost told = events.deep_view();
    let ghost page = messages.deep_view();
    let messages_len = messages.len();
    let fetched = run.fetched.saturating_add(messages_len as u64);
    tell(events, EventKind::Progress, numbered("Fetched ", fetched, " message metadata total"));
    let cutoff = run.cutoff;
    let sorted = sort_page(messages);
    proof {
        crate::page::lemma_sort_by_time(page);
        lemma_sort_keeps_older(page, cutoff);
        assert(sorted.deep_view()[0] == sorted@[0]@);
    }
    let cursor = Some(sorted[0].id);
    let (queue, older) = plan_page(sorted, cutoff);
    let mut planned = clear_page(run);
    planned.channel_fetched = planned.channel_fetched.saturating_add(messages_len as u64);
    planned.fetched = fetched;
    planned.cursor = cursor;
    planned.queue = queue;
    planned.reached_older = older;
    let r = take_next_work(planned, events);
    assert(events.deep_view() == told + page_fetched(run@, page).events);
    r
}

/// A fetch has failed.
fn take_fetch_failure(
    run: RunState,
    status: Option<u16>,
    detail: String,
    events: &mut Vec<ObserverEvent>,
) -> (r: RunState)
    requires
        run.next_channel <= run.channels.len(),
    ensures
        r@ == fetch_failed(run@, status, detail@).run,
        final(events).deep_view() == old(events).deep_view() + fetch_failed(
            run@,
            status,
            detail@,
        ).events,
{
    let ghost told = events.deep_view();
    let mut text = numbered("Fetch Error ", run.channel_id, ": ");
    text.append(detail.as_str());
    tell(events, EventKind::Error, text);
    let limited = match status {
        Some(code) => code == RATE_LIMITED_STATUS,
        None => false,
    };
    if limited {
        tell(events, EventKind::Status, String::from_str("Rate limited, waiting..."));
        let mut next = run;
        next.phase = Phase::Waiting;
        assert(events.deep_view() == told + fetch_failed(run@, status, detail@).events);
        next
    } else {
        let r = open_next_channel(clear_page(run), events);
        assert(events.deep_view() == told + fetch_failed(run@, status, detail@).events);
        r
    }
}

/// The move that `outcome` causes.
fn move_state(run: RunState, outcome: Outcome, events: &mut Vec<ObserverEvent>) -> (r: RunState)
    requires
        well_formed(run@),
    ensures
        r@ == step_of(run@, outcome@).run,
        final(events).deep_view() == old(events).deep_view() + step_of(run@, outcome@).events,
{
    let ghost told = events.deep_view();
    assert(told + Seq::<EventView>::empty() == told);
    match run.phase {
        Phase::FetchingPage => match outcome {
            Outcome::Page { messages } => take_page(run, messages, events),
            Outcome::FetchFailed { status, detail } => take_fetch_failure(
                run,
                status,
                detail,
                events,
            ),
            _ => run,
        },
        Phase::Waiting => match outcome {
            Outcome::DelayElapsed => {
                let mut next = run;
                next.phase = Phase::FetchingPage;
                next
            },
            _ => run,
        },
        Phase::CheckingLocal => match outcome {
            Outcome::LocalFound => keep_image(run, events),
            Outcome::LocalMissing => {
                assert(run.queue.deep_view()[0] == run.queue@[0]@);
                assert(run.queue@[0].downloads.deep_view()[run.download_index as int]
                    == run.queue@[0].downloads@[run.download_index as int]@);
                let mut text = String::from_str("Downloading: ");
                text.append(run.queue[0].downloads[run.download_index].filename.as_str());
                text.append("... (");
                append_decimal(&mut text, run.images);
                text.append(" indexed)");
                tell(events, EventKind::Status, text);
                let mut next = run;
                next.phase = Phase::Downloading;
                assert(events.deep_view() == told + step_of(run@, outcome@).events);
                next
            },
            Outcome::AttachmentFailed => fail_image(run, events),
            _ => run,
        },
        Phase::Downloading => match outcome {
            Outcome::Saved => keep_image(run, events),
            Outcome::AttachmentFailed => fail_image(run, events),
            _ => run,
        },
        Phase::Persisting => match outcome {
            Outcome::Committed => move_after_page(run, events),
            Outcome::CommitFailed { detail } => {
                tell(events, EventKind::Error, joined("DB Error: ", detail.as_str()));
                let r = move_after_page(run, events);
                assert(events.deep_view() == told + step_of(run@, outcome@).events);
                r
            },
            Outcome::CommitAborted { detail } => {
                tell(events, EventKind::Error, joined("Task Error: ", detail.as_str()));
                let r = move_after_page(run, events);
                assert(events.deep_view() == told + step_of(run@, outcome@).events);
                r
            },
            _ => run,
        },
        Phase::Finished => run,
    }
}

/// What a run in this state asks its caller to do.
fn state_action(run: &RunState) -> (action: Action)
    requires
        well_formed(run@),
    ensures
        action@ == action_of(run@),
{
    match run.phase {
        Phase::FetchingPage => Action::FetchPage {
            channel_id: run.channel_id,
            before: run.cursor,
            limit: PAGE_LIMIT,
        },
        Phase::Waiting => Action::Wait { seconds: RATE_LIMIT_DELAY_SECONDS },
        Phase::CheckingLocal => {
            assert(run.queue.deep_view()[0] == run.queue@[0]@);
            assert(run.queue@[0].downloads.deep_view()[run.download_index as int]
                == run.queue@[0].downloads@[run.download_index as int]@);
            Action::CheckLocal {
                file_name: run.queue[0].downloads[run.download_index].file_name.clone(),
            }
        },
        Phase::Downloading => {
            assert(run.queue.deep_view()[0] == run.queue@[0]@);
            assert(run.queue@[0].downloads.deep_view()[run.download_index as int]
                == run.queue@[0].downloads@[run.download_index as int]@);
            Action::Download {
                url: run.queue[0].downloads[run.download_index].url.clone(),
                file_name: run.queue[0].downloads[run.download_index].file_name.clone(),
                timeout_seconds: DOWNLOAD_TIMEOUT_SECONDS,
            }
        },
        Phase::Persisting => Action::Commit { rows: clone_rows(&run.batch) },
        Phase::Finished => Action::Finish,
    }
}

/// One ingestion run over the configured channels.
pub struct IngestionRun {
    state: RunState,
}

impl View for IngestionRun {
    type V = RunView;

    closed spec fn view(&self) -> RunView {
        self.state@
    }
}

impl IngestionRun {
    #[verifier::type_invariant]
    spec fn sound(self) -> bool {
        well_formed(self.state@)
    }

    /// Starts a run over `channels` that takes in messages from `cutoff` on,
    /// and says what to do first.
    pub fn start(channels: Vec<String>, cutoff: i64) -> (r: (IngestionRun, Step))
        ensures
            r.0@ == started(channels.deep_view(), cutoff).run,
            r.1.events.deep_view() == started(channels.deep_view(), cutoff).events,
            r.1.action@ == action_of(r.0@),
            well_formed(r.0@),
    {
        let mut events: Vec<ObserverEvent> = Vec::new();
        let none = channels.len() == 0;
        let fresh = RunState {
            channels,
            next_channel: 0,
            cutoff,
            phase: Phase::Finished,
            channel_id: 0,
            cursor: None,
            queue: Vec::new(),
            download_index: 0,
            saved: Vec::new(),
            batch: Vec::new(),
            reached_older: false,
            fetched: 0,
            persisted: 0,
            images: 0,
            channel_fetched: 0,
            channel_persisted: 0,
            channel_images: 0,
        };
        assert(fresh@ == initial(fresh@.channels, cutoff));
        let state = if none {
            tell(&mut events, EventKind::Status, String::from_str("No channels selected"));
            fresh
        } else {
            open_next_channel(fresh, &mut events)
        };
        proof {
            lemma_started_well_formed(fresh@.channels, cutoff);
            assert(Seq::<EventView>::empty() + started(fresh@.channels, cutoff).events == started(
                fresh@.channels,
                cutoff,
            ).events);
        }
        let action = state_action(&state);
        (IngestionRun { state }, Step { events, action })
    }

    /// Takes in what happened and says what to do next. A report that does
    /// not answer the action asked for is ignored, and the action is asked
    /// for again.
    pub fn step(self, outcome: Outcome) -> (r: (IngestionRun, Step))
        ensures
            r.0@ == step_of(self@, outcome@).run,
            r.1.events.deep_view() == step_of(self@, outcome@).events,
            r.1.action@ == action_of(r.0@),
            well_formed(r.0@),
    {
        proof {
            use_type_invariant(&self);
            lemma_step_keeps_well_formed(self@, outcome@);
        }
        let mut events: Vec<ObserverEvent> = Vec::new();
        let state = move_state(self.state, outcome, &mut events);
        assert(Seq::<EventView>::empty() + step_of(self@, outcome@).events == step_of(
            self@,
            outcome@,
        ).events);
        let action = state_action(&state);
        (IngestionRun { state }, Step { events, action })
    }

    /// The action that the run waits for.
    pub fn action(&self) -> (action: Action)
        ensures
            action@ == action_of(self@),
    {
        proof {
            use_type_invariant(self);
        }
        state_action(&self.state)
    }

    /// What the run waits for.
    pub fn phase(&self) -> (phase: Phase)
        ensures
            phase == self@.phase,
    {
        self.state.phase
    }

    /// Whether every channel has been dealt with.
    pub fn is_finished(&self) -> (done: bool)
        ensures
            done == (self@.phase == Phase::Finished),
    {
        match self.state.phase {
            Phase::Finished => true,
            _ => false,
        }
    }

    /// The channel that is being scanned.
    pub fn channel_id(&self) -> (id: u64)
        ensures
            id == self@.channel_id,
    {
        self.state.channel_id
    }

    /// The oldest message of the page fetched last in the current channel.
    pub fn cursor(&self) -> (cursor: Option<u64>)
        ensures
            cursor == self@.cursor,
    {
        self.state.cursor
    }

    /// The oldest timestamp that is still taken in.
    pub fn cutoff(&self) -> (cutoff: i64)
        ensures
            cutoff == self@.cutoff,
    {
        self.state.cutoff
    }

    /// Messages fetched so far.
    pub fn fetched(&self) -> (n: u64)
        ensures
            n == self@.fetched,
    {
        self.state.fetched
    }

    /// Messages handed on for storage so far.
    pub fn persisted(&self) -> (n: u64)
        ensures
            n == self@.persisted,
    {
        self.state.persisted
    }

    /// Images saved or found in the cache so far.
    pub fn images(&self) -> (n: u64)
        ensures
            n == self@.images,
    {
        self.state.images
    }

    /// Messages fetched so far in the channel that is being scanned.
    pub fn channel_fetched(&self) -> (n: u64)
        ensures
            n == self@.channel_fetched,
    {
        self.state.channel_fetched
    }

    /// Messages handed on for storage so far in the channel that is being
    /// scanned.
    pub fn channel_persisted(&self) -> (n: u64)
        ensures
            n == self@.channel_persisted,
    {
        self.state.channel_persisted
    }

    /// Images saved or found in the cache so far in the channel that is being
    /// scanned.
    pub fn channel_images(&self) -> (n: u64)
        ensures
            n == self@.channel_images,
    {
        self.state.channel_images
    }
}

} // verus!
