//! What holds of every run, stated over the moves of [`crate::ingest`].

use crate::cutoff::within;
use crate::ingest::{
    action_of, after_page, attachments_failed_text, cleared, concluded, current_download, event,
    fetch_error_text, image_failed, image_kept, is_complete_row, next_work, open_channel,
    rate_limited_text, settle, step_of, well_formed, ActionView, EventKind, OutcomeView, Phase,
    RunView, RATE_LIMITED_STATUS, RATE_LIMIT_DELAY_SECONDS,
};
use crate::message::MessageView;
use crate::page::{
    cursor_after, downloads_of, holds_older, lemma_sort_by_time, lemma_sort_keeps_members,
    plan_message, sort_by_time,
};
use crate::persist::MessageRowView;
use vstd::prelude::*;

verus! {

/// Whether two states differ at most in what a move may change within one
/// page: the configuration is the same.
pub open spec fn same_configuration(a: RunView, b: RunView) -> bool {
    a.channels == b.channels && a.cutoff == b.cutoff
}

/// Whether no count of `b` is below that of `a`.
pub open spec fn counts_kept(a: RunView, b: RunView) -> bool {
    a.fetched <= b.fetched && a.persisted <= b.persisted && a.images <= b.images
}

/// Whether the two states count the same.
pub open spec fn same_counts(a: RunView, b: RunView) -> bool {
    a.fetched == b.fetched && a.persisted == b.persisted && a.images == b.images
}

/// Taking up a channel changes neither the configuration nor a count, and
/// never goes back in the list of channels. Unless the run finishes, the
/// channel taken up lies further on in the list and is read from its newest
/// page.
pub proof fn lemma_open_channel(run: RunView)
    requires
        run.next_channel <= run.channels.len(),
    ensures
        same_configuration(run, open_channel(run).run),
        same_counts(run, open_channel(run).run),
        open_channel(run).run.phase == Phase::Finished || open_channel(run).run.phase
            == Phase::FetchingPage,
        open_channel(run).run.phase == Phase::FetchingPage ==> {
            &&& open_channel(run).run.next_channel > run.next_channel
            &&& open_channel(run).run.cursor is None
        },
        open_channel(run).run.phase == Phase::Finished ==> open_channel(run).run.next_channel
            == run.channels.len(),
        open_channel(run).run.next_channel <= run.channels.len(),
    decreases run.channels.len() - run.next_channel,
{
    if run.next_channel < run.channels.len() {
        let rest = RunView { next_channel: run.next_channel + 1, ..run };
        if crate::message::identifier_of(run.channels[run.next_channel as int]) is None {
            lemma_open_channel(rest);
        }
    }
}

/// No move changes the channels or the cutoff of a run, and no count ever
/// goes down.
pub proof fn lemma_step_keeps_configuration(run: RunView, outcome: OutcomeView)
    requires
        well_formed(run),
    ensures
        same_configuration(run, step_of(run, outcome).run),
        counts_kept(run, step_of(run, outcome).run),
{
    lemma_moves(run);
    match run.phase {
        Phase::FetchingPage => {
            match outcome {
                OutcomeView::Page { messages } => {
                    if messages.len() > 0 {
                        lemma_moves(crate::ingest::page_planned(run, messages));
                    }
                },
                _ => {},
            }
        },
        Phase::CheckingLocal | Phase::Downloading => {
            lemma_moves(concluded(crate::ingest::counted(run)));
            lemma_moves(RunView { queue: run.queue.skip(1), ..run });
        },
        _ => {},
    }
}

/// The moves between pages and channels change neither the configuration
/// nor a count.
pub proof fn lemma_moves(run: RunView)
    requires
        run.next_channel <= run.channels.len(),
    ensures
        same_configuration(run, after_page(run).run) && same_counts(run, after_page(run).run),
        same_configuration(run, settle(run).run) && same_counts(run, settle(run).run),
        same_configuration(run, next_work(run).run) && same_counts(run, next_work(run).run),
        same_configuration(run, open_channel(cleared(run)).run) && same_counts(
            run,
            open_channel(cleared(run)).run,
        ),
{
    lemma_open_channel(cleared(run));
    lemma_open_channel(cleared(RunView { download_index: 0, saved: Seq::empty(), ..run }));
}

/// The cursor after a page is the identifier of one of its messages. So
/// where the remote service hands out only messages from before the cursor
/// it was asked with, the cursor after the page lies before that cursor.
pub proof fn lemma_cursor_decreases(messages: Seq<MessageView>, before: u64)
    requires
        messages.len() > 0,
        forall|i: int| 0 <= i < messages.len() ==> (#[trigger] messages[i]).id < before,
    ensures
        cursor_after(messages) matches Some(cursor) && cursor < before,
{
    lemma_sort_by_time(messages);
    let oldest = sort_by_time(messages).first();
    assert(sort_by_time(messages).contains(oldest));
    lemma_sort_keeps_members(messages, oldest);
    let i = choose|i: int| 0 <= i < messages.len() && messages[i] == oldest;
    assert(messages[i].id < before);
}

/// Whether every page after the first holds only messages from before the
/// cursor that the page before it left.
pub open spec fn pages_follow_cursor(pages: Seq<Seq<MessageView>>) -> bool {
    forall|k: int, i: int|
        0 < k < pages.len() && 0 <= i < pages[k].len() ==> cursor_after(pages[k - 1]) is Some && (
        #[trigger] pages[k][i]).id < cursor_after(pages[k - 1])->0
}

/// Over any sequence of pages that are not empty and follow the cursor, the
/// cursor goes strictly down: a later page never leaves a cursor that
/// matches or exceeds that of an earlier one.
pub proof fn lemma_cursors_decrease(pages: Seq<Seq<MessageView>>, j: int, k: int)
    requires
        forall|p: int| 0 <= p < pages.len() ==> (#[trigger] pages[p]).len() > 0,
        pages_follow_cursor(pages),
        0 <= j < k < pages.len(),
    ensures
        cursor_after(pages[j]) is Some,
        cursor_after(pages[k]) is Some,
        cursor_after(pages[k])->0 < cursor_after(pages[j])->0,
    decreases k - j,
{
    assert(pages[j].len() > 0 && pages[k].len() > 0 && pages[k - 1].len() > 0);
    assert forall|i: int| 0 <= i < pages[k].len() implies (#[trigger] pages[k][i]).id
        < cursor_after(pages[k - 1])->0 by {}
    lemma_cursor_decreases(pages[k], cursor_after(pages[k - 1])->0);
    if j < k - 1 {
        lemma_cursors_decrease(pages, j, k - 1);
    }
}

/// Within a channel the cursor moves only when a page arrives, and then it
/// becomes the cursor after that page: as long as a move neither takes up
/// another channel nor ends the run, any other report leaves channel and
/// cursor as they were.
pub proof fn lemma_cursor_moves_with_pages(run: RunView, outcome: OutcomeView)
    requires
        well_formed(run),
        step_of(run, outcome).run.next_channel == run.next_channel,
        step_of(run, outcome).run.phase != Phase::Finished,
    ensures
        step_of(run, outcome).run.channel_id == run.channel_id,
        step_of(run, outcome).run.cursor == (if run.phase == Phase::FetchingPage
            && outcome is Page && outcome->messages.len() > 0 {
            cursor_after(outcome->messages)
        } else {
            run.cursor
        }),
{
    lemma_open_channel(cleared(run));
    match run.phase {
        Phase::FetchingPage => {
            match outcome {
                OutcomeView::Page { messages } => {
                    if messages.len() > 0 {
                        let planned = crate::ingest::page_planned(run, messages);
                        lemma_open_channel(cleared(planned));
                        lemma_open_channel(
                            cleared(
                                RunView { download_index: 0, saved: Seq::empty(), ..planned },
                            ),
                        );
                    }
                },
                _ => {},
            }
        },
        Phase::CheckingLocal | Phase::Downloading => {
            let done = concluded(crate::ingest::counted(run));
            lemma_open_channel(cleared(RunView { download_index: 0, saved: Seq::empty(), ..done }));
            let dropped = RunView { queue: run.queue.skip(1), ..run };
            lemma_open_channel(
                cleared(RunView { download_index: 0, saved: Seq::empty(), ..dropped }),
            );
        },
        _ => {},
    }
}

/// When the remote service limits the rate, the run tells the observer,
/// waits the fixed delay and asks for the same page again: after the delay
/// the run is in the state in which the fetch failed, with the same channel
/// and cursor and the same counts.
pub proof fn lemma_rate_limit_retries(run: RunView, detail: Seq<char>)
    requires
        run.phase == Phase::FetchingPage,
    ensures
        ({
            let failed = step_of(
                run,
                OutcomeView::FetchFailed { status: Some(RATE_LIMITED_STATUS), detail },
            );
            let resumed = step_of(failed.run, OutcomeView::DelayElapsed);
            &&& failed.events == seq![
                event(EventKind::Error, fetch_error_text(run.channel_id, detail)),
                event(EventKind::Status, rate_limited_text()),
            ]
            &&& action_of(failed.run) == (ActionView::Wait { seconds: RATE_LIMIT_DELAY_SECONDS })
            &&& resumed.run == run
            &&& resumed.events.len() == 0
            &&& action_of(resumed.run) == action_of(run)
        }),
{
}

/// A fetch that fails for another reason than a rate limit ends the scan of
/// the channel: the failure is told, nothing is asked of the channel again,
/// and the run takes up the next channel or finishes.
pub proof fn lemma_fetch_failure_ends_channel(
    run: RunView,
    status: Option<u16>,
    detail: Seq<char>,
)
    requires
        well_formed(run),
        run.phase == Phase::FetchingPage,
        status != Some(RATE_LIMITED_STATUS),
    ensures
        ({
            let failed = step_of(run, OutcomeView::FetchFailed { status, detail });
            &&& failed.events[0] == event(
                EventKind::Error,
                fetch_error_text(run.channel_id, detail),
            )
            &&& failed.run.phase == Phase::Finished || failed.run.next_channel > run.next_channel
            &&& same_counts(run, failed.run)
        }),
{
    lemma_open_channel(cleared(run));
}

/// After the attempt to commit a page, whether it went well or not, the run
/// goes on: with the next older page of the channel, or, where the page held
/// a message from before the cutoff, with the next channel. A failed commit
/// is told and ends nothing.
pub proof fn lemma_commit_attempt_moves_on(run: RunView, outcome: OutcomeView)
    requires
        well_formed(run),
        run.phase == Phase::Persisting,
        outcome is Committed || outcome is CommitFailed || outcome is CommitAborted,
    ensures
        ({
            let next = step_of(run, outcome).run;
            &&& same_counts(run, next)
            &&& !run.reached_older ==> {
                &&& next.phase == Phase::FetchingPage
                &&& next.channel_id == run.channel_id
                &&& next.cursor == run.cursor
                &&& next.next_channel == run.next_channel
            }
            &&& run.reached_older ==> next.phase == Phase::Finished || next.next_channel
                > run.next_channel
        }),
{
    lemma_open_channel(cleared(run));
}

/// An empty page ends the scan of a channel.
pub proof fn lemma_empty_page_ends_channel(run: RunView)
    requires
        well_formed(run),
        run.phase == Phase::FetchingPage,
    ensures
        ({
            let next = step_of(run, OutcomeView::Page { messages: Seq::empty() }).run;
            &&& next.phase == Phase::Finished || next.next_channel > run.next_channel
            &&& same_counts(run, next)
        }),
{
    lemma_open_channel(cleared(run));
}

/// Whatever is handed over to be committed belongs to messages inside the
/// window and leaves out none of their images: every row has a timestamp at
/// or after the cutoff and at least one path, and is the row of a message
/// with the recorded paths of all its qualifying images.
pub proof fn lemma_commit_holds_window(run: RunView, i: int)
    requires
        well_formed(run),
        action_of(run) is Commit,
        0 <= i < action_of(run)->rows.len(),
    ensures
        is_complete_row(action_of(run)->rows[i], run.cutoff),
        within(action_of(run)->rows[i].timestamp, run.cutoff),
        action_of(run)->rows[i].paths.len() > 0,
{
    let row = run.batch[i];
    assert(is_complete_row(row, run.cutoff));
    lemma_complete_row(row, run.cutoff);
}

/// A complete row lies inside the window and names one image at least.
pub proof fn lemma_complete_row(row: MessageRowView, cutoff: i64)
    requires
        is_complete_row(row, cutoff),
    ensures
        within(row.timestamp, cutoff),
        row.paths.len() > 0,
{
    let m = choose|m: MessageView| #[trigger]
        plan_message(m, cutoff) is Some && crate::persist::row_for(
            m,
            crate::ingest::paths_of(downloads_of(m)),
        ) == row;
    assert(row.paths == crate::ingest::paths_of(downloads_of(m)));
}

/// An image that the cache holds is not fetched: when the cache reports the
/// file, the run records its path and does not ask for a download of it.
pub proof fn lemma_cached_image_is_not_fetched(run: RunView)
    requires
        well_formed(run),
        run.phase == Phase::CheckingLocal,
    ensures
        !(action_of(step_of(run, OutcomeView::LocalFound).run) is Download),
        step_of(run, OutcomeView::LocalFound).events.len() == 0 || step_of(
            run,
            OutcomeView::LocalFound,
        ).run.phase != Phase::CheckingLocal,
{
    lemma_open_channel(cleared(run));
    let done = concluded(crate::ingest::counted(run));
    lemma_open_channel(cleared(RunView { download_index: 0, saved: Seq::empty(), ..done }));
}

/// Finding an image in the cache leads to the state that fetching it leads
/// to: the same path is recorded for it either way.
pub proof fn lemma_cached_is_as_fetched(run: RunView)
    requires
        run.phase == Phase::CheckingLocal,
    ensures
        ({
            let asked = step_of(run, OutcomeView::LocalMissing).run;
            &&& action_of(asked) == (ActionView::Download {
                url: current_download(run).url,
                file_name: current_download(run).file_name,
                timeout_seconds: crate::ingest::DOWNLOAD_TIMEOUT_SECONDS,
            })
            &&& step_of(asked, OutcomeView::Saved).run == step_of(run, OutcomeView::LocalFound).run
        }),
{
    let asked = RunView { phase: Phase::Downloading, ..run };
    let found = concluded(crate::ingest::counted(run));
    assert(concluded(crate::ingest::counted(asked)) == (RunView {
        phase: Phase::Downloading,
        ..found
    }));
    lemma_phase_is_overwritten(found, Phase::Downloading);
}

/// What a run waited for does not matter to where it goes once the work on a
/// message or a page is done.
pub proof fn lemma_phase_is_overwritten(run: RunView, phase: Phase)
    ensures
        open_channel(RunView { phase, ..run }) == open_channel(run),
        after_page(RunView { phase, ..run }) == after_page(run),
        settle(RunView { phase, ..run }) == settle(run),
        next_work(RunView { phase, ..run }) == next_work(run),
{
    lemma_open_channel_overwrites_phase(run, phase);
    lemma_open_channel_overwrites_phase(cleared(run), phase);
    assert(cleared(RunView { phase, ..run }) == (RunView { phase, ..cleared(run) }));
    let reset = RunView { download_index: 0, saved: Seq::empty(), ..run };
    lemma_open_channel_overwrites_phase(cleared(reset), phase);
    assert(cleared(RunView { phase, ..reset }) == (RunView { phase, ..cleared(reset) }));
    assert(after_page(RunView { phase, ..run }) == after_page(run));
    assert(after_page(RunView { phase, ..reset }) == after_page(reset));
    assert(settle(RunView { phase, ..run }) == settle(run));
    assert(settle(RunView { phase, ..reset }) == settle(reset));
    assert((RunView { download_index: 0, saved: Seq::empty(), ..(RunView { phase, ..run }) }) == (
    RunView { phase, ..reset }));
}

/// What a run waited for does not matter to the channel it takes up next.
pub proof fn lemma_open_channel_overwrites_phase(run: RunView, phase: Phase)
    ensures
        open_channel(RunView { phase, ..run }) == open_channel(run),
    decreases run.channels.len() - run.next_channel,
{
    if run.next_channel < run.channels.len() {
        let rest = RunView { next_channel: run.next_channel + 1, ..run };
        if crate::message::identifier_of(run.channels[run.next_channel as int]) is None {
            lemma_open_channel_overwrites_phase(rest, phase);
            assert((RunView { next_channel: run.next_channel + 1, ..(RunView { phase, ..run }) })
                == (RunView { phase, ..rest }));
        }
    }
}

/// An image that cannot be had costs its message its place in the page: the
/// observer is told which message it was, and the message is not counted as
/// handed on, whatever was saved for it before.
pub proof fn lemma_failed_image_drops_message(run: RunView)
    requires
        well_formed(run),
        run.phase == Phase::CheckingLocal || run.phase == Phase::Downloading,
    ensures
        ({
            let failed = step_of(run, OutcomeView::AttachmentFailed);
            &&& failed.events[0] == event(
                EventKind::Error,
                attachments_failed_text(run.queue[0].message.id),
            )
            &&& same_counts(run, failed.run)
            &&& failed.run == next_work(RunView { queue: run.queue.skip(1), ..run }).run
        }),
{
    lemma_moves(RunView { queue: run.queue.skip(1), ..run });
}

/// A page that holds a message from before the cutoff is the last one asked
/// of its channel: once its work is done the run takes up the next channel
/// or finishes, and older pages of the channel are never fetched.
pub proof fn lemma_older_page_is_last(run: RunView, messages: Seq<MessageView>)
    requires
        well_formed(run),
        run.phase == Phase::FetchingPage,
        holds_older(messages, run.cutoff),
    ensures
        ({
            let next = step_of(run, OutcomeView::Page { messages }).run;
            next.phase == Phase::Finished || next.next_channel > run.next_channel
                || next.reached_older
        }),
{
    lemma_open_channel(cleared(run));
    if messages.len() > 0 {
        let planned = crate::ingest::page_planned(run, messages);
        lemma_open_channel(cleared(planned));
        lemma_open_channel(cleared(RunView { download_index: 0, saved: Seq::empty(), ..planned }));
    }
}

/// Within a page the mark of an older message stays until the page is done:
/// no report on an image removes it.
pub proof fn lemma_older_mark_stays(run: RunView, outcome: OutcomeView)
    requires
        well_formed(run),
        run.reached_older,
        run.phase != Phase::FetchingPage,
        run.phase != Phase::Waiting,
    ensures
        ({
            let next = step_of(run, outcome).run;
            next.phase == Phase::Finished || next.next_channel > run.next_channel
                || next.reached_older
        }),
{
    lemma_open_channel(cleared(run));
    if run.phase == Phase::CheckingLocal || run.phase == Phase::Downloading {
        let done = concluded(crate::ingest::counted(run));
        lemma_open_channel(cleared(RunView { download_index: 0, saved: Seq::empty(), ..done }));
        let dropped = RunView { queue: run.queue.skip(1), ..run };
        lemma_open_channel(cleared(RunView { download_index: 0, saved: Seq::empty(), ..dropped }));
    }
}

/// What making sure of one image comes to: the files that the cache holds
/// afterwards, the path recorded for the image if it is there, and how often
/// the network was asked.
pub struct Ensured {
    pub files: Set<Seq<char>>,
    pub path: Option<Seq<char>>,
    pub downloads: nat,
}

/// Making sure that the image of a download is in a cache that holds
/// `files`. An image that is there is not fetched. One that is not is
/// fetched once; if that succeeds it is in the cache afterwards, and if not
/// there is no path to record.
pub open spec fn ensure_local(
    files: Set<Seq<char>>,
    download: crate::page::PlannedDownloadView,
    fetch_succeeds: bool,
) -> Ensured {
    if files.contains(download.file_name) {
        Ensured { files, path: Some(download.relative_path), downloads: 0 }
    } else if fetch_succeeds {
        Ensured {
            files: files.insert(download.file_name),
            path: Some(download.relative_path),
            downloads: 1,
        }
    } else {
        Ensured { files, path: None, downloads: 1 }
    }
}

/// Making sure of the same image twice records the same path twice and asks
/// the network once at most: never the second time, and the first time only
/// where the cache did not hold the image.
pub proof fn lemma_ensure_local_twice(
    files: Set<Seq<char>>,
    download: crate::page::PlannedDownloadView,
    fetch_succeeds_again: bool,
)
    ensures
        ({
            let first = ensure_local(files, download, true);
            let second = ensure_local(first.files, download, fetch_succeeds_again);
            &&& first.path == Some(download.relative_path)
            &&& second.path == first.path
            &&& second.downloads == 0
            &&& second.files == first.files
            &&& first.downloads + second.downloads == (if files.contains(download.file_name) {
                0nat
            } else {
                1nat
            })
        }),
{
}

/// The moves of a run that waits to hear of an image, where the cache holds
/// `files`: the cache answers, and where it does not hold the image the
/// fetch that the run then asks for succeeds or fails.
pub open spec fn image_moves(run: RunView, files: Set<Seq<char>>, fetch_succeeds: bool)
    -> crate::ingest::Moved {
    if files.contains(current_download(run).file_name) {
        step_of(run, OutcomeView::LocalFound)
    } else {
        let asked = step_of(run, OutcomeView::LocalMissing);
        let answered = step_of(
            asked.run,
            if fetch_succeeds {
                OutcomeView::Saved
            } else {
                OutcomeView::AttachmentFailed
            },
        );
        crate::ingest::Moved { run: answered.run, events: asked.events + answered.events }
    }
}

/// A run makes sure of each image as `ensure_local` says. It asks for a
/// download exactly where `ensure_local` counts one. Where `ensure_local`
/// gives a path, that path is saved for the message and the image is
/// counted; where it gives none, the message is dropped.
pub proof fn lemma_run_ensures_local(run: RunView, files: Set<Seq<char>>, fetch_succeeds: bool)
    requires
        well_formed(run),
        run.phase == Phase::CheckingLocal,
    ensures
        ({
            let ensured = ensure_local(files, current_download(run), fetch_succeeds);
            let first = step_of(
                run,
                if files.contains(current_download(run).file_name) {
                    OutcomeView::LocalFound
                } else {
                    OutcomeView::LocalMissing
                },
            );
            &&& (action_of(first.run) is Download) == (ensured.downloads == 1)
            &&& ensured.path matches Some(path) ==> {
                &&& image_moves(run, files, fetch_succeeds).run == image_kept(run).run
                &&& crate::ingest::counted(run).saved == run.saved.push(path)
            }
            &&& ensured.path is None ==> image_moves(run, files, fetch_succeeds).run
                == image_failed(run).run
        }),
{
    lemma_cached_image_is_not_fetched(run);
    lemma_cached_is_as_fetched(run);
    let asked = RunView { phase: Phase::Downloading, ..run };
    let dropped = RunView { queue: run.queue.skip(1), ..run };
    assert((RunView { queue: asked.queue.skip(1), ..asked }) == (RunView {
        phase: Phase::Downloading,
        ..dropped
    }));
    lemma_phase_is_overwritten(dropped, Phase::Downloading);
}

/// The state of a run after it has taken in `outcomes`, one after the
/// other.
pub open spec fn run_after(run: RunView, outcomes: Seq<OutcomeView>) -> RunView
    decreases outcomes.len(),
{
    if outcomes.len() == 0 {
        run
    } else {
        step_of(run_after(run, outcomes.drop_last()), outcomes.last()).run
    }
}

/// Whatever a run takes in, its state stays well formed, its channels and
/// its cutoff stay what they were, no count goes down, and it never goes
/// back in the list of channels.
pub proof fn lemma_run_stays_sound(run: RunView, outcomes: Seq<OutcomeView>)
    requires
        well_formed(run),
    ensures
        well_formed(run_after(run, outcomes)),
        same_configuration(run, run_after(run, outcomes)),
        counts_kept(run, run_after(run, outcomes)),
        run.next_channel <= run_after(run, outcomes).next_channel,
        run.phase == Phase::Finished ==> run_after(run, outcomes) == run,
    decreases outcomes.len(),
{
    if outcomes.len() > 0 {
        let before = run_after(run, outcomes.drop_last());
        lemma_run_stays_sound(run, outcomes.drop_last());
        crate::ingest::lemma_step_keeps_well_formed(before, outcomes.last());
        lemma_step_keeps_configuration(before, outcomes.last());
        lemma_step_moves_forward(before, outcomes.last());
    }
}

/// No move goes back in the list of channels.
pub proof fn lemma_step_moves_forward(run: RunView, outcome: OutcomeView)
    requires
        well_formed(run),
    ensures
        run.next_channel <= step_of(run, outcome).run.next_channel,
{
    lemma_open_channel(cleared(run));
    match run.phase {
        Phase::FetchingPage => {
            match outcome {
                OutcomeView::Page { messages } => {
                    if messages.len() > 0 {
                        let planned = crate::ingest::page_planned(run, messages);
                        lemma_open_channel(cleared(planned));
                        lemma_open_channel(
                            cleared(
                                RunView { download_index: 0, saved: Seq::empty(), ..planned },
                            ),
                        );
                    }
                },
                _ => {},
            }
        },
        Phase::CheckingLocal | Phase::Downloading => {
            let done = concluded(crate::ingest::counted(run));
            lemma_open_channel(cleared(RunView { download_index: 0, saved: Seq::empty(), ..done }));
            let dropped = RunView { queue: run.queue.skip(1), ..run };
            lemma_open_channel(
                cleared(RunView { download_index: 0, saved: Seq::empty(), ..dropped }),
            );
        },
        _ => {},
    }
}

/// Once a page has held a message from before the cutoff, no older page of
/// its channel is asked for, whatever happens to the images and the commit
/// of the page: any page the run asks for afterwards belongs to a channel
/// further on in the list.
pub proof fn lemma_no_fetch_behind_cutoff(run: RunView, outcomes: Seq<OutcomeView>)
    requires
        well_formed(run),
        run.reached_older,
    ensures
        action_of(run_after(run, outcomes)) is FetchPage || action_of(run_after(run, outcomes))
            is Wait ==> run_after(run, outcomes).next_channel > run.next_channel,
        run_after(run, outcomes).next_channel == run.next_channel ==> run_after(
            run,
            outcomes,
        ).phase == Phase::Finished || run_after(run, outcomes).reached_older,
    decreases outcomes.len(),
{
    lemma_run_stays_sound(run, outcomes);
    if outcomes.len() > 0 {
        let before = run_after(run, outcomes.drop_last());
        lemma_no_fetch_behind_cutoff(run, outcomes.drop_last());
        lemma_run_stays_sound(run, outcomes.drop_last());
        lemma_step_moves_forward(before, outcomes.last());
        if before.next_channel == run.next_channel && before.phase != Phase::Finished {
            lemma_older_mark_stays(before, outcomes.last());
        }
    }
}

/// Whether a page, if `outcome` is one that the run waits for, holds only
/// messages from before the cursor that the run asked with.
pub open spec fn page_follows_cursor(run: RunView, outcome: OutcomeView) -> bool {
    run.phase == Phase::FetchingPage && outcome is Page && run.cursor is Some ==> forall|i: int|
        0 <= i < outcome->messages.len() ==> (#[trigger] outcome->messages[i]).id
            < run.cursor->0
}

/// Whether every page among `outcomes` follows the cursor that the run asked
/// with when it took the page in.
pub open spec fn pages_follow(run: RunView, outcomes: Seq<OutcomeView>) -> bool
    decreases outcomes.len(),
{
    outcomes.len() == 0 || (pages_follow(run, outcomes.drop_last()) && page_follows_cursor(
        run_after(run, outcomes.drop_last()),
        outcomes.last(),
    ))
}

/// As long as a run scans one channel, and the remote service hands out only
/// messages from before the cursor it is asked with, the cursor never goes
/// up, whatever else happens: a cursor once set is followed only by cursors
/// at or before it.
pub proof fn lemma_cursor_never_goes_up(run: RunView, outcomes: Seq<OutcomeView>)
    requires
        well_formed(run),
        pages_follow(run, outcomes),
        run_after(run, outcomes).next_channel == run.next_channel,
        run_after(run, outcomes).phase != Phase::Finished,
    ensures
        run_after(run, outcomes).channel_id == run.channel_id,
        run.cursor matches Some(before) ==> run_after(run, outcomes).cursor matches Some(after)
            && after <= before,
    decreases outcomes.len(),
{
    if outcomes.len() > 0 {
        let earlier = run_after(run, outcomes.drop_last());
        let last = outcomes.last();
        lemma_run_stays_sound(run, outcomes.drop_last());
        lemma_step_moves_forward(earlier, last);
        if earlier.phase == Phase::Finished {
            assert(step_of(earlier, last).run == earlier);
        }
        lemma_cursor_never_goes_up(run, outcomes.drop_last());
        lemma_cursor_moves_with_pages(earlier, last);
        if earlier.phase == Phase::FetchingPage && last is Page && last->messages.len() > 0
            && earlier.cursor is Some {
            lemma_cursor_decreases(last->messages, earlier.cursor->0);
        }
    }
}

/// When the last image of a message is in the cache, the message is handed
/// on: its row, with the recorded paths of all its images in their order,
/// joins the batch behind the rows before it, and the message is counted.
/// If nothing else of the page is left to work on, that batch is what the
/// run asks to commit.
pub proof fn lemma_last_image_hands_message_on(run: RunView)
    requires
        well_formed(run),
        run.phase == Phase::CheckingLocal || run.phase == Phase::Downloading,
        run.download_index + 1 == run.queue[0].downloads.len(),
    ensures
        ({
            let row = full_row(run.queue[0]);
            let next = image_kept(run).run;
            &&& concluded(crate::ingest::counted(run)).batch == run.batch.push(row)
            &&& next.persisted == crate::ingest::capped_sum(run.persisted, 1)
            &&& run.queue.len() == 1 ==> action_of(next) == (ActionView::Commit {
                rows: run.batch.push(row),
            })
            &&& run.queue.len() > 1 ==> next.batch == run.batch.push(row) && next.queue
                == run.queue.skip(1) && next.phase == Phase::CheckingLocal
        }),
{
    let downloads = run.queue[0].downloads;
    let kept = crate::ingest::counted(run);
    assert(kept.saved == crate::ingest::paths_of(downloads.take(run.download_index as int + 1)));
    assert(downloads.take(run.download_index as int + 1) == downloads);
    let done = concluded(kept);
    lemma_moves(done);
}

/// Taking in a first report and then others is taking in the others from
/// where the first one leads.
pub proof fn lemma_run_after_first(run: RunView, first: OutcomeView, rest: Seq<OutcomeView>)
    ensures
        run_after(run, seq![first] + rest) == run_after(step_of(run, first).run, rest),
    decreases rest.len(),
{
    let all = seq![first] + rest;
    if rest.len() == 0 {
        assert(all.drop_last() == Seq::<OutcomeView>::empty());
        assert(all.last() == first);
        assert(run_after(run, all.drop_last()) == run);
    } else {
        assert(all.drop_last() == seq![first] + rest.drop_last());
        assert(all.last() == rest.last());
        lemma_run_after_first(run, first, rest.drop_last());
    }
}

/// How many downloads the messages of a queue call for.
pub open spec fn total_downloads(queue: Seq<crate::page::PlannedMessageView>) -> nat
    decreases queue.len(),
{
    if queue.len() == 0 {
        0
    } else {
        queue[0].downloads.len() + total_downloads(queue.skip(1))
    }
}

/// The row of a planned message with the recorded paths of all its
/// downloads.
pub open spec fn full_row(planned: crate::page::PlannedMessageView) -> MessageRowView {
    crate::persist::row_for(planned.message, crate::ingest::paths_of(planned.downloads))
}

/// The rows of the messages of a queue, in their order.
pub open spec fn full_rows(queue: Seq<crate::page::PlannedMessageView>) -> Seq<
    MessageRowView,
>
    decreases queue.len(),
{
    if queue.len() == 0 {
        Seq::empty()
    } else {
        seq![full_row(queue[0])] + full_rows(queue.skip(1))
    }
}

/// There are as many rows as messages.
pub proof fn lemma_full_rows_len(queue: Seq<crate::page::PlannedMessageView>)
    ensures
        full_rows(queue).len() == queue.len(),
    decreases queue.len(),
{
    if queue.len() > 0 {
        lemma_full_rows_len(queue.skip(1));
    }
}

/// What a run is told of images that are all had, one after the other:
/// of an image that the cache held, that it was found, and of any other
/// that it was missing and then that it was saved. `cached` says of each
/// image whether the cache held it.
pub open spec fn image_reports(cached: Seq<bool>) -> Seq<OutcomeView>
    decreases cached.len(),
{
    if cached.len() == 0 {
        Seq::empty()
    } else if cached[0] {
        seq![OutcomeView::LocalFound] + image_reports(cached.skip(1))
    } else {
        seq![OutcomeView::LocalMissing, OutcomeView::Saved] + image_reports(cached.skip(1))
    }
}

/// The state in which the work on a page ends where every image is there:
/// nothing is left in the queue, the rows of all
/// its messages stand behind those that the batch held, in their order, and
/// the messages and images are counted.
pub open spec fn page_worked(run: RunView) -> RunView {
    let images = (total_downloads(run.queue) - run.download_index) as nat;
    RunView {
        phase: Phase::Persisting,
        queue: Seq::empty(),
        download_index: 0,
        saved: Seq::empty(),
        batch: run.batch + full_rows(run.queue),
        persisted: crate::ingest::capped_sum(run.persisted, run.queue.len()),
        channel_persisted: crate::ingest::capped_sum(run.channel_persisted, run.queue.len()),
        images: crate::ingest::capped_sum(run.images, images),
        channel_images: crate::ingest::capped_sum(run.channel_images, images),
        ..run
    }
}

/// Where every image that the messages of a page call for is had, found in
/// the cache or fetched, the run works through the page and then asks to
/// commit the rows of all the messages in the queue, in their order and
/// behind the rows it held.
pub proof fn lemma_kept_images_fill_batch(run: RunView, cached: Seq<bool>)
    requires
        well_formed(run),
        run.phase == Phase::CheckingLocal,
        cached.len() == total_downloads(run.queue) - run.download_index,
    ensures
        run_after(run, image_reports(cached)) == page_worked(run),
        action_of(page_worked(run)) == (ActionView::Commit {
            rows: run.batch + full_rows(run.queue),
        }),
    decreases cached.len(),
{
    let downloads = run.queue[0].downloads;
    let tail = run.queue.skip(1);
    let rest = image_reports(cached.skip(1));
    let next = step_of(run, OutcomeView::LocalFound).run;
    crate::ingest::lemma_step_keeps_well_formed(run, OutcomeView::LocalFound);
    assert(run_after(run, image_reports(cached)) == run_after(next, rest)) by {
        if cached[0] {
            lemma_run_after_first(run, OutcomeView::LocalFound, rest);
        } else {
            let asked = step_of(run, OutcomeView::LocalMissing).run;
            assert(seq![OutcomeView::LocalMissing, OutcomeView::Saved] + rest
                == seq![OutcomeView::LocalMissing] + (seq![OutcomeView::Saved] + rest));
            lemma_run_after_first(run, OutcomeView::LocalMissing, seq![OutcomeView::Saved] + rest);
            lemma_run_after_first(asked, OutcomeView::Saved, rest);
            lemma_cached_is_as_fetched(run);
        }
    }
    if run.download_index + 1 < downloads.len() {
        lemma_kept_images_fill_batch(next, cached.skip(1));
        assert(page_worked(next) == page_worked(run));
    } else {
        let kept = crate::ingest::counted(run);
        assert(kept.saved == crate::ingest::paths_of(downloads.take(run.download_index as int + 1)));
        assert(downloads.take(run.download_index as int + 1) == downloads);
        let done = concluded(kept);
        assert(done.batch == run.batch.push(full_row(run.queue[0])));
        assert(run.batch.push(full_row(run.queue[0])) + full_rows(tail) == run.batch + full_rows(
            run.queue,
        ));
        if tail.len() > 0 {
            assert(crate::ingest::is_planned(tail[0], run.cutoff));
            lemma_kept_images_fill_batch(next, cached.skip(1));
            assert(page_worked(next) == page_worked(run));
        } else {
            assert(total_downloads(tail) == 0);
            assert(rest == Seq::<OutcomeView>::empty());
            assert(full_rows(tail) == Seq::<MessageRowView>::empty());
            assert(next == page_worked(run));
        }
    }
}

/// Taking in reports one after the other is taking in the later ones from
/// where the earlier ones lead.
pub proof fn lemma_run_after_both(run: RunView, first: Seq<OutcomeView>, then: Seq<OutcomeView>)
    ensures
        run_after(run, first + then) == run_after(run_after(run, first), then),
    decreases then.len(),
{
    if then.len() == 0 {
        assert(first + then == first);
    } else {
        assert((first + then).drop_last() == first + then.drop_last());
        assert((first + then).last() == then.last());
        lemma_run_after_both(run, first, then.drop_last());
    }
}

/// What a run is told of a page on which nothing goes wrong: the page, and
/// of each image that its messages call for that it is had.
pub open spec fn page_reports(messages: Seq<MessageView>, cached: Seq<bool>) -> Seq<
    OutcomeView,
> {
    seq![OutcomeView::Page { messages }] + image_reports(cached)
}

/// Whether `cached` says of each image that the work of a page calls for
/// whether the cache held it.
pub open spec fn tells_of_images(cached: Seq<bool>, messages: Seq<MessageView>, cutoff: i64)
    -> bool {
    cached.len() == total_downloads(crate::page::plan_of(sort_by_time(messages), cutoff))
}

/// A page on which nothing goes wrong is committed whole. Where a page has
/// a message inside the window with an image and every image is there, the
/// run asks to commit the rows of exactly the messages
/// of the page that lie inside the window and have an image, oldest first.
/// It keeps the channel, takes the oldest message of the page for its
/// cursor and marks whether the page held a message from before the cutoff.
pub proof fn lemma_page_is_committed(run: RunView, messages: Seq<MessageView>, cached: Seq<bool>)
    requires
        well_formed(run),
        tells_of_images(cached, messages, run.cutoff),
        run.phase == Phase::FetchingPage,
        crate::page::plan_of(sort_by_time(messages), run.cutoff).len() > 0,
    ensures
        ({
            let plan = crate::page::plan_of(sort_by_time(messages), run.cutoff);
            let worked = run_after(run, page_reports(messages, cached));
            &&& well_formed(worked)
            &&& action_of(worked) == (ActionView::Commit { rows: full_rows(plan) })
            &&& full_rows(plan).len() == plan.len()
            &&& worked.reached_older == holds_older(messages, run.cutoff)
            &&& worked.cursor == cursor_after(messages)
            &&& worked.channel_id == run.channel_id
            &&& worked.next_channel == run.next_channel
            &&& worked.fetched == crate::ingest::capped_sum(run.fetched, messages.len())
            &&& same_configuration(run, worked)
        }),
{
    let plan = crate::page::plan_of(sort_by_time(messages), run.cutoff);
    let page = OutcomeView::Page { messages };
    lemma_sort_by_time(messages);
    assert(messages.len() > 0) by {
        if messages.len() == 0 {
            assert(plan.len() == 0);
        }
    }
    let taken = step_of(run, page).run;
    crate::ingest::lemma_step_keeps_well_formed(run, page);
    assert(taken.queue == plan);
    lemma_kept_images_fill_batch(taken, cached);
    lemma_run_after_first(run, page, image_reports(cached));
    lemma_full_rows_len(plan);
    assert(taken.batch + full_rows(plan) == full_rows(plan));
    crate::ingest::lemma_step_keeps_well_formed(run, page);
    lemma_run_stays_sound(run, page_reports(messages, cached));
}

/// Where every message of a page that lies inside the window has an image,
/// a page on which nothing goes wrong is committed with as many rows as it
/// has messages inside the window: all its messages but those from before
/// the cutoff.
pub proof fn lemma_page_commits_its_window(
    run: RunView,
    messages: Seq<MessageView>,
    cached: Seq<bool>,
)
    requires
        well_formed(run),
        tells_of_images(cached, messages, run.cutoff),
        run.phase == Phase::FetchingPage,
        crate::page::all_have_images(messages, run.cutoff),
        crate::page::older_count(messages, run.cutoff) < messages.len(),
    ensures
        action_of(run_after(run, page_reports(messages, cached))) is Commit,
        action_of(run_after(run, page_reports(messages, cached)))->rows.len()
            + crate::page::older_count(messages, run.cutoff) == messages.len(),
{
    crate::page::lemma_sort_keeps_counts(messages, run.cutoff);
    crate::page::lemma_plan_counts(sort_by_time(messages), run.cutoff);
    lemma_sort_by_time(messages);
    lemma_page_is_committed(run, messages, cached);
}

/// Taking in one report is one move.
pub proof fn lemma_run_after_one(run: RunView, outcome: OutcomeView)
    ensures
        run_after(run, seq![outcome]) == step_of(run, outcome).run,
{
    assert(seq![outcome].drop_last() == Seq::<OutcomeView>::empty());
    assert(seq![outcome].last() == outcome);
    assert(run_after(run, Seq::<OutcomeView>::empty()) == run);
    assert(run_after(run, seq![outcome]) == step_of(
        run_after(run, seq![outcome].drop_last()),
        seq![outcome].last(),
    ).run);
}

/// Whether a report says what came of a commit.
pub open spec fn is_commit_report(outcome: OutcomeView) -> bool {
    outcome is Committed || outcome is CommitFailed || outcome is CommitAborted
}

/// A page on which nothing goes wrong, and what follows its commit. Where
/// every message inside the window has an image, the run commits as many
/// rows as the page has messages inside the window. Whether the commit went
/// well or not, it then asks for the page before the oldest message of this
/// one; but where the page held a message from before the cutoff it leaves
/// the channel, to finish or to take up a later one.
pub proof fn lemma_page_and_commit(
    run: RunView,
    messages: Seq<MessageView>,
    cached: Seq<bool>,
    commit: OutcomeView,
)
    requires
        well_formed(run),
        tells_of_images(cached, messages, run.cutoff),
        run.phase == Phase::FetchingPage,
        crate::page::all_have_images(messages, run.cutoff),
        crate::page::older_count(messages, run.cutoff) < messages.len(),
        is_commit_report(commit),
    ensures
        ({
            let worked = run_after(run, page_reports(messages, cached));
            let next = run_after(run, page_reports(messages, cached) + seq![commit]);
            &&& action_of(worked) is Commit
            &&& action_of(worked)->rows.len() + crate::page::older_count(messages, run.cutoff)
                == messages.len()
            &&& next == step_of(worked, commit).run
            &&& well_formed(next)
            &&& same_configuration(run, next)
            &&& !holds_older(messages, run.cutoff) ==> {
                &&& next.phase == Phase::FetchingPage
                &&& next.next_channel == run.next_channel
                &&& action_of(next) == (ActionView::FetchPage {
                    channel_id: run.channel_id,
                    before: cursor_after(messages),
                    limit: crate::ingest::PAGE_LIMIT,
                })
            }
            &&& holds_older(messages, run.cutoff) ==> next.phase == Phase::Finished
                || next.next_channel > run.next_channel
        }),
{
    let reports = page_reports(messages, cached);
    let worked = run_after(run, reports);
    lemma_page_commits_its_window(run, messages, cached);
    lemma_page_is_committed_or_empty(run, messages, cached);
    lemma_commit_attempt_moves_on(worked, commit);
    crate::ingest::lemma_step_keeps_well_formed(worked, commit);
    lemma_step_keeps_configuration(worked, commit);
    lemma_run_after_both(run, reports, seq![commit]);
    lemma_run_after_one(worked, commit);
}

/// Two pages of one channel on which nothing goes wrong, the first wholly
/// inside the window and the second with a message from before the cutoff;
/// each image is found in the cache or fetched. The run commits the first
/// page whole, asks for the page before its oldest message, commits of the
/// second page the messages inside the window, and then leaves the channel:
/// it finishes or takes up a later channel, and asks for no third page,
/// whether the commits went well or not.
#[verifier::rlimit(60)]
pub proof fn lemma_scan_stops_behind_cutoff(
    run: RunView,
    first: Seq<MessageView>,
    first_cached: Seq<bool>,
    first_commit: OutcomeView,
    second: Seq<MessageView>,
    second_cached: Seq<bool>,
    second_commit: OutcomeView,
)
    requires
        well_formed(run),
        run.phase == Phase::FetchingPage,
        first.len() > 0,
        !holds_older(first, run.cutoff),
        holds_older(second, run.cutoff),
        crate::page::older_count(second, run.cutoff) < second.len(),
        crate::page::all_have_images(first, run.cutoff),
        crate::page::all_have_images(second, run.cutoff),
        tells_of_images(first_cached, first, run.cutoff),
        tells_of_images(second_cached, second, run.cutoff),
        is_commit_report(first_commit),
        is_commit_report(second_commit),
    ensures
        ({
            let first_page = page_reports(first, first_cached);
            let second_page = page_reports(second, second_cached);
            let between = run_after(run, first_page + seq![first_commit]);
            let left = run_after(
                run,
                first_page + seq![first_commit] + second_page + seq![second_commit],
            );
            &&& action_of(run_after(run, first_page)) is Commit
            &&& action_of(run_after(run, first_page))->rows.len() == first.len()
            &&& action_of(between) == (ActionView::FetchPage {
                channel_id: run.channel_id,
                before: cursor_after(first),
                limit: crate::ingest::PAGE_LIMIT,
            })
            &&& action_of(run_after(between, second_page)) is Commit
            &&& action_of(run_after(between, second_page))->rows.len()
                + crate::page::older_count(second, run.cutoff) == second.len()
            &&& left.phase == Phase::Finished || left.next_channel > run.next_channel
        }),
{
    let cutoff = run.cutoff;
    let first_page = page_reports(first, first_cached);
    let second_page = page_reports(second, second_cached);
    let first_part = first_page + seq![first_commit];
    let second_part = second_page + seq![second_commit];
    let between = run_after(run, first_part);
    assert(crate::page::older_count(first, cutoff) == 0) by {
        crate::page::lemma_older_count(first, cutoff);
    }
    lemma_page_and_commit(run, first, first_cached, first_commit);
    assert(between.cutoff == cutoff);
    lemma_page_and_commit(between, second, second_cached, second_commit);
    assert(run_after(run, first_part + second_part) == run_after(between, second_part)) by {
        lemma_run_after_both(run, first_part, second_part);
    }
    assert(first_part + second_part == first_page + seq![first_commit] + second_page
        + seq![second_commit]);
}

/// `lemma_page_is_committed` for a page of which it is known that it has a
/// message inside the window and that all such messages have images.
pub proof fn lemma_page_is_committed_or_empty(
    run: RunView,
    messages: Seq<MessageView>,
    cached: Seq<bool>,
)
    requires
        well_formed(run),
        tells_of_images(cached, messages, run.cutoff),
        run.phase == Phase::FetchingPage,
        crate::page::all_have_images(messages, run.cutoff),
        crate::page::older_count(messages, run.cutoff) < messages.len(),
    ensures
        ({
            let worked = run_after(run, page_reports(messages, cached));
            &&& well_formed(worked)
            &&& worked.phase == Phase::Persisting
            &&& worked.reached_older == holds_older(messages, run.cutoff)
            &&& worked.cursor == cursor_after(messages)
            &&& worked.channel_id == run.channel_id
            &&& worked.next_channel == run.next_channel
            &&& same_configuration(run, worked)
        }),
{
    crate::page::lemma_sort_keeps_counts(messages, run.cutoff);
    crate::page::lemma_plan_counts(sort_by_time(messages), run.cutoff);
    lemma_sort_by_time(messages);
    lemma_page_is_committed(run, messages, cached);
}

} // verus!
