//! The polling cycle.
//!
//! One source's loop runs fixed-interval cycles: sync the publisher's
//! session, fetch candidates, publish them in order — recording each URL
//! in the ledger right after its publish succeeds — then trim the ledger
//! and sleep. The loop around the library performs the outside work (the
//! network calls and the sleep) one action at a time and reports each
//! outcome back; `PollingCycle::step` makes every decision and is
//! verified: a record action is issued only right after a successful
//! publish and names exactly the published URL, a fetch failure skips
//! straight to the sleep, and a publish or session failure stops this
//! source's loop — fail-loud, so a published-but-unrecorded post can
//! never be silently lost.

use crate::bsky::assemble_post;
use crate::bsky::assemble_spec;
use crate::bsky::candidate_of_news;
use crate::bsky::CandidateItem;
use crate::bsky::PageMetadata;
use crate::bsky::PostData;
use crate::bsky::PostDataModel;
use crate::fetcher::NikkiNewsPost;
use crate::fetcher::NewsPostModel;
use crate::textfmt::clone_string_vec;
use vstd::prelude::*;

verus! {

/// The configuration of the polling loop, as plain values.
#[derive(Debug)]
pub struct StartCommand {
    /// The base URL of the publishing service.
    pub service: String,
    /// The username or email of the application's account.
    pub identifier: String,
    /// The app password used for authentication.
    pub password: String,
    /// Seconds between fetch cycles.
    pub run_interval_seconds: u64,
    /// How many hours back a cycle looks for unposted items.
    pub news_backdate_hours: u16,
    /// Whether published posts get their comments disabled.
    pub disable_post_comments: bool,
    /// The locale news is fetched in.
    pub news_locale: String,
    /// The language codes that posts are classified under.
    pub post_languages: Vec<String>,
}

impl StartCommand {
    /// The configured backdate window, in seconds.
    pub fn backdate_seconds(&self) -> (seconds: i64)
        ensures
            seconds == (self.news_backdate_hours as int) * 3600,
            seconds >= 0,
    {
        (self.news_backdate_hours as i64) * 3600
    }

    /// The polling cycle for this configuration.
    pub fn make_cycle(&self) -> (cycle: PollingCycle)
        ensures
            cycle.wf(),
            cycle@.languages == self.post_languages.deep_view(),
            cycle@.interval == self.run_interval_seconds as int,
            cycle@.phase == CyclePhase::Syncing,
            cycle@.pending.len() == 0,
    {
        PollingCycle::new(clone_string_vec(&self.post_languages), self.run_interval_seconds)
    }
}

/// Where a source's loop stands within its cycle.
#[derive(Debug, PartialEq, Eq, Structural, Clone, Copy)]
pub enum CyclePhase {
    /// Refreshing the publisher's session; done once per cycle, first.
    Syncing,
    /// Fetching candidates from the source.
    Fetching,
    /// Publishing the next pending candidate.
    Publishing,
    /// Recording the just-published URL in the ledger.
    Recording,
    /// Trimming the ledger to its retention cap.
    Trimming,
    /// Waiting out the configured interval.
    Sleeping,
    /// This source's loop has stopped and takes no further step.
    Stopped,
}

/// The outcome of the outside work the loop last performed.
pub enum CycleEvent {
    SessionSynced,
    SessionFailed,
    FetchSucceeded(Vec<NikkiNewsPost>),
    FetchFailed,
    PublishSucceeded,
    PublishFailed,
    Recorded,
    Trimmed,
    SleepFinished,
}

/// What the loop is to do next.
pub enum CycleAction {
    SyncSession,
    FetchNews,
    Publish(PostData),
    Record(String),
    Trim,
    Sleep(u64),
    Stop,
}

/// The mathematical model of an event.
pub enum CycleEventModel {
    SessionSynced,
    SessionFailed,
    FetchSucceeded(Seq<NewsPostModel>),
    FetchFailed,
    PublishSucceeded,
    PublishFailed,
    Recorded,
    Trimmed,
    SleepFinished,
}

/// The mathematical model of an action.
pub enum CycleActionModel {
    SyncSession,
    FetchNews,
    Publish(PostDataModel),
    Record(Seq<char>),
    Trim,
    Sleep(int),
    Stop,
}

/// The mathematical model of a cycle's state.
pub struct CycleModel {
    pub languages: Seq<Seq<char>>,
    pub interval: int,
    pub pending: Seq<NewsPostModel>,
    pub next: int,
    pub phase: CyclePhase,
}

impl View for CycleEvent {
    type V = CycleEventModel;

    open spec fn view(&self) -> CycleEventModel {
        match self {
            CycleEvent::SessionSynced => CycleEventModel::SessionSynced,
            CycleEvent::SessionFailed => CycleEventModel::SessionFailed,
            CycleEvent::FetchSucceeded(posts) => CycleEventModel::FetchSucceeded(posts.deep_view()),
            CycleEvent::FetchFailed => CycleEventModel::FetchFailed,
            CycleEvent::PublishSucceeded => CycleEventModel::PublishSucceeded,
            CycleEvent::PublishFailed => CycleEventModel::PublishFailed,
            CycleEvent::Recorded => CycleEventModel::Recorded,
            CycleEvent::Trimmed => CycleEventModel::Trimmed,
            CycleEvent::SleepFinished => CycleEventModel::SleepFinished,
        }
    }
}

impl View for CycleAction {
    type V = CycleActionModel;

    open spec fn view(&self) -> CycleActionModel {
        match self {
            CycleAction::SyncSession => CycleActionModel::SyncSession,
            CycleAction::FetchNews => CycleActionModel::FetchNews,
            CycleAction::Publish(post) => CycleActionModel::Publish(post@),
            CycleAction::Record(url) => CycleActionModel::Record(url@),
            CycleAction::Trim => CycleActionModel::Trim,
            CycleAction::Sleep(seconds) => CycleActionModel::Sleep(*seconds as int),
            CycleAction::Stop => CycleActionModel::Stop,
        }
    }
}

/// What one step of the cycle does: the successor state and the action
/// the loop is to perform next. An event that does not belong to the
/// current phase stops the loop.
pub open spec fn cycle_step_spec(pre: CycleModel, event: CycleEventModel, now: int) -> (
    CycleModel,
    CycleActionModel,
) {
    match (pre.phase, event) {
        (CyclePhase::Syncing, CycleEventModel::SessionSynced) => (
            CycleModel { phase: CyclePhase::Fetching, ..pre },
            CycleActionModel::FetchNews,
        ),
        (CyclePhase::Fetching, CycleEventModel::FetchSucceeded(posts)) => if posts.len() > 0 {
            (
                CycleModel { phase: CyclePhase::Publishing, pending: posts, next: 0, ..pre },
                CycleActionModel::Publish(
                    assemble_spec(candidate_of_news(posts[0]), pre.languages, None, now),
                ),
            )
        } else {
            (
                CycleModel { phase: CyclePhase::Trimming, pending: posts, next: 0, ..pre },
                CycleActionModel::Trim,
            )
        },
        (CyclePhase::Fetching, CycleEventModel::FetchFailed) => (
            CycleModel { phase: CyclePhase::Sleeping, ..pre },
            CycleActionModel::Sleep(pre.interval),
        ),
        (CyclePhase::Publishing, CycleEventModel::PublishSucceeded) => if 0 <= pre.next
            < pre.pending.len() {
            (
                CycleModel { phase: CyclePhase::Recording, ..pre },
                CycleActionModel::Record(pre.pending[pre.next].url),
            )
        } else {
            (CycleModel { phase: CyclePhase::Stopped, ..pre }, CycleActionModel::Stop)
        },
        (CyclePhase::Recording, CycleEventModel::Recorded) => if pre.next + 1
            < pre.pending.len() {
            (
                CycleModel { phase: CyclePhase::Publishing, next: pre.next + 1, ..pre },
                CycleActionModel::Publish(
                    assemble_spec(
                        candidate_of_news(pre.pending[pre.next + 1]),
                        pre.languages,
                        None,
                        now,
                    ),
                ),
            )
        } else {
            (
                CycleModel { phase: CyclePhase::Trimming, next: pre.next + 1, ..pre },
                CycleActionModel::Trim,
            )
        },
        (CyclePhase::Trimming, CycleEventModel::Trimmed) => (
            CycleModel { phase: CyclePhase::Sleeping, ..pre },
            CycleActionModel::Sleep(pre.interval),
        ),
        (CyclePhase::Sleeping, CycleEventModel::SleepFinished) => (
            CycleModel { phase: CyclePhase::Syncing, ..pre },
            CycleActionModel::SyncSession,
        ),
        _ => (CycleModel { phase: CyclePhase::Stopped, ..pre }, CycleActionModel::Stop),
    }
}

/// One source's polling cycle: the pending candidates of the current
/// cycle and where the loop stands.
pub struct PollingCycle {
    languages: Vec<String>,
    run_interval_seconds: u64,
    pending: Vec<NikkiNewsPost>,
    next: usize,
    phase: CyclePhase,
}

impl View for PollingCycle {
    type V = CycleModel;

    closed spec fn view(&self) -> CycleModel {
        CycleModel {
            languages: self.languages.deep_view(),
            interval: self.run_interval_seconds as int,
            pending: self.pending.deep_view(),
            next: self.next as int,
            phase: self.phase,
        }
    }
}

impl PollingCycle {
    /// The cycle invariant: the position is never negative, and while a
    /// candidate is being published or recorded, `next` points at it.
    pub open spec fn wf(&self) -> bool {
        &&& self@.next >= 0
        &&& (self@.phase == CyclePhase::Publishing || self@.phase == CyclePhase::Recording)
            ==> self@.next < self@.pending.len()
    }

    /// A fresh cycle: the loop begins by syncing the publisher's session
    /// and reporting the outcome.
    pub fn new(languages: Vec<String>, run_interval_seconds: u64) -> (cycle: Self)
        ensures
            cycle.wf(),
            cycle@.languages == languages.deep_view(),
            cycle@.interval == run_interval_seconds as int,
            cycle@.pending.len() == 0,
            cycle@.next == 0,
            cycle@.phase == CyclePhase::Syncing,
    {
        let cycle = PollingCycle {
            languages,
            run_interval_seconds,
            pending: Vec::new(),
            next: 0,
            phase: CyclePhase::Syncing,
        };
        proof {
            assert(cycle@.pending =~= Seq::<NewsPostModel>::empty());
        }
        cycle
    }

    /// Where the loop stands.
    pub fn phase(&self) -> (phase: CyclePhase)
        ensures
            phase == self@.phase,
    {
        self.phase
    }

    /// Decide the next action from the outcome of the last one. `now` is
    /// the current wall-clock time, used as the creation time of a post
    /// whose item carries none.
    pub fn step(&mut self, event: CycleEvent, now: i64) -> (action: CycleAction)
        requires
            old(self).wf(),
        ensures
            final(self).wf(),
            final(self)@ == cycle_step_spec(old(self)@, event@, now as int).0,
            action@ == cycle_step_spec(old(self)@, event@, now as int).1,
    {
        let no_enrichment: Option<PageMetadata> = None;
        match (self.phase, event) {
            (CyclePhase::Syncing, CycleEvent::SessionSynced) => {
                self.phase = CyclePhase::Fetching;
                CycleAction::FetchNews
            },
            (CyclePhase::Fetching, CycleEvent::FetchSucceeded(posts)) => {
                self.pending = posts;
                self.next = 0;
                if self.pending.len() > 0 {
                    self.phase = CyclePhase::Publishing;
                    let item = CandidateItem::from_news_post(&self.pending[0]);
                    let post = assemble_post(&item, &self.languages, &no_enrichment, now);
                    CycleAction::Publish(post)
                } else {
                    self.phase = CyclePhase::Trimming;
                    CycleAction::Trim
                }
            },
            (CyclePhase::Fetching, CycleEvent::FetchFailed) => {
                self.phase = CyclePhase::Sleeping;
                CycleAction::Sleep(self.run_interval_seconds)
            },
            (CyclePhase::Publishing, CycleEvent::PublishSucceeded) => {
                if self.next < self.pending.len() {
                    self.phase = CyclePhase::Recording;
                    CycleAction::Record(self.pending[self.next].url.clone())
                } else {
                    self.phase = CyclePhase::Stopped;
                    CycleAction::Stop
                }
            },
            (CyclePhase::Recording, CycleEvent::Recorded) => {
                let len = self.pending.len();
                proof {
                    assert(self@.next < self@.pending.len());
                    assert(self.next < len);
                }
                let next = self.next + 1;
                self.next = next;
                if next < self.pending.len() {
                    self.phase = CyclePhase::Publishing;
                    let item = CandidateItem::from_news_post(&self.pending[next]);
                    let post = assemble_post(&item, &self.languages, &no_enrichment, now);
                    CycleAction::Publish(post)
                } else {
                    self.phase = CyclePhase::Trimming;
                    CycleAction::Trim
                }
            },
            (CyclePhase::Trimming, CycleEvent::Trimmed) => {
                self.phase = CyclePhase::Sleeping;
                CycleAction::Sleep(self.run_interval_seconds)
            },
            (CyclePhase::Sleeping, CycleEvent::SleepFinished) => {
                self.phase = CyclePhase::Syncing;
                CycleAction::SyncSession
            },
            _ => {
                self.phase = CyclePhase::Stopped;
                CycleAction::Stop
            },
        }
    }
}

/// Law: a record action is issued only right after a successful publish,
/// and names exactly the just-published candidate's URL; and a publish
/// failure stops this source's loop with nothing recorded for the failed
/// or any later candidate.
pub proof fn lemma_record_follows_publish(pre: CycleModel, event: CycleEventModel, now: int)
    ensures
        (cycle_step_spec(pre, event, now).1 matches CycleActionModel::Record(url) ==> pre.phase
            == CyclePhase::Publishing && event == CycleEventModel::PublishSucceeded && 0 <= pre.next
            < pre.pending.len() && url == pre.pending[pre.next].url),
        pre.phase == CyclePhase::Publishing && event == CycleEventModel::PublishFailed
            ==> cycle_step_spec(pre, event, now).0.phase == CyclePhase::Stopped && cycle_step_spec(
            pre,
            event,
            now,
        ).1 == CycleActionModel::Stop,
{
}

} // verus!
