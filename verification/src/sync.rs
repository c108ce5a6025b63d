//! The steps of fetching a user's online scores: paging through the remote
//! listing, and guarding the fetch with the cache and its lock file. The
//! caller performs the requests and file operations that a step asks for and
//! hands back what came of them.

use crate::score::Score;
use crate::table::NameMap;
use crate::text::{trim, trimmed};
use vstd::prelude::*;

verus! {

/// How many entries a page of the remote listing holds at most.
pub const PAGE_SIZE: u32 = 100;

/// How many pages a sync fetches at most.
pub const MAX_PAGES: u32 = 20;

/// For how many milliseconds a sync pauses between two pages.
pub const PAGE_DELAY_MS: u64 = 100;

/// For how many milliseconds a fetch waits for another one's cache file.
pub const LOCK_WAIT_MS: u64 = 5000;

/// For how many milliseconds a fetch sleeps between two looks at the cache.
pub const LOCK_POLL_MS: u64 = 200;

/// The nested form in which an entry may carry its score.
#[derive(Clone, Copy, Debug)]
pub struct ScenarioAttributes {
    pub score: Option<Score>,
}

/// One entry of a page of the remote listing. The attributes are absent where
/// the listing gave none, or gave `false` or `null` in their place.
#[derive(Debug)]
pub struct ScenarioEntry {
    pub scenario_name: String,
    pub score: Option<Score>,
    pub attributes: Option<ScenarioAttributes>,
}

/// The score of an entry: its own where it has one, else that of its
/// attributes.
pub open spec fn entry_score(e: ScenarioEntry) -> Option<Score> {
    match e.score {
        Some(score) => Some(score),
        None => match e.attributes {
            Some(attributes) => attributes.score,
            None => None,
        },
    }
}

/// The scores after one more score for `name`: the greatest of it, the score
/// held so far, and zero.
pub open spec fn raised(all: Map<Seq<char>, Score>, name: Seq<char>, score: Score) -> Map<
    Seq<char>,
    Score,
> {
    let current: Score = if all.dom().contains(name) {
        all[name]
    } else {
        0
    };
    all.insert(
        name,
        if score > current {
            score
        } else {
            current
        },
    )
}

/// The scores after one more entry: an entry with a score and a name that is
/// not blank raises the score held under its trimmed name.
pub open spec fn accumulated_one(all: Map<Seq<char>, Score>, e: ScenarioEntry) -> Map<
    Seq<char>,
    Score,
> {
    match entry_score(e) {
        Some(score) => if trimmed(e.scenario_name@).len() > 0 {
            raised(all, trimmed(e.scenario_name@), score)
        } else {
            all
        },
        None => all,
    }
}

/// The scores after a page of entries.
pub open spec fn accumulated(all: Map<Seq<char>, Score>, entries: Seq<ScenarioEntry>) -> Map<
    Seq<char>,
    Score,
>
    decreases entries.len(),
{
    if entries.len() == 0 {
        all
    } else {
        accumulated_one(accumulated(all, entries.drop_last()), entries.last())
    }
}

/// Accumulating never removes a scenario or lowers its score, and no score
/// held is below zero if none was.
pub proof fn lemma_accumulated_monotone(
    all: Map<Seq<char>, Score>,
    entries: Seq<ScenarioEntry>,
    name: Seq<char>,
)
    requires
        all.dom().contains(name),
    ensures
        accumulated(all, entries).dom().contains(name),
        accumulated(all, entries)[name] >= all[name],
    decreases entries.len(),
{
    if entries.len() > 0 {
        lemma_accumulated_monotone(all, entries.drop_last(), name);
    }
}

/// The score of an entry.
pub fn score_of_entry(e: &ScenarioEntry) -> (r: Option<Score>)
    ensures
        r == entry_score(*e),
{
    match e.score {
        Some(score) => Some(score),
        None => match e.attributes {
            Some(attributes) => attributes.score,
            None => None,
        },
    }
}

/// Raises the score held for `name` to `score` where that is greater than
/// what is held, a scenario not held counting as zero.
pub fn accumulate_score(all: &mut NameMap<Score>, name: &str, score: Score)
    requires
        old(all).wf(),
    ensures
        final(all).wf(),
        final(all)@ == raised(old(all)@, name@, score),
{
    let current: Score = match all.get(name) {
        Some(held) => *held,
        None => 0,
    };
    all.insert(
        name,
        if score > current {
            score
        } else {
            current
        },
    );
}

/// Takes the entries of one page into the scores.
pub fn accumulate_page(all: &mut NameMap<Score>, entries: &Vec<ScenarioEntry>)
    requires
        old(all).wf(),
    ensures
        final(all).wf(),
        final(all)@ == accumulated(old(all)@, entries@),
{
    let mut i: usize = 0;
    assert(entries@.take(0) =~= Seq::<ScenarioEntry>::empty());
    while i < entries.len()
        invariant
            i <= entries.len(),
            all.wf(),
            all@ == accumulated(old(all)@, entries@.take(i as int)),
        decreases entries.len() - i,
    {
        proof {
            assert(entries@.take(i + 1).drop_last() =~= entries@.take(i as int));
            assert(entries@.take(i + 1).last() == entries@[i as int]);
        }
        let entry = &entries[i];
        let name = trim(entry.scenario_name.as_str());
        match score_of_entry(entry) {
            Some(score) => {
                if !name.is_empty() {
                    accumulate_score(all, name, score);
                }
            },
            None => {},
        }
        i += 1;
    }
    assert(entries@.take(entries.len() as int) =~= entries@);
}

/// Why a sync failed.
#[derive(Clone, Copy, Debug, PartialEq, Eq, Structural)]
pub enum SyncError {
    /// No user name was given.
    EmptyUsername,
    /// The first request did not get through.
    Transport,
}

impl SyncError {
    /// The failure in words.
    pub fn message(&self) -> (r: String)
        ensures
            r@ == (match *self {
                SyncError::EmptyUsername => "Username is empty"@,
                SyncError::Transport => "Request failed"@,
            }),
    {
        match self {
            SyncError::EmptyUsername => "Username is empty".to_owned(),
            SyncError::Transport => "Request failed".to_owned(),
        }
    }
}

/// What came of the request for one page.
#[derive(Debug)]
pub enum PageOutcome {
    /// The request did not get through, or its answer could not be read.
    TransportFailed,
    /// The service answered with a status other than success.
    Rejected,
    /// The answer does not decode.
    Undecodable,
    /// The entries of the page.
    Entries(Vec<ScenarioEntry>),
}

/// The entries that a page brought.
pub open spec fn page_entries(outcome: PageOutcome) -> Seq<ScenarioEntry> {
    match outcome {
        PageOutcome::Entries(entries) => entries@,
        _ => Seq::<ScenarioEntry>::empty(),
    }
}

/// How a sync goes on after a page.
#[derive(Clone, Copy, Debug, PartialEq, Eq, Structural)]
pub enum SyncProgress {
    /// The next page is to be requested after a pause.
    Continue { page: u32, pause_ms: u64 },
    /// The sync is over; what was accumulated is its result.
    Done,
    /// The sync failed; nothing was accumulated.
    Failed(SyncError),
}

/// How a sync goes on after the page `page` came out as `outcome`. A failure
/// of the first request fails the sync; any other failure, or an empty page,
/// ends it with what earlier pages brought; a page with entries leads to the
/// next one, up to the cap.
pub open spec fn progress_after(page: u32, outcome: PageOutcome) -> SyncProgress {
    match outcome {
        PageOutcome::TransportFailed => if page == 0 {
            SyncProgress::Failed(SyncError::Transport)
        } else {
            SyncProgress::Done
        },
        PageOutcome::Rejected => SyncProgress::Done,
        PageOutcome::Undecodable => SyncProgress::Done,
        PageOutcome::Entries(entries) => if entries@.len() == 0 || page + 1 >= MAX_PAGES {
            SyncProgress::Done
        } else {
            SyncProgress::Continue { page: (page + 1) as u32, pause_ms: PAGE_DELAY_MS }
        },
    }
}

/// A sync of a user's online scores in progress: the page that is awaited
/// and the greatest score per scenario over the pages so far.
pub struct OnlineSync {
    page: u32,
    over: bool,
    all_scores: NameMap<Score>,
}

impl OnlineSync {
    /// The scores hold no name twice, and the page awaited lies under the cap
    /// while the sync goes on.
    pub closed spec fn wf(&self) -> bool {
        &&& self.all_scores.wf()
        &&& self.page <= MAX_PAGES
        &&& !self.over ==> self.page < MAX_PAGES
    }

    /// The page that is awaited.
    pub closed spec fn page(&self) -> u32 {
        self.page
    }

    /// The sync is over.
    pub closed spec fn is_over(&self) -> bool {
        self.over
    }

    /// The greatest score per scenario over the pages so far.
    pub closed spec fn scores(&self) -> Map<Seq<char>, Score> {
        self.all_scores@
    }

    /// Begins a sync for a user: the first page is awaited, nothing is
    /// accumulated. Without a user name there is no sync.
    pub fn start(username: &str) -> (r: Result<OnlineSync, SyncError>)
        ensures
            match r {
                Ok(sync) => {
                    &&& username@.len() > 0
                    &&& sync.wf()
                    &&& sync.page() == 0
                    &&& !sync.is_over()
                    &&& sync.scores() == Map::<Seq<char>, Score>::empty()
                },
                Err(e) => username@.len() == 0 && e == SyncError::EmptyUsername,
            },
    {
        if username.is_empty() {
            Err(SyncError::EmptyUsername)
        } else {
            Ok(OnlineSync { page: 0, over: false, all_scores: NameMap::new() })
        }
    }

    /// The page that is awaited.
    pub fn next_page(&self) -> (r: u32)
        ensures
            r == self.page(),
    {
        self.page
    }

    /// Takes in what came of the awaited page and says how the sync goes on.
    /// A sync that is over stays over and takes nothing in.
    pub fn advance(&mut self, outcome: PageOutcome) -> (progress: SyncProgress)
        requires
            old(self).wf(),
        ensures
            final(self).wf(),
            old(self).is_over() ==> {
                &&& progress == SyncProgress::Done
                &&& final(self).is_over()
                &&& final(self).page() == old(self).page()
                &&& final(self).scores() == old(self).scores()
            },
            !old(self).is_over() ==> {
                &&& progress == progress_after(old(self).page(), outcome)
                &&& final(self).scores() == accumulated(old(self).scores(), page_entries(outcome))
                &&& final(self).is_over() == !(progress is Continue)
                &&& final(self).page() == (if progress is Continue {
                    old(self).page() + 1
                } else {
                    old(self).page() as int
                })
            },
    {
        if self.over {
            return SyncProgress::Done;
        }
        match outcome {
            PageOutcome::TransportFailed => {
                self.over = true;
                if self.page == 0 {
                    SyncProgress::Failed(SyncError::Transport)
                } else {
                    SyncProgress::Done
                }
            },
            PageOutcome::Rejected => {
                self.over = true;
                SyncProgress::Done
            },
            PageOutcome::Undecodable => {
                self.over = true;
                SyncProgress::Done
            },
            PageOutcome::Entries(entries) => {
                accumulate_page(&mut self.all_scores, &entries);
                if entries.len() == 0 || self.page + 1 >= MAX_PAGES {
                    self.over = true;
                    SyncProgress::Done
                } else {
                    self.page = self.page + 1;
                    SyncProgress::Continue { page: self.page, pause_ms: PAGE_DELAY_MS }
                }
            },
        }
    }

    /// The scores accumulated over the pages taken in.
    pub fn into_scores(self) -> (r: NameMap<Score>)
        requires
            self.wf(),
        ensures
            r.wf(),
            r@ == self.scores(),
    {
        self.all_scores
    }
}

/// However a sync goes, it asks for a page under the cap only: at most
/// `MAX_PAGES` pages are ever requested.
pub proof fn lemma_sync_is_capped(page: u32, outcome: PageOutcome)
    requires
        page < MAX_PAGES,
    ensures
        progress_after(page, outcome) matches SyncProgress::Continue { page: next, pause_ms }
            ==> next == page + 1 && next < MAX_PAGES && pause_ms == PAGE_DELAY_MS,
{
}

/// A failure after the first page never fails the sync: what earlier pages
/// brought is its result.
pub proof fn lemma_partial_results_are_kept(page: u32, outcome: PageOutcome)
    requires
        page > 0,
    ensures
        !(progress_after(page, outcome) is Failed),
        !(outcome is Entries) ==> progress_after(page, outcome) == SyncProgress::Done,
        !(outcome is Entries) ==> page_entries(outcome).len() == 0,
{
}

/// Where a guarded fetch stands.
#[derive(Clone, Copy, Debug, PartialEq, Eq, Structural)]
pub enum FetchPhase {
    /// The first look at the cache is awaited.
    Lookup,
    /// The first attempt at the lock is awaited.
    Lock,
    /// Another fetch holds the lock; a look at the cache is awaited.
    Polling,
    /// Another fetch holds the lock; the end of a sleep is awaited.
    Sleeping,
    /// The wait is over; the second attempt at the lock is awaited.
    Relock,
    /// The result of the sync is awaited.
    Syncing,
    /// The fetch is over.
    Over,
}

/// What came of the action that a guarded fetch asked for.
pub enum FetchEvent {
    /// The cache was looked at: its scores on a hit, `None` on a miss.
    Cache(Option<NameMap<Score>>),
    /// The lock file was created.
    LockCreated,
    /// The lock file exists already; so much time has passed since the fetch
    /// began.
    LockExists { elapsed_ms: u64 },
    /// The lock file could not be created for another reason.
    LockFailed,
    /// The sleep is over; so much time has passed since the fetch began.
    Slept { elapsed_ms: u64 },
    /// The sync ended.
    Synced(Result<NameMap<Score>, SyncError>),
}

/// What a guarded fetch asks its caller to do next.
pub enum FetchAction {
    /// Look at the user's cache file.
    LoadCache,
    /// Try to create the lock file, failing if it exists.
    CreateLock,
    /// Sleep.
    Sleep { ms: u64 },
    /// Run the sync.
    Sync,
    /// End the fetch: write the scores to the cache and to the snapshot if
    /// `store` is set, remove the lock file if `release_lock` is set, and
    /// return `result`.
    Finish { result: Result<NameMap<Score>, SyncError>, store: bool, release_lock: bool },
}

/// A `FetchEvent` as a mathematical value.
pub ghost enum FetchEventView {
    Cache(Option<Map<Seq<char>, Score>>),
    LockCreated,
    LockExists { elapsed_ms: u64 },
    LockFailed,
    Slept { elapsed_ms: u64 },
    Synced(Result<Map<Seq<char>, Score>, SyncError>),
}

/// A `FetchAction` as a mathematical value.
pub ghost enum FetchActionView {
    LoadCache,
    CreateLock,
    Sleep { ms: u64 },
    Sync,
    Finish { result: Result<Map<Seq<char>, Score>, SyncError>, store: bool, release_lock: bool },
}

impl View for FetchEvent {
    type V = FetchEventView;

    open spec fn view(&self) -> FetchEventView {
        match *self {
            FetchEvent::Cache(Some(scores)) => FetchEventView::Cache(Some(scores@)),
            FetchEvent::Cache(None) => FetchEventView::Cache(None),
            FetchEvent::LockCreated => FetchEventView::LockCreated,
            FetchEvent::LockExists { elapsed_ms } => FetchEventView::LockExists { elapsed_ms },
            FetchEvent::LockFailed => FetchEventView::LockFailed,
            FetchEvent::Slept { elapsed_ms } => FetchEventView::Slept { elapsed_ms },
            FetchEvent::Synced(Ok(scores)) => FetchEventView::Synced(Ok(scores@)),
            FetchEvent::Synced(Err(e)) => FetchEventView::Synced(Err(e)),
        }
    }
}

impl View for FetchAction {
    type V = FetchActionView;

    open spec fn view(&self) -> FetchActionView {
        match *self {
            FetchAction::LoadCache => FetchActionView::LoadCache,
            FetchAction::CreateLock => FetchActionView::CreateLock,
            FetchAction::Sleep { ms } => FetchActionView::Sleep { ms },
            FetchAction::Sync => FetchActionView::Sync,
            FetchAction::Finish { result: Ok(scores), store, release_lock } => FetchActionView::Finish {
                result: Ok(scores@),
                store,
                release_lock,
            },
            FetchAction::Finish { result: Err(e), store, release_lock } => FetchActionView::Finish {
                result: Err(e),
                store,
                release_lock,
            },
        }
    }
}

impl FetchEvent {
    /// The scores that the event carries hold no name twice.
    pub open spec fn wf(&self) -> bool {
        match *self {
            FetchEvent::Cache(Some(scores)) => scores.wf(),
            FetchEvent::Synced(Ok(scores)) => scores.wf(),
            _ => true,
        }
    }
}

impl FetchAction {
    /// The scores that the action carries hold no name twice.
    pub open spec fn wf(&self) -> bool {
        match *self {
            FetchAction::Finish { result: Ok(scores), .. } => scores.wf(),
            _ => true,
        }
    }
}

/// The end of a fetch without a result of its own: the empty scores, nothing
/// to store.
pub open spec fn finish_empty(release_lock: bool) -> FetchActionView {
    FetchActionView::Finish { result: Ok(Map::empty()), store: false, release_lock }
}

/// The end of a fetch with the scores that the cache held.
pub open spec fn finish_cached(scores: Map<Seq<char>, Score>) -> FetchActionView {
    FetchActionView::Finish { result: Ok(scores), store: false, release_lock: false }
}

/// One step of a guarded fetch: from where it stands, whether it holds the
/// lock, and what came of its last action, to where it stands then, whether
/// it holds the lock then, and what it asks for next.
///
/// A hit in the cache ends the fetch with the cached scores. After a miss
/// the fetch tries the lock: with the lock, or where the lock fails for
/// another reason than being held, it syncs. Where another fetch holds the
/// lock, it looks at the cache and sleeps in turn until the wait is over,
/// then tries the lock once more, and ends with the empty scores where that
/// fails too. After the sync the scores are stored on success, and the lock
/// is released if held. An event that does not answer the action asked for
/// ends the fetch with the empty scores.
pub open spec fn fetch_step(phase: FetchPhase, locked: bool, event: FetchEventView) -> (
    FetchPhase,
    bool,
    FetchActionView,
) {
    match (phase, event) {
        (FetchPhase::Lookup, FetchEventView::Cache(Some(scores))) => (
            FetchPhase::Over,
            locked,
            finish_cached(scores),
        ),
        (FetchPhase::Lookup, FetchEventView::Cache(None)) => (
            FetchPhase::Lock,
            locked,
            FetchActionView::CreateLock,
        ),
        (FetchPhase::Lock, FetchEventView::LockCreated) => (
            FetchPhase::Syncing,
            true,
            FetchActionView::Sync,
        ),
        (FetchPhase::Lock, FetchEventView::LockExists { elapsed_ms }) => if elapsed_ms
            < LOCK_WAIT_MS {
            (FetchPhase::Polling, locked, FetchActionView::LoadCache)
        } else {
            (FetchPhase::Relock, locked, FetchActionView::CreateLock)
        },
        (FetchPhase::Lock, FetchEventView::LockFailed) => (
            FetchPhase::Syncing,
            locked,
            FetchActionView::Sync,
        ),
        (FetchPhase::Polling, FetchEventView::Cache(Some(scores))) => (
            FetchPhase::Over,
            locked,
            finish_cached(scores),
        ),
        (FetchPhase::Polling, FetchEventView::Cache(None)) => (
            FetchPhase::Sleeping,
            locked,
            FetchActionView::Sleep { ms: LOCK_POLL_MS },
        ),
        (FetchPhase::Sleeping, FetchEventView::Slept { elapsed_ms }) => if elapsed_ms
            < LOCK_WAIT_MS {
            (FetchPhase::Polling, locked, FetchActionView::LoadCache)
        } else {
            (FetchPhase::Relock, locked, FetchActionView::CreateLock)
        },
        (FetchPhase::Relock, FetchEventView::LockCreated) => (
            FetchPhase::Syncing,
            true,
            FetchActionView::Sync,
        ),
        (FetchPhase::Syncing, FetchEventView::Synced(Ok(scores))) => (
            FetchPhase::Over,
            false,
            FetchActionView::Finish { result: Ok(scores), store: true, release_lock: locked },
        ),
        (FetchPhase::Syncing, FetchEventView::Synced(Err(e))) => (
            FetchPhase::Over,
            false,
            FetchActionView::Finish { result: Err(e), store: false, release_lock: locked },
        ),
        _ => (FetchPhase::Over, false, finish_empty(locked)),
    }
}

/// A fetch of a user's online scores that is guarded by the file cache and
/// its lock: where it stands, and whether it holds the lock.
pub struct CacheFetch {
    phase: FetchPhase,
    locked: bool,
}

impl CacheFetch {
    /// Where the fetch stands.
    pub closed spec fn phase(&self) -> FetchPhase {
        self.phase
    }

    /// Whether the fetch holds the lock.
    pub closed spec fn locked(&self) -> bool {
        self.locked
    }

    /// Begins a fetch for a user. Without a user name the fetch is over at
    /// once, with the empty scores; else the cache is looked at first.
    pub fn begin(username: &str) -> (r: (CacheFetch, FetchAction))
        ensures
            r.1.wf(),
            !r.0.locked(),
            username@.len() == 0 ==> r.0.phase() == FetchPhase::Over && r.1@ == finish_empty(false),
            username@.len() > 0 ==> r.0.phase() == FetchPhase::Lookup && r.1@
                == FetchActionView::LoadCache,
    {
        if username.is_empty() {
            (
                CacheFetch { phase: FetchPhase::Over, locked: false },
                FetchAction::Finish { result: Ok(NameMap::new()), store: false, release_lock: false },
            )
        } else {
            (CacheFetch { phase: FetchPhase::Lookup, locked: false }, FetchAction::LoadCache)
        }
    }

    /// Takes in what came of the last action and says what to do next.
    pub fn step(&mut self, event: FetchEvent) -> (action: FetchAction)
        requires
            event.wf(),
        ensures
            action.wf(),
            (final(self).phase(), final(self).locked(), action@) == fetch_step(
                old(self).phase(),
                old(self).locked(),
                event@,
            ),
    {
        let phase = self.phase;
        let locked = self.locked;
        match (phase, event) {
            (FetchPhase::Lookup, FetchEvent::Cache(Some(scores))) => {
                self.phase = FetchPhase::Over;
                FetchAction::Finish { result: Ok(scores), store: false, release_lock: false }
            },
            (FetchPhase::Lookup, FetchEvent::Cache(None)) => {
                self.phase = FetchPhase::Lock;
                FetchAction::CreateLock
            },
            (FetchPhase::Lock, FetchEvent::LockCreated) => {
                self.phase = FetchPhase::Syncing;
                self.locked = true;
                FetchAction::Sync
            },
            (FetchPhase::Lock, FetchEvent::LockExists { elapsed_ms }) => {
                if elapsed_ms < LOCK_WAIT_MS {
                    self.phase = FetchPhase::Polling;
                    FetchAction::LoadCache
                } else {
                    self.phase = FetchPhase::Relock;
                    FetchAction::CreateLock
                }
            },
            (FetchPhase::Lock, FetchEvent::LockFailed) => {
                self.phase = FetchPhase::Syncing;
                FetchAction::Sync
            },
            (FetchPhase::Polling, FetchEvent::Cache(Some(scores))) => {
                self.phase = FetchPhase::Over;
                FetchAction::Finish { result: Ok(scores), store: false, release_lock: false }
            },
            (FetchPhase::Polling, FetchEvent::Cache(None)) => {
                self.phase = FetchPhase::Sleeping;
                FetchAction::Sleep { ms: LOCK_POLL_MS }
            },
            (FetchPhase::Sleeping, FetchEvent::Slept { elapsed_ms }) => {
                if elapsed_ms < LOCK_WAIT_MS {
                    self.phase = FetchPhase::Polling;
                    FetchAction::LoadCache
                } else {
                    self.phase = FetchPhase::Relock;
                    FetchAction::CreateLock
                }
            },
            (FetchPhase::Relock, FetchEvent::LockCreated) => {
                self.phase = FetchPhase::Syncing;
                self.locked = true;
                FetchAction::Sync
            },
            (FetchPhase::Syncing, FetchEvent::Synced(Ok(scores))) => {
                self.phase = FetchPhase::Over;
                self.locked = false;
                FetchAction::Finish { result: Ok(scores), store: true, release_lock: locked }
            },
            (FetchPhase::Syncing, FetchEvent::Synced(Err(e))) => {
                self.phase = FetchPhase::Over;
                self.locked = false;
                FetchAction::Finish { result: Err(e), store: false, release_lock: locked }
            },
            _ => {
                self.phase = FetchPhase::Over;
                self.locked = false;
                FetchAction::Finish { result: Ok(NameMap::new()), store: false, release_lock: locked }
            },
        }
    }
}

/// A fetch that finds the lock held by another never waits without end: a
/// miss in the cache is answered by one sleep of the poll interval; once the
/// wait is over the fetch looks and sleeps no more but tries the lock again;
/// and where that fails, it ends with the empty scores and stores nothing.
pub proof fn lemma_lock_fallback(elapsed_ms: u64, locked: bool)
    ensures
        fetch_step(FetchPhase::Polling, locked, FetchEventView::Cache(None)) == (
            FetchPhase::Sleeping,
            locked,
            FetchActionView::Sleep { ms: LOCK_POLL_MS },
        ),
        elapsed_ms >= LOCK_WAIT_MS ==> fetch_step(
            FetchPhase::Sleeping,
            locked,
            FetchEventView::Slept { elapsed_ms },
        ) == (FetchPhase::Relock, locked, FetchActionView::CreateLock),
        elapsed_ms >= LOCK_WAIT_MS ==> fetch_step(
            FetchPhase::Lock,
            locked,
            FetchEventView::LockExists { elapsed_ms },
        ) == (FetchPhase::Relock, locked, FetchActionView::CreateLock),
        fetch_step(FetchPhase::Relock, false, FetchEventView::LockExists { elapsed_ms }) == (
            FetchPhase::Over,
            false,
            finish_empty(false),
        ),
        fetch_step(FetchPhase::Relock, false, FetchEventView::LockFailed) == (
            FetchPhase::Over,
            false,
            finish_empty(false),
        ),
{
}

/// Where a fetch stands after a sequence of events, and whether it holds the
/// lock then.
pub open spec fn fetch_after(phase: FetchPhase, locked: bool, events: Seq<FetchEventView>) -> (
    FetchPhase,
    bool,
)
    decreases events.len(),
{
    if events.len() == 0 {
        (phase, locked)
    } else {
        let before = fetch_after(phase, locked, events.drop_last());
        let next = fetch_step(before.0, before.1, events.last());
        (next.0, next.1)
    }
}

/// Nothing happens but that the cache is missed, a sleep ends, or the lock
/// is found to be held by another.
pub open spec fn lock_stays_held(events: Seq<FetchEventView>) -> bool {
    forall|i: int|
        0 <= i < events.len() ==> (#[trigger] events[i]) == FetchEventView::Cache(None) || events[i]
            is Slept || events[i] is LockExists
}

/// What a fetch asks for while the lock stays held: a look at the cache, an
/// attempt at the lock, a sleep of the poll interval, or the end with the
/// empty scores.
pub open spec fn waits_or_gives_up(action: FetchActionView) -> bool {
    ||| action == FetchActionView::LoadCache
    ||| action == FetchActionView::CreateLock
    ||| action == FetchActionView::Sleep { ms: LOCK_POLL_MS }
    ||| action == finish_empty(false)
}

/// As long as no cache appears and the lock stays held by another, a fetch
/// never syncs, never takes the lock and never stores anything.
pub proof fn lemma_held_lock_keeps_waiting(events: Seq<FetchEventView>)
    requires
        lock_stays_held(events),
    ensures
        !fetch_after(FetchPhase::Lookup, false, events).1,
        fetch_after(FetchPhase::Lookup, false, events).0 != FetchPhase::Syncing,
    decreases events.len(),
{
    if events.len() > 0 {
        let front = events.drop_last();
        assert(lock_stays_held(front)) by {
            assert forall|i: int| 0 <= i < front.len() implies (#[trigger] front[i])
                == FetchEventView::Cache(None) || front[i] is Slept || front[i] is LockExists by {
                assert(front[i] == events[i]);
            }
        }
        lemma_held_lock_keeps_waiting(front);
        assert(events[events.len() - 1] == events.last());
    }
}

/// As long as no cache appears and the lock stays held by another, whatever
/// a fetch asks for is a look at the cache, an attempt at the lock or a sleep
/// of the poll interval, and the only end that it comes to is the one with
/// the empty scores.
pub proof fn lemma_held_lock_ends_empty(events: Seq<FetchEventView>, i: int)
    requires
        lock_stays_held(events),
        0 <= i < events.len(),
    ensures
        ({
            let before = fetch_after(FetchPhase::Lookup, false, events.take(i));
            waits_or_gives_up(fetch_step(before.0, before.1, events[i]).2)
        }),
{
    let head = events.take(i);
    assert(lock_stays_held(head)) by {
        assert forall|k: int| 0 <= k < head.len() implies (#[trigger] head[k])
            == FetchEventView::Cache(None) || head[k] is Slept || head[k] is LockExists by {
            assert(head[k] == events[k]);
        }
    }
    lemma_held_lock_keeps_waiting(head);
}

/// A fetch removes the lock file only if it created it, and stores scores
/// only after a sync that succeeded.
pub proof fn lemma_fetch_releases_own_lock(phase: FetchPhase, locked: bool, event: FetchEventView)
    ensures
        fetch_step(phase, locked, event).2 matches FetchActionView::Finish {
            result,
            store,
            release_lock,
        } ==> (release_lock ==> locked) && (store ==> phase == FetchPhase::Syncing && result is Ok),
{
}

/// The end of a sync, failed or not, ends the fetch, and a lock that the
/// fetch holds is released then.
pub proof fn lemma_sync_end_releases_lock(locked: bool, outcome: Result<Map<Seq<char>, Score>, SyncError>)
    ensures
        fetch_step(FetchPhase::Syncing, locked, FetchEventView::Synced(outcome)) == (
            FetchPhase::Over,
            false,
            FetchActionView::Finish { result: outcome, store: outcome is Ok, release_lock: locked },
        ),
{
}

} // verus!
