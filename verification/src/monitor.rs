//! The session monitor: the polling state machine that follows the game from
//! tick to tick. Each step takes what came of the last request, updates the
//! session, and says what is to be done and what is to be asked for next; the
//! caller does the waiting, reading and sending.

use crate::game::unknown_scenario;
use crate::local_scores::{normalize_scenario_name, normalized_name};
use crate::online::held_score;
use crate::scanner::{
    fight, find_fight_time_and_score, find_initial_scores, initial_best, initial_names, names_of,
    StatsFile,
};
use crate::score::Score;
use crate::table::NameMap;
use crate::text::same_text;
use vstd::prelude::*;

verus! {

/// The period of the monitor, in milliseconds.
pub const TICK_MS: u64 = 10000;

/// The pause while an online sync is in progress, in milliseconds.
pub const SYNC_BACKOFF_MS: u64 = 1000;

/// The pause after a tick that could not go on, in milliseconds.
pub const RETRY_MS: u64 = 5000;

/// What the monitor knows of the running session.
pub struct SessionState {
    pub current_scenario: String,
    pub local_highscore: Score,
    pub session_highscore: Score,
    pub checked_files: Vec<String>,
    pub session_start_time: i64,
    pub session_best_scores: NameMap<Score>,
    pub kovaaks_was_running: bool,
}

/// A `SessionState` as a mathematical value.
pub ghost struct SessionView {
    pub current_scenario: Seq<char>,
    pub local_highscore: Score,
    pub session_highscore: Score,
    pub checked_files: Seq<Seq<char>>,
    pub session_start_time: i64,
    pub session_best_scores: Map<Seq<char>, Score>,
    pub kovaaks_was_running: bool,
}

impl View for SessionState {
    type V = SessionView;

    open spec fn view(&self) -> SessionView {
        SessionView {
            current_scenario: self.current_scenario@,
            local_highscore: self.local_highscore,
            session_highscore: self.session_highscore,
            checked_files: names_of(self.checked_files@),
            session_start_time: self.session_start_time,
            session_best_scores: self.session_best_scores@,
            kovaaks_was_running: self.kovaaks_was_running,
        }
    }
}

/// The session at the start of tracking at time `now`.
pub open spec fn fresh_session(now: i64) -> SessionView {
    SessionView {
        current_scenario: Seq::<char>::empty(),
        local_highscore: 0,
        session_highscore: 0,
        checked_files: Seq::<Seq<char>>::empty(),
        session_start_time: now,
        session_best_scores: Map::empty(),
        kovaaks_was_running: false,
    }
}

/// The session after the game was seen to start at `now`: a new start time,
/// no session bests, no checked files.
pub open spec fn session_started(s: SessionView, now: i64) -> SessionView {
    SessionView {
        session_start_time: now,
        session_best_scores: Map::empty(),
        checked_files: Seq::<Seq<char>>::empty(),
        ..s
    }
}

/// The session after the game was seen to stop: no scenario, no scores.
pub open spec fn session_stopped(s: SessionView) -> SessionView {
    SessionView {
        current_scenario: Seq::<char>::empty(),
        local_highscore: 0,
        session_highscore: 0,
        ..s
    }
}

/// The session after the game was looked for at `now`.
pub open spec fn after_presence(s: SessionView, running: bool, now: i64) -> SessionView {
    let moved = if running && !s.kovaaks_was_running {
        session_started(s, now)
    } else if !running && s.kovaaks_was_running {
        session_stopped(s)
    } else {
        s
    };
    SessionView { kovaaks_was_running: running, ..moved }
}

/// The scenario to follow in this tick, from what the save file gave: its
/// normalized name, unless nothing was read or the name is empty or unknown.
pub open spec fn usable_scenario(raw: Option<String>) -> Option<Seq<char>> {
    match raw {
        Some(name) => {
            let key = normalized_name(name@);
            if key.len() == 0 || key == unknown_scenario() {
                None
            } else {
                Some(key)
            }
        },
        None => None,
    }
}

/// The session after a switch to `scenario`: the high score is the greater of
/// the ledger's and the baseline of the logs, the session best is what the
/// session holds for the scenario, and the logs of the baseline are checked.
pub open spec fn switched(
    s: SessionView,
    scenario: Seq<char>,
    cached_highscore: Score,
    files: Seq<StatsFile>,
) -> SessionView {
    let initial = initial_best(files, scenario);
    SessionView {
        current_scenario: scenario,
        local_highscore: if initial > cached_highscore {
            initial
        } else {
            cached_highscore
        },
        session_highscore: held_score(s.session_best_scores, scenario),
        checked_files: initial_names(files, scenario),
        ..s
    }
}

/// Whether the incremental scan brings something to take in: a new log with
/// a score above zero.
pub open spec fn scan_found(s: SessionView, scenario: Seq<char>, files: Seq<StatsFile>) -> bool {
    fight(files, scenario, s.checked_files).1 && fight(files, scenario, s.checked_files).0 > 0
}

/// The session after the incremental scan: where a new score was found, the
/// logs of the scenario are checked, and the score raises the session best
/// and the high score where it is strictly greater.
pub open spec fn scan_taken(s: SessionView, scenario: Seq<char>, files: Seq<StatsFile>) -> SessionView {
    let found = fight(files, scenario, s.checked_files);
    if scan_found(s, scenario, files) {
        let better = found.0 > held_score(s.session_best_scores, scenario);
        SessionView {
            checked_files: initial_names(files, scenario),
            session_best_scores: if better {
                s.session_best_scores.insert(scenario, found.0)
            } else {
                s.session_best_scores
            },
            session_highscore: if better {
                found.0
            } else {
                s.session_highscore
            },
            local_highscore: if found.0 > s.local_highscore {
                found.0
            } else {
                s.local_highscore
            },
            ..s
        }
    } else {
        s
    }
}

/// Something that the monitor wants done, without an answer.
#[derive(Debug)]
pub enum Effect {
    /// Clear the presence that is broadcast.
    ClearPresence,
    /// Tell the interface that the scenario changed.
    ScenarioChanged { name: String, highscore: Score, session_best: Score },
    /// Record a local score in the ledger.
    WriteLedger { scenario: String, score: Score, last_played: Option<i64> },
    /// Reload the snapshot of the ledger.
    RefreshScoreCache,
    /// Broadcast the presence of the session.
    UpdatePresence { scenario: String, highscore: Score, session_best: Score },
}

/// An `Effect` as a mathematical value.
pub ghost enum EffectView {
    ClearPresence,
    ScenarioChanged { name: Seq<char>, highscore: Score, session_best: Score },
    WriteLedger { scenario: Seq<char>, score: Score, last_played: Option<i64> },
    RefreshScoreCache,
    UpdatePresence { scenario: Seq<char>, highscore: Score, session_best: Score },
}

impl View for Effect {
    type V = EffectView;

    open spec fn view(&self) -> EffectView {
        match *self {
            Effect::ClearPresence => EffectView::ClearPresence,
            Effect::ScenarioChanged { name, highscore, session_best } => EffectView::ScenarioChanged {
                name: name@,
                highscore,
                session_best,
            },
            Effect::WriteLedger { scenario, score, last_played } => EffectView::WriteLedger {
                scenario: scenario@,
                score,
                last_played,
            },
            Effect::RefreshScoreCache => EffectView::RefreshScoreCache,
            Effect::UpdatePresence { scenario, highscore, session_best } => EffectView::UpdatePresence {
                scenario: scenario@,
                highscore,
                session_best,
            },
        }
    }
}

/// What the monitor asks for next; the answer is the next event.
#[derive(Debug)]
pub enum Request {
    /// Nothing more: the monitor has stopped.
    Stop,
    /// Sleep, then say whether the monitor is to run and whether a sync is in
    /// progress.
    Sleep { ms: u64 },
    /// Say whether the game runs, and what time it is.
    DetectGame,
    /// Make sure that the presence can be broadcast.
    Connect,
    /// Read the scenario from the game's save file.
    ReadScenario,
    /// Ask the admission filter for the scenario.
    Admit { scenario: String },
    /// List the stats folder, and give the ledger's score for the scenario.
    ListLogs { scenario: String },
}

/// A `Request` as a mathematical value.
pub ghost enum RequestView {
    Stop,
    Sleep { ms: u64 },
    DetectGame,
    Connect,
    ReadScenario,
    Admit { scenario: Seq<char> },
    ListLogs { scenario: Seq<char> },
}

impl View for Request {
    type V = RequestView;

    open spec fn view(&self) -> RequestView {
        match *self {
            Request::Stop => RequestView::Stop,
            Request::Sleep { ms } => RequestView::Sleep { ms },
            Request::DetectGame => RequestView::DetectGame,
            Request::Connect => RequestView::Connect,
            Request::ReadScenario => RequestView::ReadScenario,
            Request::Admit { scenario } => RequestView::Admit { scenario: scenario@ },
            Request::ListLogs { scenario } => RequestView::ListLogs { scenario: scenario@ },
        }
    }
}

/// What came of the monitor's last request.
pub enum MonitorEvent {
    /// A tick begins: whether the monitor is to run, and whether an online
    /// sync is in progress.
    Tick { rpc_running: bool, sync_in_progress: bool },
    /// Whether the game runs, and the time in seconds since the Unix epoch.
    Game { running: bool, now: i64 },
    /// Whether the presence can be broadcast.
    Connected(bool),
    /// The scenario that the save file names; `None` where it could not be
    /// read.
    Scenario(Option<String>),
    /// Whether the admission filter lets the scenario pass.
    Admitted(bool),
    /// The listing of the stats folder, and the ledger's score for the
    /// scenario, zero where it has none.
    Logs { files: Vec<StatsFile>, cached_highscore: Score },
}

/// What the monitor awaits.
#[derive(Clone, Copy, Debug, PartialEq, Eq, Structural)]
pub enum MonitorPhase {
    /// The begin of a tick.
    Resting,
    /// Whether the game runs.
    Detecting,
    /// Whether the presence can be broadcast.
    Connecting,
    /// The scenario of the save file.
    Reading,
    /// The word of the admission filter.
    Admitting,
    /// The listing of the stats folder.
    Scanning,
    /// Nothing: the monitor has stopped.
    Stopped,
}

/// One step of the monitor as a mathematical value.
pub ghost struct Outcome {
    pub session: SessionView,
    pub phase: MonitorPhase,
    pub pending: Seq<char>,
    pub effects: Seq<EffectView>,
    pub request: RequestView,
}

/// A step without effects.
pub open spec fn quiet(
    session: SessionView,
    phase: MonitorPhase,
    pending: Seq<char>,
    request: RequestView,
) -> Outcome {
    Outcome { session, phase, pending, effects: Seq::<EffectView>::empty(), request }
}

/// What is to be done at a switch to `scenario`: a baseline above the
/// ledger's score is recorded, and the interface is told of the scenario.
pub open spec fn switch_effects(
    s: SessionView,
    scenario: Seq<char>,
    cached_highscore: Score,
    files: Seq<StatsFile>,
) -> Seq<EffectView> {
    let initial = initial_best(files, scenario);
    let after = switched(s, scenario, cached_highscore, files);
    let told = EffectView::ScenarioChanged {
        name: scenario,
        highscore: after.local_highscore,
        session_best: after.session_highscore,
    };
    if initial > cached_highscore {
        seq![EffectView::WriteLedger { scenario, score: initial, last_played: None }, told]
    } else {
        seq![told]
    }
}

/// What is to be done after the incremental scan: a new score above the high
/// score is recorded with the time of its log, and the snapshot of the ledger
/// is reloaded.
pub open spec fn scan_effects(s: SessionView, scenario: Seq<char>, files: Seq<StatsFile>) -> Seq<
    EffectView,
> {
    let found = fight(files, scenario, s.checked_files);
    if scan_found(s, scenario, files) && found.0 > s.local_highscore {
        seq![
            EffectView::WriteLedger { scenario, score: found.0, last_played: found.2 },
            EffectView::RefreshScoreCache,
        ]
    } else {
        Seq::<EffectView>::empty()
    }
}

/// The step that takes in the listing of the stats folder for the scenario
/// `pending`: a switch where the scenario changed, then the incremental scan,
/// then the broadcast of the presence and the rest until the next tick.
pub open spec fn scan_step(
    s: SessionView,
    pending: Seq<char>,
    files: Seq<StatsFile>,
    cached_highscore: Score,
) -> Outcome {
    let changed = s.current_scenario != pending;
    let entered = if changed {
        switched(s, pending, cached_highscore, files)
    } else {
        s
    };
    let told = if changed {
        switch_effects(s, pending, cached_highscore, files)
    } else {
        Seq::<EffectView>::empty()
    };
    let after = scan_taken(entered, pending, files);
    Outcome {
        session: after,
        phase: MonitorPhase::Resting,
        pending,
        effects: told + scan_effects(entered, pending, files) + seq![
            EffectView::UpdatePresence {
                scenario: pending,
                highscore: after.local_highscore,
                session_best: after.session_highscore,
            },
        ],
        request: RequestView::Sleep { ms: TICK_MS },
    }
}

/// One step of the monitor: from the session, what the monitor awaits, the
/// scenario of the tick, and what came of the last request.
///
/// A tick begins by asking whether the monitor is to run; it stops where it
/// is not, and pauses while an online sync is in progress. Then the game is
/// looked for. Where it has just started the session is reset; where it has
/// just stopped the presence is cleared, the scenario and scores are reset
/// and the interface is told. While the game runs, the tick goes on to the
/// connection, the scenario, the admission filter and the logs; where one of
/// them fails, the tick ends after a short pause and the session stays as it
/// is. An event that does not answer the last request ends the tick.
pub open spec fn monitor_step(
    s: SessionView,
    phase: MonitorPhase,
    pending: Seq<char>,
    event: MonitorEvent,
) -> Outcome {
    match (phase, event) {
        (MonitorPhase::Stopped, _) => quiet(s, MonitorPhase::Stopped, pending, RequestView::Stop),
        (MonitorPhase::Resting, MonitorEvent::Tick { rpc_running, sync_in_progress }) => if !rpc_running {
            quiet(s, MonitorPhase::Stopped, pending, RequestView::Stop)
        } else if sync_in_progress {
            quiet(s, MonitorPhase::Resting, pending, RequestView::Sleep { ms: SYNC_BACKOFF_MS })
        } else {
            quiet(s, MonitorPhase::Detecting, pending, RequestView::DetectGame)
        },
        (MonitorPhase::Detecting, MonitorEvent::Game { running, now }) => if running {
            quiet(after_presence(s, running, now), MonitorPhase::Connecting, pending, RequestView::Connect)
        } else {
            Outcome {
                session: after_presence(s, running, now),
                phase: MonitorPhase::Resting,
                pending,
                effects: if s.kovaaks_was_running {
                    seq![
                        EffectView::ClearPresence,
                        EffectView::ScenarioChanged {
                            name: Seq::<char>::empty(),
                            highscore: 0,
                            session_best: 0,
                        },
                    ]
                } else {
                    Seq::<EffectView>::empty()
                },
                request: RequestView::Sleep { ms: TICK_MS },
            }
        },
        (MonitorPhase::Connecting, MonitorEvent::Connected(ok)) => if ok {
            quiet(s, MonitorPhase::Reading, pending, RequestView::ReadScenario)
        } else {
            quiet(s, MonitorPhase::Resting, pending, RequestView::Sleep { ms: RETRY_MS })
        },
        (MonitorPhase::Reading, MonitorEvent::Scenario(raw)) => match usable_scenario(raw) {
            Some(scenario) => quiet(
                s,
                MonitorPhase::Admitting,
                scenario,
                RequestView::Admit { scenario },
            ),
            None => quiet(s, MonitorPhase::Resting, pending, RequestView::Sleep { ms: RETRY_MS }),
        },
        (MonitorPhase::Admitting, MonitorEvent::Admitted(ok)) => if ok {
            quiet(s, MonitorPhase::Scanning, pending, RequestView::ListLogs { scenario: pending })
        } else {
            quiet(s, MonitorPhase::Resting, pending, RequestView::Sleep { ms: RETRY_MS })
        },
        (MonitorPhase::Scanning, MonitorEvent::Logs { files, cached_highscore }) => scan_step(
            s,
            pending,
            files@,
            cached_highscore,
        ),
        _ => quiet(s, MonitorPhase::Resting, pending, RequestView::Sleep { ms: TICK_MS }),
    }
}

/// The event says that the tick cannot go on: there is no connection, no
/// usable scenario, or no admission.
pub open spec fn tick_fails(phase: MonitorPhase, event: MonitorEvent) -> bool {
    match (phase, event) {
        (MonitorPhase::Connecting, MonitorEvent::Connected(ok)) => !ok,
        (MonitorPhase::Reading, MonitorEvent::Scenario(raw)) => usable_scenario(raw) is None,
        (MonitorPhase::Admitting, MonitorEvent::Admitted(ok)) => !ok,
        _ => false,
    }
}

/// The event says at the begin of a tick that the monitor is not to run.
pub open spec fn told_to_stop(phase: MonitorPhase, event: MonitorEvent) -> bool {
    match (phase, event) {
        (MonitorPhase::Resting, MonitorEvent::Tick { rpc_running, .. }) => !rpc_running,
        _ => false,
    }
}

/// A tick that cannot go on changes nothing: the session stays as it is,
/// nothing is done, and the monitor rests for the short pause.
pub proof fn lemma_failed_tick_keeps_session(
    s: SessionView,
    phase: MonitorPhase,
    pending: Seq<char>,
    event: MonitorEvent,
)
    requires
        tick_fails(phase, event),
    ensures
        monitor_step(s, phase, pending, event) == quiet(
            s,
            MonitorPhase::Resting,
            pending,
            RequestView::Sleep { ms: RETRY_MS },
        ),
{
}

/// The monitor stops only when it is told at the begin of a tick that it is
/// not to run, and once stopped it stays stopped.
pub proof fn lemma_monitor_stops_only_on_demand(
    s: SessionView,
    phase: MonitorPhase,
    pending: Seq<char>,
    event: MonitorEvent,
)
    ensures
        monitor_step(s, phase, pending, event).request is Stop <==> phase == MonitorPhase::Stopped
            || told_to_stop(phase, event),
        monitor_step(s, phase, pending, event).phase == MonitorPhase::Stopped <==> monitor_step(
            s,
            phase,
            pending,
            event,
        ).request is Stop,
{
}

/// Taking in a scan never lowers the high score of the session, and checks
/// no file that is not a log of the scenario.
pub proof fn lemma_scan_never_lowers(s: SessionView, scenario: Seq<char>, files: Seq<StatsFile>)
    ensures
        scan_taken(s, scenario, files).local_highscore >= s.local_highscore,
        scan_taken(s, scenario, files).current_scenario == s.current_scenario,
        scan_taken(s, scenario, files).session_start_time == s.session_start_time,
{
}

/// What the monitor wants done and what it asks for next.
pub struct Step {
    pub effects: Vec<Effect>,
    pub request: Request,
}

/// The effects of a step as mathematical values.
pub open spec fn effects_of(effects: Seq<Effect>) -> Seq<EffectView> {
    effects.map_values(|e: Effect| e@)
}

/// The session monitor.
pub struct Monitor {
    session: SessionState,
    phase: MonitorPhase,
    pending: String,
}

impl Monitor {
    /// The session bests hold no name twice.
    pub closed spec fn wf(&self) -> bool {
        self.session.session_best_scores.wf()
    }

    /// The session.
    pub closed spec fn view(&self) -> SessionView {
        self.session@
    }

    /// What the monitor awaits.
    pub closed spec fn phase(&self) -> MonitorPhase {
        self.phase
    }

    /// The scenario of the tick.
    pub closed spec fn pending(&self) -> Seq<char> {
        self.pending@
    }

    /// The monitor at the start of tracking at time `now`: a fresh session,
    /// awaiting the begin of the first tick.
    pub fn new(now: i64) -> (r: Self)
        ensures
            r.wf(),
            r@ == fresh_session(now),
            r.phase() == MonitorPhase::Resting,
            r.pending() == Seq::<char>::empty(),
    {
        let r = Monitor {
            session: SessionState {
                current_scenario: String::new(),
                local_highscore: 0,
                session_highscore: 0,
                checked_files: Vec::new(),
                session_start_time: now,
                session_best_scores: NameMap::new(),
                kovaaks_was_running: false,
            },
            phase: MonitorPhase::Resting,
            pending: String::new(),
        };
        assert(names_of(r.session.checked_files@) =~= Seq::<Seq<char>>::empty());
        r
    }

    /// The session.
    pub fn session(&self) -> (r: &SessionState)
        ensures
            r@ == self@,
    {
        &self.session
    }

    /// Takes in what came of the last request and says what is to be done
    /// and asked for next.
    pub fn step(&mut self, event: MonitorEvent) -> (step: Step)
        requires
            old(self).wf(),
        ensures
            final(self).wf(),
            ({
                let out = monitor_step(old(self)@, old(self).phase(), old(self).pending(), event);
                &&& final(self)@ == out.session
                &&& final(self).phase() == out.phase
                &&& final(self).pending() == out.pending
                &&& effects_of(step.effects@) == out.effects
                &&& step.request@ == out.request
            }),
    {
        let phase = self.phase;
        let mut effects: Vec<Effect> = Vec::new();
        assert(effects_of(effects@) =~= Seq::<EffectView>::empty());
        match (phase, event) {
            (MonitorPhase::Stopped, _) => Step { effects, request: Request::Stop },
            (MonitorPhase::Resting, MonitorEvent::Tick { rpc_running, sync_in_progress }) => {
                if !rpc_running {
                    self.phase = MonitorPhase::Stopped;
                    Step { effects, request: Request::Stop }
                } else if sync_in_progress {
                    Step { effects, request: Request::Sleep { ms: SYNC_BACKOFF_MS } }
                } else {
                    self.phase = MonitorPhase::Detecting;
                    Step { effects, request: Request::DetectGame }
                }
            },
            (MonitorPhase::Detecting, MonitorEvent::Game { running, now }) => {
                let was_running = self.session.kovaaks_was_running;
                self.session.kovaaks_was_running = running;
                if running {
                    if !was_running {
                        self.session.session_start_time = now;
                        self.session.session_best_scores = NameMap::new();
                        self.session.checked_files = Vec::new();
                        assert(names_of(self.session.checked_files@) =~= Seq::<Seq<char>>::empty());
                    }
                    self.phase = MonitorPhase::Connecting;
                    Step { effects, request: Request::Connect }
                } else {
                    if was_running {
                        self.session.current_scenario = String::new();
                        self.session.local_highscore = 0;
                        self.session.session_highscore = 0;
                        effects.push(Effect::ClearPresence);
                        effects.push(
                            Effect::ScenarioChanged {
                                name: String::new(),
                                highscore: 0,
                                session_best: 0,
                            },
                        );
                        assert(effects_of(effects@) =~= seq![
                            EffectView::ClearPresence,
                            EffectView::ScenarioChanged {
                                name: Seq::<char>::empty(),
                                highscore: 0,
                                session_best: 0,
                            },
                        ]);
                    }
                    self.phase = MonitorPhase::Resting;
                    Step { effects, request: Request::Sleep { ms: TICK_MS } }
                }
            },
            (MonitorPhase::Connecting, MonitorEvent::Connected(ok)) => {
                if ok {
                    self.phase = MonitorPhase::Reading;
                    Step { effects, request: Request::ReadScenario }
                } else {
                    self.phase = MonitorPhase::Resting;
                    Step { effects, request: Request::Sleep { ms: RETRY_MS } }
                }
            },
            (MonitorPhase::Reading, MonitorEvent::Scenario(raw)) => {
                let usable: Option<String> = match &raw {
                    Some(name) => {
                        let key = normalize_scenario_name(name.as_str());
                        if key.as_str().is_empty() || same_text(key.as_str(), "Unknown Scenario") {
                            None
                        } else {
                            Some(key)
                        }
                    },
                    None => None,
                };
                match usable {
                    Some(scenario) => {
                        self.phase = MonitorPhase::Admitting;
                        self.pending = scenario.clone();
                        Step { effects, request: Request::Admit { scenario } }
                    },
                    None => {
                        self.phase = MonitorPhase::Resting;
                        Step { effects, request: Request::Sleep { ms: RETRY_MS } }
                    },
                }
            },
            (MonitorPhase::Admitting, MonitorEvent::Admitted(ok)) => {
                if ok {
                    self.phase = MonitorPhase::Scanning;
                    Step { effects, request: Request::ListLogs { scenario: self.pending.clone() } }
                } else {
                    self.phase = MonitorPhase::Resting;
                    Step { effects, request: Request::Sleep { ms: RETRY_MS } }
                }
            },
            (MonitorPhase::Scanning, MonitorEvent::Logs { files, cached_highscore }) => {
                let ghost start = self.session@;
                let ghost pending = self.pending@;
                let changed = !same_text(self.session.current_scenario.as_str(), self.pending.as_str());
                if changed {
                    let session_best: Score = match self.session.session_best_scores.get(
                        self.pending.as_str(),
                    ) {
                        Some(best) => *best,
                        None => 0,
                    };
                    let (initial, names) = find_initial_scores(self.pending.as_str(), &files);
                    self.session.current_scenario = self.pending.clone();
                    self.session.local_highscore = cached_highscore;
                    self.session.session_highscore = session_best;
                    if initial > cached_highscore {
                        self.session.local_highscore = initial;
                        effects.push(
                            Effect::WriteLedger {
                                scenario: self.pending.clone(),
                                score: initial,
                                last_played: None,
                            },
                        );
                    }
                    self.session.checked_files = names;
                    effects.push(
                        Effect::ScenarioChanged {
                            name: self.pending.clone(),
                            highscore: self.session.local_highscore,
                            session_best: self.session.session_highscore,
                        },
                    );
                    assert(self.session@ == switched(start, pending, cached_highscore, files@));
                    assert(effects_of(effects@) =~= switch_effects(
                        start,
                        pending,
                        cached_highscore,
                        files@,
                    ));
                }
                let ghost entered = self.session@;
                let ghost told = effects_of(effects@);
                let (new_score, found_new, last_played) = find_fight_time_and_score(
                    self.pending.as_str(),
                    &files,
                    &self.session.checked_files,
                );
                if found_new && new_score > 0 {
                    let (_, names) = find_initial_scores(self.pending.as_str(), &files);
                    self.session.checked_files = names;
                    let current_session_best: Score = match self.session.session_best_scores.get(
                        self.pending.as_str(),
                    ) {
                        Some(best) => *best,
                        None => 0,
                    };
                    if new_score > current_session_best {
                        self.session.session_best_scores.insert(self.pending.as_str(), new_score);
                        self.session.session_highscore = new_score;
                    }
                    if new_score > self.session.local_highscore {
                        self.session.local_highscore = new_score;
                        effects.push(
                            Effect::WriteLedger {
                                scenario: self.pending.clone(),
                                score: new_score,
                                last_played,
                            },
                        );
                        effects.push(Effect::RefreshScoreCache);
                    }
                }
                assert(self.session@ == scan_taken(entered, pending, files@));
                assert(effects_of(effects@) =~= told + scan_effects(entered, pending, files@));
                effects.push(
                    Effect::UpdatePresence {
                        scenario: self.pending.clone(),
                        highscore: self.session.local_highscore,
                        session_best: self.session.session_highscore,
                    },
                );
                assert(effects_of(effects@) =~= scan_step(
                    start,
                    pending,
                    files@,
                    cached_highscore,
                ).effects);
                self.phase = MonitorPhase::Resting;
                Step { effects, request: Request::Sleep { ms: TICK_MS } }
            },
            _ => {
                self.phase = MonitorPhase::Resting;
                Step { effects, request: Request::Sleep { ms: TICK_MS } }
            },
        }
    }
}

} // verus!
