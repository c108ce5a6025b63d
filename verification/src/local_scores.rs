//! The local high-score ledger: one best score per normalized scenario name.

use crate::score::{max_score, Score, TimedScore};
use crate::table::{distinct_names, lemma_map_of_dom, map_of, NameMap};
use crate::text::{
    blank, chars_of, is_blank, lemma_stripped_has_no_suffix, same_text, string_of, strip_repeated,
    stripped_len,
};
use vstd::prelude::*;

verus! {

/// The cosmetic suffix that marks the challenge variant of a scenario.
pub open spec fn challenge_suffix() -> Seq<char> {
    " - Challenge"@
}

/// The canonical key of a scenario name: the name without its challenge
/// suffix, however often that is repeated.
pub open spec fn normalized_name(name: Seq<char>) -> Seq<char> {
    strip_repeated(name, challenge_suffix())
}

/// Normalizing is idempotent: a normalized name is its own key.
pub proof fn lemma_normalize_idempotent(name: Seq<char>)
    ensures
        normalized_name(normalized_name(name)) == normalized_name(name),
{
    reveal_strlit(" - Challenge");
    lemma_stripped_has_no_suffix(name, challenge_suffix());
}

/// The challenge variant of a scenario has the key of the scenario itself.
pub proof fn lemma_challenge_variant_collapses(name: Seq<char>)
    ensures
        normalized_name(name + challenge_suffix()) == normalized_name(name),
{
    reveal_strlit(" - Challenge");
    let long = name + challenge_suffix();
    assert(long.subrange(long.len() - challenge_suffix().len(), long.len() as int) =~= challenge_suffix());
    assert(long.take(long.len() - challenge_suffix().len()) =~= name);
}

/// The canonical key of a raw scenario name.
pub fn normalize_scenario_name(name: &str) -> (r: String)
    ensures
        r@ == normalized_name(name@),
{
    let chars = chars_of(name);
    let suffix = chars_of(" - Challenge");
    proof {
        reveal_strlit(" - Challenge");
    }
    let end = stripped_len(&chars, &suffix);
    proof {
        assert(chars@.subrange(0, end as int) =~= chars@.take(end as int));
    }
    string_of(&chars, 0, end)
}

/// Where a recorded score came from.
#[derive(Clone, Copy, Debug, PartialEq, Eq, Structural)]
pub enum ScoreSource {
    Local,
    Online,
}

/// The best score known for one scenario.
#[derive(Debug)]
pub struct ScenarioScore {
    pub scenario_name: String,
    pub highscore: Score,
    pub last_played: Option<u64>,
    pub source: ScoreSource,
}

/// A `ScenarioScore` as a mathematical value.
pub ghost struct ScoreRecord {
    pub scenario_name: Seq<char>,
    pub highscore: Score,
    pub last_played: Option<u64>,
    pub source: ScoreSource,
}

impl View for ScenarioScore {
    type V = ScoreRecord;

    open spec fn view(&self) -> ScoreRecord {
        ScoreRecord {
            scenario_name: self.scenario_name@,
            highscore: self.highscore,
            last_played: self.last_played,
            source: self.source,
        }
    }
}

impl Clone for ScenarioScore {
    fn clone(&self) -> (r: Self)
        ensures
            r@ == self@,
    {
        ScenarioScore {
            scenario_name: self.scenario_name.clone(),
            highscore: self.highscore,
            last_played: self.last_played,
            source: self.source,
        }
    }
}

/// The ledger as a mathematical value: normalized name to best score.
pub type Ledger = Map<Seq<char>, ScoreRecord>;

/// A file time as a ledger timestamp: whole seconds since the Unix epoch,
/// unknown for a time before it.
pub open spec fn played_at(file_time: Option<i64>) -> Option<u64> {
    match file_time {
        Some(t) => if t >= 0 {
            Some(t as u64)
        } else {
            None
        },
        None => None,
    }
}

/// Whether `score` would be a new high score for `name`: the scenario has no
/// entry yet, or the score is strictly greater than the stored one.
pub open spec fn improves(ledger: Ledger, name: Seq<char>, score: Score) -> bool {
    let key = normalized_name(name);
    !ledger.dom().contains(key) || score > ledger[key].highscore
}

/// The ledger after a score was observed for `name`. A new scenario gets an
/// entry; a strictly greater score replaces score, time and source; any other
/// score leaves them, but a known time of play is still taken over.
pub open spec fn recorded(
    ledger: Ledger,
    name: Seq<char>,
    score: Score,
    last_played: Option<u64>,
    source: ScoreSource,
) -> Ledger {
    let key = normalized_name(name);
    if !ledger.dom().contains(key) {
        ledger.insert(
            key,
            ScoreRecord { scenario_name: key, highscore: score, last_played, source },
        )
    } else if score > ledger[key].highscore {
        ledger.insert(
            key,
            ScoreRecord { highscore: score, last_played, source, ..ledger[key] },
        )
    } else if last_played is Some {
        ledger.insert(key, ScoreRecord { last_played, ..ledger[key] })
    } else {
        ledger
    }
}

/// The ledger after one online score was merged in. A new scenario gets an
/// online entry without a time of play; a strictly greater score replaces the
/// stored score and marks it online; any other score changes nothing.
pub open spec fn merged_one(ledger: Ledger, name: Seq<char>, score: Score) -> Ledger {
    let key = normalized_name(name);
    if !ledger.dom().contains(key) {
        ledger.insert(
            key,
            ScoreRecord {
                scenario_name: key,
                highscore: score,
                last_played: None,
                source: ScoreSource::Online,
            },
        )
    } else if score > ledger[key].highscore {
        ledger.insert(
            key,
            ScoreRecord { highscore: score, source: ScoreSource::Online, ..ledger[key] },
        )
    } else {
        ledger
    }
}

/// The ledger after a whole scan of the stats folder was taken in, entry by
/// entry, each as a local score.
pub open spec fn populated(ledger: Ledger, incoming: Seq<(Seq<char>, TimedScore)>) -> Ledger
    decreases incoming.len(),
{
    if incoming.len() == 0 {
        ledger
    } else {
        let e = incoming.last();
        recorded(
            populated(ledger, incoming.drop_last()),
            e.0,
            e.1.score,
            played_at(e.1.time),
            ScoreSource::Local,
        )
    }
}

/// How many entries of a scan created or improved a ledger entry.
pub open spec fn populated_count(ledger: Ledger, incoming: Seq<(Seq<char>, TimedScore)>) -> nat
    decreases incoming.len(),
{
    if incoming.len() == 0 {
        0
    } else {
        let e = incoming.last();
        let before = populated(ledger, incoming.drop_last());
        populated_count(ledger, incoming.drop_last()) + if improves(before, e.0, e.1.score) {
            1nat
        } else {
            0nat
        }
    }
}

/// The ledger after a set of online scores was merged in, entry by entry.
pub open spec fn merged(ledger: Ledger, incoming: Seq<(Seq<char>, Score)>) -> Ledger
    decreases incoming.len(),
{
    if incoming.len() == 0 {
        ledger
    } else {
        let e = incoming.last();
        merged_one(merged(ledger, incoming.drop_last()), e.0, e.1)
    }
}

/// How many online scores created or improved a ledger entry.
pub open spec fn merged_count(ledger: Ledger, incoming: Seq<(Seq<char>, Score)>) -> nat
    decreases incoming.len(),
{
    if incoming.len() == 0 {
        0
    } else {
        let e = incoming.last();
        let before = merged(ledger, incoming.drop_last());
        merged_count(ledger, incoming.drop_last()) + if improves(before, e.0, e.1) {
            1nat
        } else {
            0nat
        }
    }
}

/// A stored entry under the key it belongs to: an entry whose stored name is
/// not normalized is renamed to its key.
pub open spec fn rekeyed(name: Seq<char>, entry: ScoreRecord) -> ScoreRecord {
    if normalized_name(name) != name {
        ScoreRecord { scenario_name: normalized_name(name), ..entry }
    } else {
        entry
    }
}

/// The ledger after one stored entry was taken over under its normalized
/// name. Of entries that meet under one key the strictly greater score stays.
pub open spec fn migrated_one(ledger: Ledger, name: Seq<char>, entry: ScoreRecord) -> Ledger {
    let key = normalized_name(name);
    if ledger.dom().contains(key) && entry.highscore <= ledger[key].highscore {
        ledger
    } else {
        ledger.insert(key, rekeyed(name, entry))
    }
}

/// The ledger that a stored table stands for once every name is normalized.
pub open spec fn migrated(stored: Seq<(Seq<char>, ScoreRecord)>) -> Ledger
    decreases stored.len(),
{
    if stored.len() == 0 {
        Map::empty()
    } else {
        migrated_one(migrated(stored.drop_last()), stored.last().0, stored.last().1)
    }
}

/// Some stored name is not normalized.
pub open spec fn needs_migration(stored: Seq<(Seq<char>, ScoreRecord)>) -> bool {
    exists|i: int| 0 <= i < stored.len() && normalized_name((#[trigger] stored[i]).0) != stored[i].0
}

/// One change to the ledger: a score recorded for a scenario, or an online
/// score merged in.
pub ghost enum LedgerOp {
    Update { name: Seq<char>, score: Score, last_played: Option<u64>, source: ScoreSource },
    MergeOnline { name: Seq<char>, score: Score },
}

/// The ledger after one change.
pub open spec fn applied(ledger: Ledger, op: LedgerOp) -> Ledger {
    match op {
        LedgerOp::Update { name, score, last_played, source } => recorded(
            ledger,
            name,
            score,
            last_played,
            source,
        ),
        LedgerOp::MergeOnline { name, score } => merged_one(ledger, name, score),
    }
}

/// The ledger after a sequence of changes, first to last.
pub open spec fn applied_all(ledger: Ledger, ops: Seq<LedgerOp>) -> Ledger
    decreases ops.len(),
{
    if ops.len() == 0 {
        ledger
    } else {
        applied(applied_all(ledger, ops.drop_last()), ops.last())
    }
}

/// Recording a score that is not above the stored one leaves the stored high
/// score as it was, and recording it a second time changes nothing at all.
pub proof fn lemma_update_idempotent(
    ledger: Ledger,
    name: Seq<char>,
    score: Score,
    last_played: Option<u64>,
    source: ScoreSource,
)
    requires
        ledger.dom().contains(normalized_name(name)),
        score <= ledger[normalized_name(name)].highscore,
    ensures
        ({
            let key = normalized_name(name);
            let once = recorded(ledger, name, score, last_played, source);
            let twice = recorded(once, name, score, last_played, source);
            &&& once.dom() == ledger.dom()
            &&& once[key].highscore == ledger[key].highscore
            &&& once[key].source == ledger[key].source
            &&& twice == once
        }),
{
    let key = normalized_name(name);
    let once = recorded(ledger, name, score, last_played, source);
    let twice = recorded(once, name, score, last_played, source);
    assert(once.dom() =~= ledger.dom());
    assert(twice =~= once);
}

/// No single change removes a scenario or lowers its stored high score.
pub proof fn lemma_change_monotone(ledger: Ledger, op: LedgerOp, key: Seq<char>)
    requires
        ledger.dom().contains(key),
    ensures
        applied(ledger, op).dom().contains(key),
        applied(ledger, op)[key].highscore >= ledger[key].highscore,
{
}

/// Over any sequence of recorded and merged scores, the stored high score of
/// a scenario never decreases.
pub proof fn lemma_highscore_monotone(ledger: Ledger, ops: Seq<LedgerOp>, key: Seq<char>)
    requires
        ledger.dom().contains(key),
    ensures
        applied_all(ledger, ops).dom().contains(key),
        applied_all(ledger, ops)[key].highscore >= ledger[key].highscore,
    decreases ops.len(),
{
    if ops.len() > 0 {
        lemma_highscore_monotone(ledger, ops.drop_last(), key);
        lemma_change_monotone(applied_all(ledger, ops.drop_last()), ops.last(), key);
    }
}

/// Merging a set of online scores never removes a scenario or lowers its
/// stored high score, and never touches a time of play.
pub proof fn lemma_merge_monotone(ledger: Ledger, incoming: Seq<(Seq<char>, Score)>, key: Seq<char>)
    requires
        ledger.dom().contains(key),
    ensures
        merged(ledger, incoming).dom().contains(key),
        merged(ledger, incoming)[key].highscore >= ledger[key].highscore,
        merged(ledger, incoming)[key].last_played == ledger[key].last_played,
        merged(ledger, incoming)[key].highscore == ledger[key].highscore ==> merged(
            ledger,
            incoming,
        )[key] == ledger[key],
    decreases incoming.len(),
{
    if incoming.len() > 0 {
        lemma_merge_monotone(ledger, incoming.drop_last(), key);
    }
}

/// Taking in a scan never removes a scenario or lowers its stored high score.
pub proof fn lemma_populate_monotone(
    ledger: Ledger,
    incoming: Seq<(Seq<char>, TimedScore)>,
    key: Seq<char>,
)
    requires
        ledger.dom().contains(key),
    ensures
        populated(ledger, incoming).dom().contains(key),
        populated(ledger, incoming)[key].highscore >= ledger[key].highscore,
    decreases incoming.len(),
{
    if incoming.len() > 0 {
        lemma_populate_monotone(ledger, incoming.drop_last(), key);
    }
}

/// Scores recorded under a scenario's name and under its challenge variant,
/// in either order, meet in one entry under the scenario's key. That entry
/// holds the greatest of the two scores and of the score stored before.
pub proof fn lemma_variants_collapse(
    ledger: Ledger,
    name: Seq<char>,
    challenge: (Score, Option<u64>, ScoreSource),
    base: (Score, Option<u64>, ScoreSource),
)
    ensures
        ({
            let key = normalized_name(name);
            let variant = name + challenge_suffix();
            let a = recorded(
                recorded(ledger, variant, challenge.0, challenge.1, challenge.2),
                name,
                base.0,
                base.1,
                base.2,
            );
            let b = recorded(
                recorded(ledger, name, base.0, base.1, base.2),
                variant,
                challenge.0,
                challenge.1,
                challenge.2,
            );
            let best = max_score(challenge.0 as int, base.0 as int);
            let expected = if ledger.dom().contains(key) {
                max_score(best, ledger[key].highscore as int)
            } else {
                best
            };
            &&& a.dom() == ledger.dom().insert(key)
            &&& b.dom() == ledger.dom().insert(key)
            &&& a[key].highscore == expected
            &&& b[key].highscore == expected
        }),
{
    lemma_challenge_variant_collapses(name);
    let key = normalized_name(name);
    let variant = name + challenge_suffix();
    let a1 = recorded(ledger, variant, challenge.0, challenge.1, challenge.2);
    let a = recorded(a1, name, base.0, base.1, base.2);
    let b1 = recorded(ledger, name, base.0, base.1, base.2);
    let b = recorded(b1, variant, challenge.0, challenge.1, challenge.2);
    assert(a1.dom() =~= ledger.dom().insert(key));
    assert(b1.dom() =~= ledger.dom().insert(key));
    assert(a.dom() =~= ledger.dom().insert(key));
    assert(b.dom() =~= ledger.dom().insert(key));
}

/// Every key of a migrated ledger is normalized, and the entry under it holds
/// the greatest score stored under any name with that key.
pub proof fn lemma_migrated_keeps_best(stored: Seq<(Seq<char>, ScoreRecord)>, i: int)
    requires
        0 <= i < stored.len(),
    ensures
        migrated(stored).dom().contains(normalized_name(stored[i].0)),
        migrated(stored)[normalized_name(stored[i].0)].highscore >= stored[i].1.highscore,
    decreases stored.len(),
{
    let front = stored.drop_last();
    if i < stored.len() - 1 {
        lemma_migrated_keeps_best(front, i);
        assert(front[i] == stored[i]);
    }
}

/// Every key of the ledger is a normalized name.
pub open spec fn keys_normalized(ledger: Ledger) -> bool {
    forall|key: Seq<char>| ledger.dom().contains(key) ==> normalized_name(key) == key
}

/// Every key of a migrated ledger is a normalized name.
pub proof fn lemma_migrated_keys_normalized(stored: Seq<(Seq<char>, ScoreRecord)>)
    ensures
        keys_normalized(migrated(stored)),
    decreases stored.len(),
{
    if stored.len() > 0 {
        lemma_migrated_keys_normalized(stored.drop_last());
        lemma_normalize_idempotent(stored.last().0);
    }
}

/// Reloading what was saved changes nothing: a stored table whose names are
/// distinct and normalized, as every ledger's are, is taken over as it is,
/// and nothing is to be written back.
pub proof fn lemma_reload_is_identity(stored: Seq<(Seq<char>, ScoreRecord)>)
    requires
        distinct_names(stored),
        forall|i: int| 0 <= i < stored.len() ==> normalized_name((#[trigger] stored[i]).0) == stored[i].0,
    ensures
        migrated(stored) == map_of(stored),
        !needs_migration(stored),
    decreases stored.len(),
{
    if stored.len() > 0 {
        let front = stored.drop_last();
        assert(distinct_names(front)) by {
            assert forall|a: int, b: int| 0 <= a < b < front.len() implies front[a].0 != front[b].0 by {
                assert(front[a] == stored[a] && front[b] == stored[b]);
            }
        }
        assert forall|i: int| 0 <= i < front.len() implies normalized_name((#[trigger] front[i]).0)
            == front[i].0 by {
            assert(front[i] == stored[i]);
        }
        lemma_reload_is_identity(front);
        lemma_map_of_dom(front, stored.last().0);
        if map_of(front).dom().contains(stored.last().0) {
            let i = choose|i: int| 0 <= i < front.len() && (#[trigger] front[i]).0 == stored.last().0;
            assert(front[i] == stored[i]);
            assert(stored[stored.len() - 1] == stored.last());
        }
        assert(stored[stored.len() - 1] == stored.last());
    }
}

/// What is to be done with the ledger file after a load.
#[derive(Clone, Copy, Debug, PartialEq, Eq, Structural)]
pub enum LoadAction {
    /// The file is in order, or there is none.
    Keep,
    /// Names were normalized: the ledger is to be written back at once.
    Resave,
    /// The file does not decode: it is to be renamed to its backup name.
    SetAside,
}

/// The persisted ledger: a format version and the scores by scenario.
pub struct LocalScoresFile {
    pub version: u32,
    pub scores: NameMap<ScenarioScore>,
}

impl LocalScoresFile {
    /// The scores table holds no name twice.
    pub open spec fn wf(&self) -> bool {
        self.scores.wf()
    }

    /// The empty ledger of the current format version.
    pub fn new() -> (r: Self)
        ensures
            r.wf(),
            r.version == 1,
            r.scores@ == Map::<Seq<char>, ScoreRecord>::empty(),
            r.scores.entries().len() == 0,
    {
        LocalScoresFile { version: 1, scores: NameMap::new() }
    }
}

impl Default for LocalScoresFile {
    fn default() -> (r: Self)
        ensures
            r.wf(),
            r.version == 1,
            r.scores@ == Map::<Seq<char>, ScoreRecord>::empty(),
    {
        LocalScoresFile::new()
    }
}

/// The ledger of one installation, as last loaded from its file.
pub struct LocalScoresManager {
    file_path: String,
    data: LocalScoresFile,
}

impl LocalScoresManager {
    /// The scores table holds no name twice, and every name in it is
    /// normalized.
    pub closed spec fn wf(&self) -> bool {
        self.data.wf() && keys_normalized(self.data.scores@)
    }

    /// The ledger's contents.
    pub closed spec fn view(&self) -> Ledger {
        self.data.scores@
    }

    /// The format version of the ledger.
    pub closed spec fn version(&self) -> u32 {
        self.data.version
    }

    /// The path of the ledger file.
    pub closed spec fn path(&self) -> Seq<char> {
        self.file_path@
    }

    /// A manager for the ledger file at `file_path`, holding the empty ledger.
    pub fn new(file_path: String) -> (r: Self)
        ensures
            r.wf(),
            r@ == Map::<Seq<char>, ScoreRecord>::empty(),
            r.version() == 1,
            r.path() == file_path@,
    {
        LocalScoresManager { file_path, data: LocalScoresFile::new() }
    }

    /// The path of the ledger file.
    pub fn get_path(&self) -> (r: &String)
        ensures
            r@ == self.path(),
    {
        &self.file_path
    }

    /// Records a score observed for a scenario and says whether it is a new
    /// high score.
    pub fn update_score(
        &mut self,
        scenario_name: &str,
        new_score: Score,
        last_played: Option<i64>,
        source: ScoreSource,
    ) -> (is_new_highscore: bool)
        requires
            old(self).wf(),
        ensures
            final(self).wf(),
            final(self)@ == recorded(
                old(self)@,
                scenario_name@,
                new_score,
                played_at(last_played),
                source,
            ),
            is_new_highscore == improves(old(self)@, scenario_name@, new_score),
            final(self).version() == old(self).version(),
            final(self).path() == old(self).path(),
    {
        let key = normalize_scenario_name(scenario_name);
        let played = timestamp_of(last_played);
        proof {
            lemma_normalize_idempotent(scenario_name@);
        }
        record(&mut self.data.scores, key, new_score, played, source)
    }

    /// Takes in the result of a scan of the stats folder and says how many
    /// ledger entries were created or improved.
    pub fn populate_from_stats_folder(&mut self, stats_scores: &NameMap<TimedScore>) -> (updated: usize)
        requires
            old(self).wf(),
            stats_scores.wf(),
        ensures
            final(self).wf(),
            final(self)@ == populated(old(self)@, stats_scores.entries()),
            updated == populated_count(old(self)@, stats_scores.entries()),
            final(self).version() == old(self).version(),
            final(self).path() == old(self).path(),
    {
        let n = stats_scores.len();
        let mut updated: usize = 0;
        let mut i: usize = 0;
        let ghost start = self@;
        let ghost all = stats_scores.entries();
        assert(all.take(0) =~= Seq::<(Seq<char>, TimedScore)>::empty());
        while i < n
            invariant
                i <= n,
                n == all.len(),
                all == stats_scores.entries(),
                self.wf(),
                self@ == populated(start, all.take(i as int)),
                updated == populated_count(start, all.take(i as int)),
                updated <= i,
                self.version() == old(self).version(),
                self.path() == old(self).path(),
            decreases n - i,
        {
            let key = normalize_scenario_name(stats_scores.name_at(i).as_str());
            let found = *stats_scores.value_at(i);
            let played = timestamp_of(found.time);
            proof {
                lemma_normalize_idempotent(all[i as int].0);
                assert(all.take(i + 1).drop_last() =~= all.take(i as int));
                assert(all.take(i + 1).last() == all[i as int]);
            }
            if record(&mut self.data.scores, key, found.score, played, ScoreSource::Local) {
                updated += 1;
            }
            i += 1;
        }
        assert(all.take(n as int) =~= all);
        updated
    }

    /// Merges a set of online scores into the ledger and says how many
    /// ledger entries were created or improved.
    pub fn merge_online_scores(&mut self, online_scores: &NameMap<Score>) -> (updated: usize)
        requires
            old(self).wf(),
            online_scores.wf(),
        ensures
            final(self).wf(),
            final(self)@ == merged(old(self)@, online_scores.entries()),
            updated == merged_count(old(self)@, online_scores.entries()),
            final(self).version() == old(self).version(),
            final(self).path() == old(self).path(),
    {
        let n = online_scores.len();
        let mut updated: usize = 0;
        let mut i: usize = 0;
        let ghost start = self@;
        let ghost all = online_scores.entries();
        assert(all.take(0) =~= Seq::<(Seq<char>, Score)>::empty());
        while i < n
            invariant
                i <= n,
                n == all.len(),
                all == online_scores.entries(),
                self.wf(),
                self@ == merged(start, all.take(i as int)),
                updated == merged_count(start, all.take(i as int)),
                updated <= i,
                self.version() == old(self).version(),
                self.path() == old(self).path(),
            decreases n - i,
        {
            let key = normalize_scenario_name(online_scores.name_at(i).as_str());
            let score = *online_scores.value_at(i);
            proof {
                lemma_normalize_idempotent(all[i as int].0);
                assert(all.take(i + 1).drop_last() =~= all.take(i as int));
                assert(all.take(i + 1).last() == all[i as int]);
            }
            if merge_record(&mut self.data.scores, key, score) {
                updated += 1;
            }
            i += 1;
        }
        assert(all.take(n as int) =~= all);
        updated
    }

    /// Replaces the ledger by what its file holds. A blank or missing file
    /// gives the empty ledger; one that does not decode gives the empty
    /// ledger and is to be set aside; a decoded one is taken over with every
    /// name normalized, and is to be written back if that changed a name.
    pub fn load_stored(&mut self, stored: StoredLedger) -> (action: LoadAction)
        requires
            stored matches StoredLedger::Parsed(file) ==> file.wf(),
        ensures
            final(self).wf(),
            final(self).path() == old(self).path(),
            match stored {
                StoredLedger::Parsed(file) => {
                    &&& final(self)@ == migrated(file.scores.entries())
                    &&& final(self).version() == file.version
                    &&& action == if needs_migration(file.scores.entries()) {
                        LoadAction::Resave
                    } else {
                        LoadAction::Keep
                    }
                },
                StoredLedger::Corrupt => {
                    &&& final(self)@ == Map::<Seq<char>, ScoreRecord>::empty()
                    &&& final(self).version() == 1
                    &&& action == LoadAction::SetAside
                },
                _ => {
                    &&& final(self)@ == Map::<Seq<char>, ScoreRecord>::empty()
                    &&& final(self).version() == 1
                    &&& action == LoadAction::Keep
                },
            },
    {
        match stored {
            StoredLedger::Parsed(file) => {
                let (scores, renamed) = migrate(&file.scores);
                proof {
                    lemma_migrated_keys_normalized(file.scores.entries());
                }
                self.data = LocalScoresFile { version: file.version, scores };
                if renamed {
                    LoadAction::Resave
                } else {
                    LoadAction::Keep
                }
            },
            StoredLedger::Corrupt => {
                self.data = LocalScoresFile::new();
                LoadAction::SetAside
            },
            _ => {
                self.data = LocalScoresFile::new();
                LoadAction::Keep
            },
        }
    }

    /// Replaces the ledger by what its file holds. `contents` is the text of
    /// the file, `None` where there is no file or it cannot be read; `parsed`
    /// is what the text decodes to, `None` where it does not decode.
    pub fn load(&mut self, contents: Option<&str>, parsed: Option<LocalScoresFile>) -> (action:
        LoadAction)
        requires
            parsed matches Some(file) ==> file.wf(),
        ensures
            final(self).wf(),
            final(self).path() == old(self).path(),
            match contents {
                Some(text) if !is_blank(text@) => match parsed {
                    Some(file) => {
                        &&& final(self)@ == migrated(file.scores.entries())
                        &&& final(self).version() == file.version
                        &&& action == if needs_migration(file.scores.entries()) {
                            LoadAction::Resave
                        } else {
                            LoadAction::Keep
                        }
                    },
                    None => {
                        &&& final(self)@ == Map::<Seq<char>, ScoreRecord>::empty()
                        &&& final(self).version() == 1
                        &&& action == LoadAction::SetAside
                    },
                },
                _ => {
                    &&& final(self)@ == Map::<Seq<char>, ScoreRecord>::empty()
                    &&& final(self).version() == 1
                    &&& action == LoadAction::Keep
                },
            },
    {
        self.load_stored(stored_ledger(contents, parsed))
    }

    /// The ledger, for writing its file.
    pub fn data(&self) -> (r: &LocalScoresFile)
        ensures
            r.scores@ == self@,
            r.version == self.version(),
            self.wf() ==> r.wf() && keys_normalized(r.scores@),
    {
        &self.data
    }

    /// The ledger entry of a scenario.
    pub fn get_score(&self, scenario_name: &str) -> (r: Option<ScenarioScore>)
        requires
            self.wf(),
        ensures
            match r {
                Some(entry) => self@.dom().contains(normalized_name(scenario_name@)) && entry@
                    == self@[normalized_name(scenario_name@)],
                None => !self@.dom().contains(normalized_name(scenario_name@)),
            },
    {
        let key = normalize_scenario_name(scenario_name);
        match self.data.scores.get(key.as_str()) {
            Some(entry) => Some(entry.clone()),
            None => None,
        }
    }

    /// A snapshot of every ledger entry.
    pub fn get_all_scores(&self) -> (r: NameMap<ScenarioScore>)
        requires
            self.wf(),
        ensures
            r.wf(),
            r@ == self@,
    {
        snapshot(&self.data.scores)
    }

    /// Whether the ledger knows a time of play for the scenario.
    pub fn was_played_locally(&self, scenario_name: &str) -> (r: bool)
        requires
            self.wf(),
        ensures
            r == (self@.dom().contains(normalized_name(scenario_name@)) && self@[normalized_name(
                scenario_name@,
            )].last_played is Some),
    {
        let key = normalize_scenario_name(scenario_name);
        match self.data.scores.get(key.as_str()) {
            Some(entry) => entry.last_played.is_some(),
            None => false,
        }
    }
}

/// What the ledger file holds.
pub enum StoredLedger {
    /// There is no file, or it cannot be read.
    Absent,
    /// The file holds nothing but whitespace.
    Blank,
    /// The text of the file does not decode.
    Corrupt,
    /// The decoded file.
    Parsed(LocalScoresFile),
}

/// What the ledger file holds, from its text, `None` where there is no file
/// or it cannot be read, and what the text decodes to, `None` where it does
/// not decode.
pub fn stored_ledger(contents: Option<&str>, parsed: Option<LocalScoresFile>) -> (r: StoredLedger)
    ensures
        match contents {
            Some(text) => if is_blank(text@) {
                r is Blank
            } else {
                match parsed {
                    Some(file) => r == StoredLedger::Parsed(file),
                    None => r is Corrupt,
                }
            },
            None => r is Absent,
        },
{
    match contents {
        Some(text) => if blank(text) {
            StoredLedger::Blank
        } else {
            match parsed {
                Some(file) => StoredLedger::Parsed(file),
                None => StoredLedger::Corrupt,
            }
        },
        None => StoredLedger::Absent,
    }
}

/// The high score that a snapshot of the ledger holds for a scenario, zero
/// where it holds none.
pub fn get_score_for_scenario(score_cache: &NameMap<ScenarioScore>, scenario_name: &str) -> (r: Score)
    requires
        score_cache.wf(),
    ensures
        r == (if score_cache@.dom().contains(scenario_name@) {
            score_cache@[scenario_name@].highscore
        } else {
            0
        }),
{
    match score_cache.get(scenario_name) {
        Some(entry) => entry.highscore,
        None => 0,
    }
}

/// A copy of a scores table, entry by entry.
pub fn snapshot(scores: &NameMap<ScenarioScore>) -> (r: NameMap<ScenarioScore>)
    requires
        scores.wf(),
    ensures
        r.wf(),
        r.entries() == scores.entries(),
        r@ == scores@,
{
    let n = scores.len();
    let mut r: NameMap<ScenarioScore> = NameMap::new();
    let mut i: usize = 0;
    let ghost all = scores.entries();
    assert(all.take(0) =~= Seq::<(Seq<char>, ScoreRecord)>::empty());
    while i < n
        invariant
            i <= n,
            n == all.len(),
            all == scores.entries(),
            scores.wf(),
            r.wf(),
            r.entries() == all.take(i as int),
        decreases n - i,
    {
        proof {
            lemma_map_of_dom(r.entries(), all[i as int].0);
            if r@.dom().contains(all[i as int].0) {
                let j = choose|j: int| 0 <= j < r.entries().len() && (#[trigger] r.entries()[j]).0 == all[i as int].0;
                assert(all[j].0 == all[i as int].0);
            }
            assert(all.take(i as int).push(all[i as int]) =~= all.take(i + 1));
        }
        r.insert(scores.name_at(i).as_str(), scores.value_at(i).clone());
        i += 1;
    }
    assert(all.take(n as int) =~= all);
    r
}

/// Takes a stored table over under normalized names and says whether any
/// name had to be changed.
pub fn migrate(stored: &NameMap<ScenarioScore>) -> (r: (NameMap<ScenarioScore>, bool))
    requires
        stored.wf(),
    ensures
        r.0.wf(),
        r.0@ == migrated(stored.entries()),
        r.1 == needs_migration(stored.entries()),
{
    let n = stored.len();
    let mut scores: NameMap<ScenarioScore> = NameMap::new();
    let mut renamed = false;
    let mut i: usize = 0;
    let ghost all = stored.entries();
    assert(all.take(0) =~= Seq::<(Seq<char>, ScoreRecord)>::empty());
    while i < n
        invariant
            i <= n,
            n == all.len(),
            all == stored.entries(),
            scores.wf(),
            scores@ == migrated(all.take(i as int)),
            renamed == needs_migration(all.take(i as int)),
        decreases n - i,
    {
        let name = stored.name_at(i);
        let key = normalize_scenario_name(name.as_str());
        let mut entry = stored.value_at(i).clone();
        let changed = !same_text(key.as_str(), name.as_str());
        proof {
            let head = all.take(i as int);
            let next = all.take(i + 1);
            assert(next.drop_last() =~= head);
            assert(next.last() == all[i as int]);
            if needs_migration(head) {
                let j = choose|j: int| 0 <= j < head.len() && normalized_name((#[trigger] head[j]).0) != head[j].0;
                assert(normalized_name(next[j].0) != next[j].0);
            }
            if changed {
                assert(normalized_name(next[i as int].0) != next[i as int].0);
            }
            if needs_migration(next) && !changed {
                let j = choose|j: int| 0 <= j < next.len() && normalized_name((#[trigger] next[j]).0) != next[j].0;
                assert(j < i);
                assert(normalized_name(head[j].0) != head[j].0);
            }
        }
        if changed {
            renamed = true;
            entry.scenario_name = key.clone();
        }
        let keep_old = match scores.get(key.as_str()) {
            Some(existing) => entry.highscore <= existing.highscore,
            None => false,
        };
        if !keep_old {
            scores.insert(key.as_str(), entry);
        }
        i += 1;
    }
    assert(all.take(n as int) =~= all);
    (scores, renamed)
}

/// Merges one online score under an already normalized key.
fn merge_record(scores: &mut NameMap<ScenarioScore>, key: String, score: Score) -> (is_new: bool)
    requires
        old(scores).wf(),
        normalized_name(key@) == key@,
    ensures
        final(scores).wf(),
        final(scores)@ == merged_one(old(scores)@, key@, score),
        is_new == improves(old(scores)@, key@, score),
{
    let existing: Option<ScenarioScore> = match scores.get(key.as_str()) {
        Some(e) => Some(e.clone()),
        None => None,
    };
    match existing {
        Some(found) => {
            if score > found.highscore {
                let entry = ScenarioScore {
                    scenario_name: found.scenario_name,
                    highscore: score,
                    last_played: found.last_played,
                    source: ScoreSource::Online,
                };
                scores.insert(key.as_str(), entry);
                true
            } else {
                false
            }
        },
        None => {
            let entry = ScenarioScore {
                scenario_name: key.clone(),
                highscore: score,
                last_played: None,
                source: ScoreSource::Online,
            };
            scores.insert(key.as_str(), entry);
            true
        },
    }
}

/// A file time as a ledger timestamp.
pub fn timestamp_of(file_time: Option<i64>) -> (r: Option<u64>)
    ensures
        r == played_at(file_time),
{
    match file_time {
        Some(t) => if t >= 0 {
            Some(t as u64)
        } else {
            None
        },
        None => None,
    }
}

/// Records a score under an already normalized key.
fn record(
    scores: &mut NameMap<ScenarioScore>,
    key: String,
    score: Score,
    played: Option<u64>,
    source: ScoreSource,
) -> (is_new: bool)
    requires
        old(scores).wf(),
        normalized_name(key@) == key@,
    ensures
        final(scores).wf(),
        final(scores)@ == recorded(old(scores)@, key@, score, played, source),
        is_new == improves(old(scores)@, key@, score),
{
    let existing: Option<ScenarioScore> = match scores.get(key.as_str()) {
        Some(e) => Some(e.clone()),
        None => None,
    };
    match existing {
        Some(found) => {
            if score > found.highscore {
                let entry = ScenarioScore {
                    scenario_name: found.scenario_name,
                    highscore: score,
                    last_played: played,
                    source,
                };
                scores.insert(key.as_str(), entry);
                true
            } else {
                if played.is_some() {
                    let entry = ScenarioScore {
                        scenario_name: found.scenario_name,
                        highscore: found.highscore,
                        last_played: played,
                        source: found.source,
                    };
                    scores.insert(key.as_str(), entry);
                }
                false
            }
        },
        None => {
            let entry = ScenarioScore {
                scenario_name: key.clone(),
                highscore: score,
                last_played: played,
                source,
            };
            scores.insert(key.as_str(), entry);
            true
        },
    }
}

} // verus!
