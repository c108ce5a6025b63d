//! The log scanner: scores read from the per-attempt log files of the stats
//! folder. A log file is named `<scenario> - <suffix>.csv`; a line that holds
//! the marker `Score:,` carries the score in its second comma-separated field.

use crate::local_scores::{normalize_scenario_name, normalized_name};
use crate::score::{parse_score_in, parsed_score, Score, TimedScore};
use crate::table::NameMap;
use crate::text::{
    chars_of, contains_seq, ends_with, find_chars, first_index_of, has_prefix, has_suffix,
    is_last_occurrence, lemma_first_index_is, lemma_first_index_of, lemma_last_occurrence_unique,
    rfind_chars, same_text, slice_of, starts_with, string_of, strip_repeated, stripped_len,
};
use vstd::prelude::*;

verus! {

/// One file of the stats folder as it was found: its name, its text where it
/// could be read, and its times in whole seconds relative to the Unix epoch.
#[derive(Debug)]
pub struct StatsFile {
    pub name: String,
    pub content: Option<String>,
    pub created: Option<i64>,
    pub modified: Option<i64>,
}

impl Clone for StatsFile {
    fn clone(&self) -> (r: Self)
        ensures
            r == *self,
    {
        StatsFile {
            name: self.name.clone(),
            content: match &self.content {
                Some(text) => Some(text.clone()),
                None => None,
            },
            created: self.created,
            modified: self.modified,
        }
    }
}

/// The marker of a line that carries a score.
pub open spec fn score_marker() -> Seq<char> {
    "Score:,"@
}

/// A line without the carriage return at its end, if it has one.
pub open spec fn strip_cr(line: Seq<char>) -> Seq<char> {
    if line.len() > 0 && line.last() == '\r' {
        line.drop_last()
    } else {
        line
    }
}

/// The first line of a text: what stands before the first line feed, less a
/// carriage return before it; the whole text where it holds no line feed.
pub open spec fn first_line(s: Seq<char>) -> Seq<char> {
    let n = first_index_of(s, '\n');
    if n < s.len() {
        strip_cr(s.take(n))
    } else {
        s
    }
}

/// What follows the first line of a text.
pub open spec fn after_first_line(s: Seq<char>) -> Seq<char> {
    let n = first_index_of(s, '\n');
    if n < s.len() {
        s.skip(n + 1)
    } else {
        Seq::<char>::empty()
    }
}

/// The lines of a text.
pub open spec fn lines_of(s: Seq<char>) -> Seq<Seq<char>>
    decreases s.len(),
    via lines_of_terminates
{
    if s.len() == 0 {
        Seq::<Seq<char>>::empty()
    } else {
        seq![first_line(s)] + lines_of(after_first_line(s))
    }
}

#[via_fn]
proof fn lines_of_terminates(s: Seq<char>) {
    lemma_first_index_of(s, '\n');
}

/// The second comma-separated field of a line.
pub open spec fn second_field(line: Seq<char>) -> Option<Seq<char>> {
    let first_comma = first_index_of(line, ',');
    if first_comma < line.len() {
        let rest = line.skip(first_comma + 1);
        Some(rest.take(first_index_of(rest, ',')))
    } else {
        None
    }
}

/// The score that a line carries: that of its second field, where the line
/// holds the marker and the field writes a score.
pub open spec fn line_score(line: Seq<char>) -> Option<Score> {
    if contains_seq(line, score_marker()) {
        match second_field(line) {
            Some(field) => parsed_score(field),
            None => None,
        }
    } else {
        None
    }
}

/// The scores carried by the given lines, in order.
pub open spec fn scores_of(lines: Seq<Seq<char>>) -> Seq<Score>
    decreases lines.len(),
{
    if lines.len() == 0 {
        Seq::<Score>::empty()
    } else {
        match line_score(lines[0]) {
            Some(v) => seq![v] + scores_of(lines.skip(1)),
            None => scores_of(lines.skip(1)),
        }
    }
}

/// The scores carried by the lines of a text, in order.
pub open spec fn content_scores(s: Seq<char>) -> Seq<Score> {
    scores_of(lines_of(s))
}

/// The scores of a file; none where it could not be read.
pub open spec fn file_scores(f: StatsFile) -> Seq<Score> {
    match f.content {
        Some(text) => content_scores(text@),
        None => Seq::<Score>::empty(),
    }
}

/// The time of a file: when it was created, else when it was last modified.
pub open spec fn file_time(f: StatsFile) -> Option<i64> {
    if f.created is Some {
        f.created
    } else {
        f.modified
    }
}

/// The file name belongs to an attempt at `scenario`.
pub open spec fn is_attempt_of(name: Seq<char>, scenario: Seq<char>) -> bool {
    starts_with(name, scenario + " - "@)
}

/// The file is a log of an attempt at `scenario`.
pub open spec fn is_log_of(f: StatsFile, scenario: Seq<char>) -> bool {
    is_attempt_of(f.name@, scenario) && ends_with(f.name@, ".csv"@)
}

/// The names that a list of strings holds.
pub open spec fn names_of(list: Seq<String>) -> Seq<Seq<char>> {
    list.map_values(|s: String| s@)
}

/// The greatest of `floor` and the given scores.
pub open spec fn best_of(floor: Score, scores: Seq<Score>) -> Score
    decreases scores.len(),
{
    if scores.len() == 0 {
        floor
    } else {
        let before = best_of(floor, scores.drop_last());
        if scores.last() > before {
            scores.last()
        } else {
            before
        }
    }
}

/// The greatest score in the logs of `scenario`; zero where there is none
/// above it.
pub open spec fn initial_best(files: Seq<StatsFile>, scenario: Seq<char>) -> Score
    decreases files.len(),
{
    if files.len() == 0 {
        0
    } else {
        let before = initial_best(files.drop_last(), scenario);
        if is_log_of(files.last(), scenario) {
            best_of(before, file_scores(files.last()))
        } else {
            before
        }
    }
}

/// The names of the logs of `scenario`, in the order of the listing.
pub open spec fn initial_names(files: Seq<StatsFile>, scenario: Seq<char>) -> Seq<Seq<char>>
    decreases files.len(),
{
    if files.len() == 0 {
        Seq::<Seq<char>>::empty()
    } else {
        let before = initial_names(files.drop_last(), scenario);
        if is_log_of(files.last(), scenario) {
            before.push(files.last().name@)
        } else {
            before
        }
    }
}

/// `best_of` is at least the floor and at least every score, and is one of them.
pub proof fn lemma_best_of(floor: Score, scores: Seq<Score>)
    ensures
        best_of(floor, scores) >= floor,
        forall|i: int| 0 <= i < scores.len() ==> best_of(floor, scores) >= scores[i],
        best_of(floor, scores) == floor || scores.contains(best_of(floor, scores)),
    decreases scores.len(),
{
    if scores.len() > 0 {
        let front = scores.drop_last();
        lemma_best_of(floor, front);
        assert forall|i: int| 0 <= i < scores.len() implies best_of(floor, scores) >= scores[i] by {
            if i < front.len() {
                assert(front[i] == scores[i]);
            }
        }
        let b = best_of(floor, front);
        if scores.last() > b {
            assert(scores[scores.len() - 1] == scores.last());
        } else if front.contains(b) {
            let i = choose|i: int| 0 <= i < front.len() && front[i] == b;
            assert(scores[i] == b);
        }
    }
}

/// The baseline score is never negative, is at least every score in a log of
/// the scenario, and is zero or one of those scores.
pub proof fn lemma_initial_best_is_maximum(files: Seq<StatsFile>, scenario: Seq<char>)
    ensures
        initial_best(files, scenario) >= 0,
        forall|i: int, j: int|
            0 <= i < files.len() && is_log_of(files[i], scenario) && 0 <= j < file_scores(
                files[i],
            ).len() ==> initial_best(files, scenario) >= (#[trigger] file_scores(files[i])[j]),
        initial_best(files, scenario) == 0 || exists|i: int|
            0 <= i < files.len() && is_log_of(files[i], scenario) && (#[trigger] file_scores(
                files[i],
            )).contains(initial_best(files, scenario)),
    decreases files.len(),
{
    if files.len() > 0 {
        let front = files.drop_last();
        lemma_initial_best_is_maximum(front, scenario);
        let before = initial_best(front, scenario);
        let last = files.last();
        lemma_best_of(before, file_scores(last));
        let best = initial_best(files, scenario);
        assert forall|i: int, j: int|
            0 <= i < files.len() && is_log_of(files[i], scenario) && 0 <= j < file_scores(
                files[i],
            ).len() implies best >= (#[trigger] file_scores(files[i])[j]) by {
            if i < front.len() {
                assert(front[i] == files[i]);
            }
        }
        if best != 0 {
            if is_log_of(last, scenario) && best != before {
                assert(files[files.len() - 1] == last);
                assert(file_scores(files[files.len() - 1]).contains(best));
            } else {
                let i = choose|i: int|
                    0 <= i < front.len() && is_log_of(front[i], scenario) && (#[trigger] file_scores(
                        front[i],
                    )).contains(before);
                assert(front[i] == files[i]);
                assert(file_scores(files[i]).contains(best));
            }
        }
    }
}

/// The running result of an incremental scan: the greatest new score so far,
/// whether any new score was found, and the time of the file that holds the
/// greatest.
pub type Fight = (Score, bool, Option<i64>);

/// The running result after the scores of one file, whose time is `time`.
pub open spec fn fight_scores(state: Fight, scores: Seq<Score>, time: Option<i64>) -> Fight
    decreases scores.len(),
{
    if scores.len() == 0 {
        state
    } else {
        let before = fight_scores(state, scores.drop_last(), time);
        if scores.last() > before.0 {
            (scores.last(), true, time)
        } else {
            (before.0, true, before.2)
        }
    }
}

/// The file belongs to an attempt at `scenario` and is not among the checked.
pub open spec fn is_new_file_of(f: StatsFile, scenario: Seq<char>, checked: Seq<Seq<char>>) -> bool {
    is_attempt_of(f.name@, scenario) && !checked.contains(f.name@)
}

/// The result of an incremental scan: over the files of `scenario` that are
/// not among the checked, the greatest score above zero, whether any score
/// was found, and the time of the first file that holds the greatest.
pub open spec fn fight(files: Seq<StatsFile>, scenario: Seq<char>, checked: Seq<Seq<char>>) -> Fight
    decreases files.len(),
{
    if files.len() == 0 {
        (0, false, None)
    } else {
        let before = fight(files.drop_last(), scenario, checked);
        if is_new_file_of(files.last(), scenario, checked) {
            fight_scores(before, file_scores(files.last()), file_time(files.last()))
        } else {
            before
        }
    }
}

/// Where every file of the scenario is among the checked, an incremental
/// scan finds nothing: no score, no time.
pub proof fn lemma_fight_nothing_new(
    files: Seq<StatsFile>,
    scenario: Seq<char>,
    checked: Seq<Seq<char>>,
)
    requires
        forall|i: int|
            0 <= i < files.len() && is_attempt_of((#[trigger] files[i]).name@, scenario)
                ==> checked.contains(files[i].name@),
    ensures
        fight(files, scenario, checked) == (0i64, false, None::<i64>),
    decreases files.len(),
{
    if files.len() > 0 {
        let front = files.drop_last();
        assert forall|i: int|
            0 <= i < front.len() && is_attempt_of(
                (#[trigger] front[i]).name@,
                scenario,
            ) implies checked.contains(front[i].name@) by {
            assert(front[i] == files[i]);
        }
        lemma_fight_nothing_new(front, scenario, checked);
        assert(files[files.len() - 1] == files.last());
    }
}

/// The running result of a scan never holds a score below zero, and holds a
/// time only beside a score above zero.
pub proof fn lemma_fight_bounds(files: Seq<StatsFile>, scenario: Seq<char>, checked: Seq<Seq<char>>)
    ensures
        fight(files, scenario, checked).0 >= 0,
        !fight(files, scenario, checked).1 ==> fight(files, scenario, checked) == (
            0i64,
            false,
            None::<i64>,
        ),
        fight(files, scenario, checked).0 == 0 ==> fight(files, scenario, checked).2 is None,
    decreases files.len(),
{
    if files.len() > 0 {
        lemma_fight_bounds(files.drop_last(), scenario, checked);
        let before = fight(files.drop_last(), scenario, checked);
        if is_new_file_of(files.last(), scenario, checked) {
            lemma_fight_scores_bounds(before, file_scores(files.last()), file_time(files.last()));
        }
    }
}

/// One file keeps the bounds of the running result.
pub proof fn lemma_fight_scores_bounds(state: Fight, scores: Seq<Score>, time: Option<i64>)
    requires
        state.0 >= 0,
        !state.1 ==> state == (0i64, false, None::<i64>),
        state.0 == 0 ==> state.2 is None,
    ensures
        fight_scores(state, scores, time).0 >= state.0,
        !fight_scores(state, scores, time).1 ==> fight_scores(state, scores, time) == (
            0i64,
            false,
            None::<i64>,
        ),
        fight_scores(state, scores, time).0 == 0 ==> fight_scores(state, scores, time).2 is None,
    decreases scores.len(),
{
    if scores.len() > 0 {
        lemma_fight_scores_bounds(state, scores.drop_last(), time);
    }
}

/// The scores of one file never lower the running result, keep what was
/// found, and are all covered by it.
pub proof fn lemma_fight_scores_covers(state: Fight, scores: Seq<Score>, time: Option<i64>)
    ensures
        fight_scores(state, scores, time).0 >= state.0,
        state.1 ==> fight_scores(state, scores, time).1,
        scores.len() > 0 ==> fight_scores(state, scores, time).1,
        forall|j: int| 0 <= j < scores.len() ==> fight_scores(state, scores, time).0 >= scores[j],
    decreases scores.len(),
{
    if scores.len() > 0 {
        let front = scores.drop_last();
        lemma_fight_scores_covers(state, front, time);
        assert forall|j: int| 0 <= j < scores.len() implies fight_scores(state, scores, time).0
            >= scores[j] by {
            if j < front.len() {
                assert(front[j] == scores[j]);
            }
        }
    }
}

/// The result of an incremental scan covers every score of every new file of
/// the scenario, and says that a score was found where there is one.
pub proof fn lemma_fight_covers(
    files: Seq<StatsFile>,
    scenario: Seq<char>,
    checked: Seq<Seq<char>>,
    i: int,
    j: int,
)
    requires
        0 <= i < files.len(),
        is_new_file_of(files[i], scenario, checked),
        0 <= j < file_scores(files[i]).len(),
    ensures
        fight(files, scenario, checked).1,
        fight(files, scenario, checked).0 >= file_scores(files[i])[j],
    decreases files.len(),
{
    let front = files.drop_last();
    let before = fight(front, scenario, checked);
    if i < files.len() - 1 {
        assert(front[i] == files[i]);
        lemma_fight_covers(front, scenario, checked, i, j);
        if is_new_file_of(files.last(), scenario, checked) {
            lemma_fight_scores_covers(before, file_scores(files.last()), file_time(files.last()));
        }
    } else {
        assert(files[i] == files.last());
        lemma_fight_scores_covers(before, file_scores(files.last()), file_time(files.last()));
    }
}

/// The later of the time known so far and `t`.
pub open spec fn later_of(so_far: Option<i64>, t: i64) -> Option<i64> {
    match so_far {
        Some(b) => Some(if t > b {
            t
        } else {
            b
        }),
        None => Some(t),
    }
}

/// The latest time among the logs of `scenario` whose time is known.
pub open spec fn latest_time(files: Seq<StatsFile>, scenario: Seq<char>) -> Option<i64>
    decreases files.len(),
{
    if files.len() == 0 {
        None
    } else {
        let before = latest_time(files.drop_last(), scenario);
        match file_time(files.last()) {
            Some(t) => if is_log_of(files.last(), scenario) {
                later_of(before, t)
            } else {
                before
            },
            None => before,
        }
    }
}

/// The name has the extension `csv`.
pub open spec fn has_csv_extension(name: Seq<char>) -> bool {
    name.len() > 4 && ends_with(name, ".csv"@)
}

/// The file was last modified at or before `since`, both counted in whole
/// seconds from the Unix epoch. A file whose time is unknown or lies before
/// the epoch is never too old, and without a `since` no file is.
pub open spec fn too_old(f: StatsFile, since: Option<u64>) -> bool {
    match (since, f.modified) {
        (Some(s), Some(m)) => 0 <= m <= s,
        _ => false,
    }
}

/// The scenario that a log file's name speaks of: the name without its
/// trailing `.csv`, up to its last ` - ` where it has one.
pub open spec fn scenario_of_file(name: Seq<char>) -> Seq<char> {
    let stem = strip_repeated(name, ".csv"@);
    if contains_seq(stem, " - "@) {
        stem.take(choose|p: int| is_last_occurrence(stem, " - "@, p))
    } else {
        stem
    }
}

/// The file takes part in a bulk scan.
pub open spec fn counts_in_scan(f: StatsFile, since: Option<u64>) -> bool {
    &&& has_csv_extension(f.name@)
    &&& !too_old(f, since)
    &&& scenario_of_file(f.name@).len() > 0
    &&& f.content is Some
}

/// The score that a bulk scan takes from a file: the first one it carries,
/// zero where it carries none.
pub open spec fn first_score(scores: Seq<Score>) -> Score {
    if scores.len() > 0 {
        scores[0]
    } else {
        0
    }
}

/// What a bulk scan knows after one more file that takes part: under the
/// normalized name of the file's scenario stands the greatest score so far,
/// with the modification time of the first file that holds it.
pub open spec fn scanned_one(known: Map<Seq<char>, TimedScore>, f: StatsFile) -> Map<
    Seq<char>,
    TimedScore,
> {
    let key = normalized_name(scenario_of_file(f.name@));
    let score = first_score(file_scores(f));
    if known.dom().contains(key) && score <= known[key].score {
        known
    } else {
        known.insert(key, TimedScore { score, time: f.modified })
    }
}

/// The result of a bulk scan of the listing.
pub open spec fn scanned(files: Seq<StatsFile>, since: Option<u64>) -> Map<Seq<char>, TimedScore>
    decreases files.len(),
{
    if files.len() == 0 {
        Map::empty()
    } else {
        let before = scanned(files.drop_last(), since);
        if counts_in_scan(files.last(), since) {
            scanned_one(before, files.last())
        } else {
            before
        }
    }
}

/// Every file that takes part in a bulk scan has its scenario in the result,
/// with a score at least as great as the file's.
pub proof fn lemma_scanned_holds_best(files: Seq<StatsFile>, since: Option<u64>, i: int)
    requires
        0 <= i < files.len(),
        counts_in_scan(files[i], since),
    ensures
        scanned(files, since).dom().contains(normalized_name(scenario_of_file(files[i].name@))),
        scanned(files, since)[normalized_name(scenario_of_file(files[i].name@))].score
            >= first_score(file_scores(files[i])),
    decreases files.len(),
{
    let front = files.drop_last();
    if i < files.len() - 1 {
        assert(front[i] == files[i]);
        lemma_scanned_holds_best(front, since, i);
    }
}

/// The score that a line carries.
pub fn score_of_line(line: &Vec<char>) -> (r: Option<Score>)
    ensures
        r == line_score(line@),
{
    let marker = chars_of("Score:,");
    if find_chars(line, &marker).is_none() {
        return None;
    }
    let mut first_comma: usize = 0;
    while first_comma < line.len() && line[first_comma] != ','
        invariant
            first_comma <= line.len(),
            forall|j: int| 0 <= j < first_comma ==> line@[j] != ',',
        decreases line.len() - first_comma,
    {
        first_comma += 1;
    }
    proof {
        lemma_first_index_is(line@, ',', first_comma as int);
    }
    if first_comma == line.len() {
        return None;
    }
    let start: usize = first_comma + 1;
    let mut end: usize = start;
    while end < line.len() && line[end] != ','
        invariant
            start <= end <= line.len(),
            forall|j: int| start <= j < end ==> line@[j] != ',',
        decreases line.len() - end,
    {
        end += 1;
    }
    proof {
        let rest = line@.skip(start as int);
        assert forall|j: int| 0 <= j < end - start implies rest[j] != ',' by {
            assert(rest[j] == line@[start + j]);
        }
        if end < line.len() {
            assert(rest[end - start] == line@[end as int]);
        }
        lemma_first_index_is(rest, ',', end - start);
        assert(rest.take(end - start) =~= line@.subrange(start as int, end as int));
    }
    parse_score_in(line, start, end)
}

/// The scores carried by the lines of a text, in order.
pub fn scores_in(content: &str) -> (r: Vec<Score>)
    ensures
        r@ == content_scores(content@),
{
    let chars = chars_of(content);
    let mut out: Vec<Score> = Vec::new();
    let mut pos: usize = 0;
    assert(chars@.skip(0) =~= chars@);
    while pos < chars.len()
        invariant
            pos <= chars.len(),
            content_scores(chars@) == out@ + content_scores(chars@.skip(pos as int)),
        decreases chars.len() - pos,
    {
        let ghost s = chars@.skip(pos as int);
        let mut nl: usize = pos;
        while nl < chars.len() && chars[nl] != '\n'
            invariant
                pos <= nl <= chars.len(),
                forall|j: int| pos <= j < nl ==> chars@[j] != '\n',
            decreases chars.len() - nl,
        {
            nl += 1;
        }
        proof {
            assert forall|j: int| 0 <= j < nl - pos implies s[j] != '\n' by {
                assert(s[j] == chars@[pos + j]);
            }
            if nl < chars.len() {
                assert(s[nl - pos] == chars@[nl as int]);
            }
            lemma_first_index_is(s, '\n', nl - pos);
        }
        let end: usize = if nl < chars.len() && nl > pos && chars[nl - 1] == '\r' {
            nl - 1
        } else {
            nl
        };
        let next: usize = if nl < chars.len() {
            nl + 1
        } else {
            nl
        };
        let line = slice_of(&chars, pos, end);
        proof {
            if nl < chars.len() {
                let raw = s.take(nl - pos);
                assert(raw =~= chars@.subrange(pos as int, nl as int));
                if raw.len() > 0 {
                    assert(raw.last() == chars@[nl - 1]);
                }
                assert(strip_cr(raw) =~= chars@.subrange(pos as int, end as int));
                assert(s.skip(nl - pos + 1) =~= chars@.skip(next as int));
            } else {
                assert(s =~= chars@.subrange(pos as int, end as int));
                assert(chars@.skip(next as int) =~= Seq::<char>::empty());
            }
            assert(line@ == first_line(s));
            assert(after_first_line(s) == chars@.skip(next as int));
            let rest_lines = lines_of(after_first_line(s));
            assert(lines_of(s) == seq![first_line(s)] + rest_lines);
            assert(lines_of(s)[0] == first_line(s));
            assert(lines_of(s).skip(1) =~= rest_lines);
        }
        let ghost before = out@;
        match score_of_line(&line) {
            Some(v) => {
                out.push(v);
                proof {
                    assert(before.push(v) + content_scores(chars@.skip(next as int)) =~= before + (
                    seq![v] + content_scores(chars@.skip(next as int))));
                }
            },
            None => {},
        }
        pos = next;
    }
    proof {
        assert(chars@.skip(pos as int) =~= Seq::<char>::empty());
        assert(out@ + Seq::<Score>::empty() =~= out@);
    }
    out
}

/// The greatest of `floor` and the given scores.
pub fn best_score(floor: Score, scores: &Vec<Score>) -> (r: Score)
    ensures
        r == best_of(floor, scores@),
{
    let mut best = floor;
    let mut i: usize = 0;
    assert(scores@.take(0) =~= Seq::<Score>::empty());
    while i < scores.len()
        invariant
            i <= scores.len(),
            best == best_of(floor, scores@.take(i as int)),
        decreases scores.len() - i,
    {
        proof {
            assert(scores@.take(i + 1).drop_last() =~= scores@.take(i as int));
            assert(scores@.take(i + 1).last() == scores@[i as int]);
        }
        if scores[i] > best {
            best = scores[i];
        }
        i += 1;
    }
    assert(scores@.take(scores.len() as int) =~= scores@);
    best
}

/// The scores of a file; none where it could not be read.
pub fn scores_of_file(f: &StatsFile) -> (r: Vec<Score>)
    ensures
        r@ == file_scores(*f),
{
    match &f.content {
        Some(text) => scores_in(text.as_str()),
        None => Vec::new(),
    }
}

/// The prefix that the names of the logs of `scenario` begin with.
fn attempt_prefix(scenario: &str) -> (r: Vec<char>)
    ensures
        r@ == scenario@ + " - "@,
{
    let mut prefix = chars_of(scenario);
    let mut dash = chars_of(" - ");
    prefix.append(&mut dash);
    prefix
}

/// Whether the file name belongs to an attempt at the scenario, so that the
/// scans of the scenario look at the file.
pub fn is_attempt_file(name: &str, scenario_name: &str) -> (r: bool)
    ensures
        r == is_attempt_of(name@, scenario_name@),
{
    let prefix = attempt_prefix(scenario_name);
    let chars = chars_of(name);
    has_prefix(&chars, &prefix)
}

/// Whether `list` holds `name`.
pub fn holds_name(list: &Vec<String>, name: &str) -> (r: bool)
    ensures
        r == names_of(list@).contains(name@),
{
    let mut i: usize = 0;
    while i < list.len()
        invariant
            i <= list.len(),
            forall|j: int| 0 <= j < i ==> names_of(list@)[j] != name@,
        decreases list.len() - i,
    {
        if same_text(list[i].as_str(), name) {
            assert(names_of(list@)[i as int] == name@);
            return true;
        }
        i += 1;
    }
    false
}

/// The baseline of a scenario: the greatest score in its logs, zero where
/// there is none above it, and the names of those logs, read or not, in the
/// order of the listing.
pub fn find_initial_scores(scenario_name: &str, files: &Vec<StatsFile>) -> (r: (Score, Vec<String>))
    ensures
        r.0 == initial_best(files@, scenario_name@),
        names_of(r.1@) == initial_names(files@, scenario_name@),
{
    let prefix = attempt_prefix(scenario_name);
    let csv = chars_of(".csv");
    let mut highscore: Score = 0;
    let mut checked: Vec<String> = Vec::new();
    let mut i: usize = 0;
    assert(files@.take(0) =~= Seq::<StatsFile>::empty());
    assert(names_of(checked@) =~= Seq::<Seq<char>>::empty());
    while i < files.len()
        invariant
            i <= files.len(),
            prefix@ == scenario_name@ + " - "@,
            csv@ == ".csv"@,
            highscore == initial_best(files@.take(i as int), scenario_name@),
            names_of(checked@) == initial_names(files@.take(i as int), scenario_name@),
        decreases files.len() - i,
    {
        proof {
            assert(files@.take(i + 1).drop_last() =~= files@.take(i as int));
            assert(files@.take(i + 1).last() == files@[i as int]);
        }
        let f = &files[i];
        let name = chars_of(f.name.as_str());
        if has_prefix(&name, &prefix) && has_suffix(&name, &csv) {
            let scores = scores_of_file(f);
            highscore = best_score(highscore, &scores);
            let ghost before = names_of(checked@);
            checked.push(f.name.clone());
            assert(names_of(checked@) =~= before.push(f.name@));
        }
        i += 1;
    }
    assert(files@.take(files.len() as int) =~= files@);
    (highscore, checked)
}

/// The time of a file: when it was created, else when it was last modified.
pub fn time_of_file(f: &StatsFile) -> (r: Option<i64>)
    ensures
        r == file_time(*f),
{
    if f.created.is_some() {
        f.created
    } else {
        f.modified
    }
}

/// The incremental scan: over the files of the scenario that are not among
/// the checked, the greatest score above zero, whether any score was found,
/// and the time of the file that holds the greatest.
pub fn find_fight_time_and_score(
    scenario_name: &str,
    files: &Vec<StatsFile>,
    checked_files: &Vec<String>,
) -> (r: (Score, bool, Option<i64>))
    ensures
        r == fight(files@, scenario_name@, names_of(checked_files@)),
{
    let prefix = attempt_prefix(scenario_name);
    let mut max_score: Score = 0;
    let mut found_new_score = false;
    let mut newest_file_time: Option<i64> = None;
    let mut i: usize = 0;
    assert(files@.take(0) =~= Seq::<StatsFile>::empty());
    while i < files.len()
        invariant
            i <= files.len(),
            prefix@ == scenario_name@ + " - "@,
            (max_score, found_new_score, newest_file_time) == fight(
                files@.take(i as int),
                scenario_name@,
                names_of(checked_files@),
            ),
        decreases files.len() - i,
    {
        proof {
            assert(files@.take(i + 1).drop_last() =~= files@.take(i as int));
            assert(files@.take(i + 1).last() == files@[i as int]);
        }
        let f = &files[i];
        let name = chars_of(f.name.as_str());
        if has_prefix(&name, &prefix) && !holds_name(checked_files, f.name.as_str()) {
            let time = time_of_file(f);
            let scores = scores_of_file(f);
            let ghost start: Fight = (max_score, found_new_score, newest_file_time);
            let mut k: usize = 0;
            assert(scores@.take(0) =~= Seq::<Score>::empty());
            while k < scores.len()
                invariant
                    k <= scores.len(),
                    (max_score, found_new_score, newest_file_time) == fight_scores(
                        start,
                        scores@.take(k as int),
                        time,
                    ),
                decreases scores.len() - k,
            {
                proof {
                    assert(scores@.take(k + 1).drop_last() =~= scores@.take(k as int));
                    assert(scores@.take(k + 1).last() == scores@[k as int]);
                }
                if scores[k] > max_score {
                    max_score = scores[k];
                    newest_file_time = time;
                }
                found_new_score = true;
                k += 1;
            }
            assert(scores@.take(scores.len() as int) =~= scores@);
        }
        i += 1;
    }
    assert(files@.take(files.len() as int) =~= files@);
    (max_score, found_new_score, newest_file_time)
}

/// The latest time among the logs of the scenario whose time is known.
pub fn get_last_played_time(scenario_name: &str, files: &Vec<StatsFile>) -> (r: Option<i64>)
    ensures
        r == latest_time(files@, scenario_name@),
{
    let prefix = attempt_prefix(scenario_name);
    let csv = chars_of(".csv");
    let mut newest: Option<i64> = None;
    let mut i: usize = 0;
    assert(files@.take(0) =~= Seq::<StatsFile>::empty());
    while i < files.len()
        invariant
            i <= files.len(),
            prefix@ == scenario_name@ + " - "@,
            csv@ == ".csv"@,
            newest == latest_time(files@.take(i as int), scenario_name@),
        decreases files.len() - i,
    {
        proof {
            assert(files@.take(i + 1).drop_last() =~= files@.take(i as int));
            assert(files@.take(i + 1).last() == files@[i as int]);
        }
        let f = &files[i];
        let name = chars_of(f.name.as_str());
        if has_prefix(&name, &prefix) && has_suffix(&name, &csv) {
            match time_of_file(f) {
                Some(t) => {
                    newest = match newest {
                        Some(b) => Some(if t > b {
                            t
                        } else {
                            b
                        }),
                        None => Some(t),
                    };
                },
                None => {},
            }
        }
        i += 1;
    }
    assert(files@.take(files.len() as int) =~= files@);
    newest
}

/// The scenario that a log file's name speaks of.
pub fn scenario_of(name: &str) -> (r: String)
    ensures
        r@ == scenario_of_file(name@),
{
    let chars = chars_of(name);
    let csv = chars_of(".csv");
    let dash = chars_of(" - ");
    proof {
        reveal_strlit(".csv");
    }
    let end = stripped_len(&chars, &csv);
    let stem = slice_of(&chars, 0, end);
    assert(stem@ =~= chars@.take(end as int));
    match rfind_chars(&stem, &dash) {
        Some(at) => {
            proof {
                let p = choose|p: int| is_last_occurrence(stem@, " - "@, p);
                lemma_last_occurrence_unique(stem@, " - "@, at as int, p);
                assert(stem@.subrange(0, at as int) =~= stem@.take(at as int));
            }
            string_of(&stem, 0, at)
        },
        None => {
            assert(stem@.subrange(0, stem@.len() as int) =~= stem@);
            string_of(&stem, 0, stem.len())
        },
    }
}

/// Whether the file was last modified at or before `since`.
pub fn is_too_old(f: &StatsFile, since: Option<u64>) -> (r: bool)
    ensures
        r == too_old(*f, since),
{
    match (since, f.modified) {
        (Some(s), Some(m)) => m >= 0 && m as u64 <= s,
        _ => false,
    }
}

/// The bulk scan of the stats folder: for every scenario that a log speaks
/// of, under its normalized name, the greatest score of its logs and the
/// modification time of the log that holds it. With a `since`, logs last
/// modified at or before it are left out.
pub fn scan_stats_folder_since(files: &Vec<StatsFile>, since_timestamp: Option<u64>) -> (r: NameMap<
    TimedScore,
>)
    ensures
        r.wf(),
        r@ == scanned(files@, since_timestamp),
{
    let csv = chars_of(".csv");
    proof {
        reveal_strlit(".csv");
    }
    let mut found: NameMap<TimedScore> = NameMap::new();
    let mut i: usize = 0;
    assert(files@.take(0) =~= Seq::<StatsFile>::empty());
    while i < files.len()
        invariant
            i <= files.len(),
            csv@ == ".csv"@,
            csv@.len() == 4,
            found.wf(),
            found@ == scanned(files@.take(i as int), since_timestamp),
        decreases files.len() - i,
    {
        proof {
            assert(files@.take(i + 1).drop_last() =~= files@.take(i as int));
            assert(files@.take(i + 1).last() == files@[i as int]);
        }
        let f = &files[i];
        let name = chars_of(f.name.as_str());
        if name.len() > 4 && has_suffix(&name, &csv) && !is_too_old(f, since_timestamp) {
            let scenario = scenario_of(f.name.as_str());
            if scenario.as_str().unicode_len() > 0 && f.content.is_some() {
                let scores = scores_of_file(f);
                let score: Score = if scores.len() > 0 {
                    scores[0]
                } else {
                    0
                };
                let key = normalize_scenario_name(scenario.as_str());
                let keep = match found.get(key.as_str()) {
                    Some(existing) => score <= existing.score,
                    None => false,
                };
                if !keep {
                    found.insert(key.as_str(), TimedScore { score, time: f.modified });
                }
            }
        }
        i += 1;
    }
    assert(files@.take(files.len() as int) =~= files@);
    found
}

/// The bulk scan of the whole stats folder.
pub fn scan_all_stats_folder(files: &Vec<StatsFile>) -> (r: NameMap<TimedScore>)
    ensures
        r.wf(),
        r@ == scanned(files@, None),
{
    scan_stats_folder_since(files, None)
}

} // verus!
