//! What is read off the game itself: the scenario named in its save file, the
//! share code of the playlist in progress, and whether its process runs.

use crate::text::{
    chars_of, contains_seq, find_chars, first_index_of, first_occurrence, has_infix,
    is_first_occurrence, lemma_first_index_is, lemma_first_occurrence,
    lemma_first_occurrence_exists, lowercase, lowercased, occurs_at, string_of,
};
use vstd::prelude::*;

verus! {

/// The name given where the save file names no scenario.
pub open spec fn unknown_scenario() -> Seq<char> {
    "Unknown Scenario"@
}

/// The bytes of `FullScenarioPath`, the first marker looked for.
pub open spec fn scenario_path_key() -> Seq<u8> {
    seq![70u8, 117, 108, 108, 83, 99, 101, 110, 97, 114, 105, 111, 80, 97, 116, 104]
}

/// The bytes of `LastEditProfile`, the marker looked for where the first is
/// missing.
pub open spec fn edit_profile_key() -> Seq<u8> {
    seq![76u8, 97, 115, 116, 69, 100, 105, 116, 80, 114, 111, 102, 105, 108, 101]
}

/// The byte is a printable ASCII character.
pub open spec fn is_printable(b: u8) -> bool {
    32 <= b <= 126
}

/// Where the marker stands in the save data: the leftmost place of the first
/// marker, else that of the second.
pub open spec fn marker_position(data: Seq<u8>) -> Option<int> {
    if contains_seq(data, scenario_path_key()) {
        Some(first_occurrence(data, scenario_path_key()))
    } else if contains_seq(data, edit_profile_key()) {
        Some(first_occurrence(data, edit_profile_key()))
    } else {
        None
    }
}

/// The end of the name before `pos`: `pos` moved left over bytes that are not
/// printable.
pub open spec fn name_end(data: Seq<u8>, pos: int) -> int
    decreases pos,
{
    if 0 < pos <= data.len() && !is_printable(data[pos - 1]) {
        name_end(data, pos - 1)
    } else {
        pos
    }
}

/// `at` moved left over printable bytes, but not past the second byte of the
/// data.
pub open spec fn run_start(data: Seq<u8>, at: int) -> int
    decreases at,
{
    if 0 < at < data.len() && is_printable(data[at]) {
        run_start(data, at - 1)
    } else {
        at
    }
}

/// The start of the name that ends at `end`: one past where the run of
/// printable bytes before `end` stops. The first byte of the data never
/// belongs to a name.
pub open spec fn name_start(data: Seq<u8>, end: int) -> int {
    run_start(data, if end > 0 {
        end - 1
    } else {
        0
    }) + 1
}

/// The characters that printable bytes stand for.
pub open spec fn ascii_text(bytes: Seq<u8>) -> Seq<char> {
    bytes.map_values(|b: u8| b as char)
}

/// The scenario that the save data names: the run of printable bytes that
/// stands before the marker, or the unknown scenario where there is no marker
/// or no such run.
pub open spec fn save_scenario(data: Seq<u8>) -> Seq<char> {
    match marker_position(data) {
        Some(pos) => {
            let end = name_end(data, pos);
            let start = name_start(data, end);
            if start < end {
                ascii_text(data.subrange(start, end))
            } else {
                unknown_scenario()
            }
        },
        None => unknown_scenario(),
    }
}

/// `name_end` stays between zero and where it started.
pub proof fn lemma_name_end_bounds(data: Seq<u8>, pos: int)
    requires
        0 <= pos <= data.len(),
    ensures
        0 <= name_end(data, pos) <= pos,
    decreases pos,
{
    if 0 < pos && !is_printable(data[pos - 1]) {
        lemma_name_end_bounds(data, pos - 1);
    }
}

/// `run_start` stays between zero and where it started, and every byte after
/// it up to there is printable.
pub proof fn lemma_run_is_printable(data: Seq<u8>, at: int)
    requires
        0 <= at,
    ensures
        0 <= run_start(data, at) <= at,
        forall|j: int| run_start(data, at) < j <= at && j < data.len() ==> is_printable(data[j]),
    decreases at,
{
    if 0 < at < data.len() && is_printable(data[at]) {
        lemma_run_is_printable(data, at - 1);
    }
}

/// The name that the save data gives holds printable characters only, or is
/// the unknown scenario.
pub proof fn lemma_save_scenario_is_printable(data: Seq<u8>)
    ensures
        save_scenario(data) == unknown_scenario() || forall|i: int|
            0 <= i < save_scenario(data).len() ==> 32 <= (#[trigger] save_scenario(data)[i]) as int
                <= 126,
{
    if marker_position(data) is Some {
        let pos = marker_position(data)->0;
        if contains_seq(data, scenario_path_key()) {
            lemma_first_occurrence_exists(data, scenario_path_key());
        } else {
            lemma_first_occurrence_exists(data, edit_profile_key());
        }
        lemma_name_end_bounds(data, pos);
        let end = name_end(data, pos);
        let start = name_start(data, end);
        if start < end {
            lemma_run_is_printable(data, end - 1);
            assert forall|i: int| 0 <= i < save_scenario(data).len() implies 32 <= (
            #[trigger] save_scenario(data)[i]) as int <= 126 by {
                let b = data.subrange(start, end)[i];
                assert(b == data[start + i]);
                assert(is_printable(data[start + i]));
            }
        }
    }
}

/// Whether `needle` stands in `haystack` at `at`.
fn bytes_match_at(haystack: &[u8], needle: &[u8], at: usize) -> (r: bool)
    requires
        at + needle.len() <= haystack.len(),
    ensures
        r == occurs_at(haystack@, needle@, at as int),
{
    let mut k: usize = 0;
    while k < needle.len()
        invariant
            k <= needle.len(),
            at + needle.len() <= haystack.len(),
            forall|j: int| 0 <= j < k ==> haystack@[at + j] == needle@[j],
        decreases needle.len() - k,
    {
        if haystack[at + k] != needle[k] {
            proof {
                let sub = haystack@.subrange(at as int, at + needle.len());
                assert(sub[k as int] == haystack@[at + k]);
            }
            return false;
        }
        k += 1;
    }
    assert(haystack@.subrange(at as int, at + needle.len()) =~= needle@);
    true
}

/// The leftmost position of `needle` in `haystack`.
pub fn find_subsequence(haystack: &[u8], needle: &[u8]) -> (r: Option<usize>)
    requires
        needle.len() > 0,
    ensures
        match r {
            Some(at) => is_first_occurrence(haystack@, needle@, at as int),
            None => !contains_seq(haystack@, needle@),
        },
{
    if needle.len() > haystack.len() {
        return None;
    }
    let last: usize = haystack.len() - needle.len();
    let mut i: usize = 0;
    loop
        invariant
            i <= last,
            last == haystack.len() - needle.len(),
            forall|j: int| 0 <= j < i ==> !occurs_at(haystack@, needle@, j),
        decreases last - i,
    {
        if bytes_match_at(haystack, needle, i) {
            return Some(i);
        }
        if i == last {
            return None;
        }
        i += 1;
    }
}

/// The scenario that the game's save data names.
pub fn extract_scenario_name(data: &[u8]) -> (r: String)
    ensures
        r@ == save_scenario(data@),
{
    let first_key: Vec<u8> = vec![
        70u8, 117, 108, 108, 83, 99, 101, 110, 97, 114, 105, 111, 80, 97, 116, 104,
    ];
    let second_key: Vec<u8> = vec![
        76u8, 97, 115, 116, 69, 100, 105, 116, 80, 114, 111, 102, 105, 108, 101,
    ];
    assert(first_key@ =~= scenario_path_key());
    assert(second_key@ =~= edit_profile_key());
    let key_pos = match find_subsequence(data, first_key.as_slice()) {
        Some(pos) => Some(pos),
        None => find_subsequence(data, second_key.as_slice()),
    };
    proof {
        if key_pos is Some {
            let pos = key_pos->0;
            if contains_seq(data@, scenario_path_key()) {
                lemma_first_occurrence(data@, scenario_path_key(), pos as int);
            } else {
                lemma_first_occurrence(data@, edit_profile_key(), pos as int);
            }
        }
    }
    match key_pos {
        Some(pos) => {
            let mut end: usize = pos;
            while end > 0 && (data[end - 1] < 32 || data[end - 1] > 126)
                invariant
                    end <= pos <= data.len(),
                    name_end(data@, end as int) == name_end(data@, pos as int),
                decreases end,
            {
                end -= 1;
            }
            let mut start: usize = if end > 0 {
                end - 1
            } else {
                0
            };
            let ghost from = start as int;
            while start > 0 && data[start] >= 32 && data[start] <= 126
                invariant
                    end <= data.len(),
                    start <= from,
                    from == (if end > 0 {
                        end - 1
                    } else {
                        0
                    }),
                    start < data.len() || start == 0,
                    run_start(data@, start as int) == run_start(data@, from),
                decreases start,
            {
                start -= 1;
            }
            start += 1;
            if start < end {
                let mut name = String::new();
                let mut i: usize = start;
                assert(data@.subrange(start as int, start as int) =~= Seq::<u8>::empty());
                assert(ascii_text(Seq::<u8>::empty()) =~= Seq::<char>::empty());
                while i < end
                    invariant
                        start <= i <= end <= data.len(),
                        name@ == ascii_text(data@.subrange(start as int, i as int)),
                    decreases end - i,
                {
                    name.push(data[i] as char);
                    proof {
                        assert(ascii_text(data@.subrange(start as int, i + 1)) =~= ascii_text(
                            data@.subrange(start as int, i as int),
                        ).push(data@[i as int] as char));
                    }
                    i += 1;
                }
                name
            } else {
                "Unknown Scenario".to_owned()
            }
        },
        None => "Unknown Scenario".to_owned(),
    }
}

/// The text that introduces the share code in the playlist file.
pub open spec fn share_code_key() -> Seq<char> {
    "\"shareCode\": \""@
}

/// The share code that the playlist file holds: what stands between the first
/// `"shareCode": "` and the next double quote.
pub open spec fn share_code(content: Seq<char>) -> Option<Seq<char>> {
    if contains_seq(content, share_code_key()) {
        let start = first_occurrence(content, share_code_key()) + share_code_key().len();
        let rest = content.skip(start);
        let end = first_index_of(rest, '"');
        if end < rest.len() {
            Some(rest.take(end))
        } else {
            None
        }
    } else {
        None
    }
}

/// The share code of the playlist in progress, from the text of its file.
pub fn get_playlist_share_code(content: &str) -> (r: Option<String>)
    ensures
        match r {
            Some(code) => share_code(content@) == Some(code@),
            None => share_code(content@) is None,
        },
{
    let chars = chars_of(content);
    let key = chars_of("\"shareCode\": \"");
    match find_chars(&chars, &key) {
        Some(at) => {
            proof {
                lemma_first_occurrence(chars@, key@, at as int);
            }
            assert(occurs_at(chars@, key@, at as int));
            let start: usize = at + key.len();
            let mut end: usize = start;
            while end < chars.len() && chars[end] != '"'
                invariant
                    start <= end <= chars.len(),
                    forall|j: int| start <= j < end ==> chars@[j] != '"',
                decreases chars.len() - end,
            {
                end += 1;
            }
            proof {
                let rest = chars@.skip(start as int);
                assert forall|j: int| 0 <= j < end - start implies rest[j] != '"' by {
                    assert(rest[j] == chars@[start + j]);
                }
                if end < chars.len() {
                    assert(rest[end - start] == chars@[end as int]);
                }
                lemma_first_index_is(rest, '"', end - start);
                assert(rest.take(end - start) =~= chars@.subrange(start as int, end as int));
            }
            if end < chars.len() {
                Some(string_of(&chars, start, end))
            } else {
                None
            }
        },
        None => None,
    }
}

/// A lowercased process name is that of the game: it holds `fpsaimtrainer`,
/// and neither `discord` nor `rpc`, which mark this program's own process.
pub open spec fn is_game_process(lowered: Seq<char>) -> bool {
    &&& contains_seq(lowered, "fpsaimtrainer"@)
    &&& !contains_seq(lowered, "discord"@)
    &&& !contains_seq(lowered, "rpc"@)
}

/// Whether a lowercased process name is that of the game.
pub fn is_kovaaks_process(lowered_name: &str) -> (r: bool)
    ensures
        r == is_game_process(lowered_name@),
{
    let name = chars_of(lowered_name);
    let game = chars_of("fpsaimtrainer");
    let discord = chars_of("discord");
    let rpc = chars_of("rpc");
    has_infix(&name, &game) && !has_infix(&name, &discord) && !has_infix(&name, &rpc)
}

/// Whether the game runs, given the names of the running processes: whether
/// the lowercase form of one of them is that of the game.
pub fn is_kovaaks_running(process_names: &Vec<String>) -> (r: bool)
    ensures
        r == exists|i: int|
            0 <= i < process_names.len() && is_game_process(
                lowercased((#[trigger] process_names[i])@),
            ),
{
    let mut i: usize = 0;
    while i < process_names.len()
        invariant
            i <= process_names.len(),
            forall|j: int|
                0 <= j < i ==> !is_game_process(lowercased((#[trigger] process_names[j])@)),
        decreases process_names.len() - i,
    {
        let lowered = lowercase(process_names[i].as_str());
        if is_kovaaks_process(lowered.as_str()) {
            return true;
        }
        i += 1;
    }
    false
}

} // verus!
