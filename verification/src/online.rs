//! The online scores of a user: the local snapshot of them, the freshness of
//! the file cache, and the steps of a fetch.

use crate::local_scores::LoadAction;
use crate::score::Score;
use crate::table::NameMap;
use crate::sync::{
    finish_empty, CacheFetch, FetchAction, FetchActionView, FetchPhase, OnlineSync, SyncError,
    PAGE_SIZE,
};
use crate::text::{chars_of, decimal, decimal_string, lowercase, lowercased, same_text};
use vstd::prelude::*;

verus! {

/// The online scores of the configured user, as last stored locally.
pub struct OnlineScoreAPI {
    base_url: String,
    local_scores: NameMap<Score>,
}

/// The user's scores that a fetch brought, by scenario name.
pub open spec fn fetched_scores(fetched: Option<&NameMap<Score>>) -> Map<Seq<char>, Score> {
    match fetched {
        Some(scores) => scores@,
        None => Map::empty(),
    }
}

impl OnlineScoreAPI {
    /// The snapshot holds no name twice.
    pub closed spec fn wf(&self) -> bool {
        self.local_scores.wf()
    }

    /// The snapshot of the online scores, by scenario name.
    pub closed spec fn view(&self) -> Map<Seq<char>, Score> {
        self.local_scores@
    }

    /// The address of the remote service.
    pub closed spec fn service(&self) -> Seq<char> {
        self.base_url@
    }

    /// The interface to the remote service, with an empty snapshot.
    pub fn new() -> (r: Self)
        ensures
            r.wf(),
            r@ == Map::<Seq<char>, Score>::empty(),
            r.service() == "https://kovaaks.com/webapp-backend"@,
    {
        OnlineScoreAPI {
            base_url: "https://kovaaks.com/webapp-backend".to_owned(),
            local_scores: NameMap::new(),
        }
    }

    /// The address of the remote service.
    pub fn base_url(&self) -> (r: &String)
        ensures
            r@ == self.service(),
    {
        &self.base_url
    }

    /// Whether the snapshot cannot say if the scenario is available online,
    /// so that the user's scores have to be fetched.
    pub fn needs_fetch(&self, username: &str, scenario_name: &str) -> (r: bool)
        requires
            self.wf(),
        ensures
            r == (username@.len() > 0 && scenario_name@.len() > 0 && !self@.dom().contains(
                scenario_name@,
            )),
    {
        !username.is_empty() && !scenario_name.is_empty() && !self.local_scores.contains_key(
            scenario_name,
        )
    }

    /// Whether the scenario is available online for the user: whether the
    /// snapshot holds it, or else the fetched scores do. `fetched` is `None`
    /// where no fetch was made or it failed.
    pub fn is_scenario_available_online(
        &self,
        username: &str,
        scenario_name: &str,
        fetched: Option<&NameMap<Score>>,
    ) -> (r: bool)
        requires
            self.wf(),
            fetched matches Some(scores) ==> scores.wf(),
        ensures
            r == (username@.len() > 0 && scenario_name@.len() > 0 && (self@.dom().contains(
                scenario_name@,
            ) || fetched_scores(fetched).dom().contains(scenario_name@))),
    {
        if username.is_empty() || scenario_name.is_empty() {
            return false;
        }
        if self.local_scores.contains_key(scenario_name) {
            return true;
        }
        match fetched {
            Some(scores) => scores.contains_key(scenario_name),
            None => false,
        }
    }
    /// The user's online score for a scenario: that of the snapshot, or else
    /// that of the fetched scores. `fetched` is `None` where no fetch was made
    /// or it failed.
    pub fn get_online_score(
        &self,
        username: &str,
        scenario_name: &str,
        fetched: Option<&NameMap<Score>>,
    ) -> (r: Option<Score>)
        requires
            self.wf(),
            fetched matches Some(scores) ==> scores.wf(),
        ensures
            r == (if username@.len() == 0 || scenario_name@.len() == 0 {
                None
            } else if self@.dom().contains(scenario_name@) {
                Some(self@[scenario_name@])
            } else if fetched_scores(fetched).dom().contains(scenario_name@) {
                Some(fetched_scores(fetched)[scenario_name@])
            } else {
                None
            }),
    {
        if username.is_empty() || scenario_name.is_empty() {
            return None;
        }
        match self.local_scores.get(scenario_name) {
            Some(score) => {
                return Some(*score);
            },
            None => {},
        }
        match fetched {
            Some(scores) => match scores.get(scenario_name) {
                Some(score) => Some(*score),
                None => None,
            },
            None => None,
        }
    }

    /// Replaces the snapshot by what its file holds. `readable` says whether
    /// the file could be read; `parsed` is what its text decodes to, `None`
    /// where it does not decode. A file that cannot be read gives the empty
    /// snapshot; one that does not decode gives the empty snapshot and is to
    /// be set aside.
    pub fn load_local_scores(&mut self, readable: bool, parsed: Option<NameMap<Score>>) -> (action:
        LoadAction)
        requires
            parsed matches Some(scores) ==> scores.wf(),
        ensures
            final(self).wf(),
            final(self).service() == old(self).service(),
            final(self)@ == (match parsed {
                Some(scores) if readable => scores@,
                _ => Map::<Seq<char>, Score>::empty(),
            }),
            action == (if readable && parsed is None {
                LoadAction::SetAside
            } else {
                LoadAction::Keep
            }),
    {
        if !readable {
            self.local_scores = NameMap::new();
            return LoadAction::Keep;
        }
        match parsed {
            Some(scores) => {
                self.local_scores = scores;
                LoadAction::Keep
            },
            None => {
                self.local_scores = NameMap::new();
                LoadAction::SetAside
            },
        }
    }

    /// Replaces the snapshot by freshly fetched scores.
    pub fn save_local_scores(&mut self, scores: NameMap<Score>)
        requires
            scores.wf(),
        ensures
            final(self).wf(),
            final(self)@ == scores@,
            final(self).service() == old(self).service(),
    {
        self.local_scores = scores;
    }

    /// The snapshot, for writing its file.
    pub fn local_scores(&self) -> (r: &NameMap<Score>)
        ensures
            r@ == self@,
            r.wf() == self.wf(),
    {
        &self.local_scores
    }

    /// Raises the snapshot's score for a scenario where the new score is
    /// strictly greater than the one held, a scenario not held counting as
    /// zero. Says whether the snapshot changed and is to be saved.
    pub fn update_local_score(&mut self, scenario_name: &str, new_score: Score) -> (changed: bool)
        requires
            old(self).wf(),
        ensures
            final(self).wf(),
            final(self).service() == old(self).service(),
            changed == (new_score > held_score(old(self)@, scenario_name@)),
            final(self)@ == (if changed {
                old(self)@.insert(scenario_name@, new_score)
            } else {
                old(self)@
            }),
    {
        let current: Score = match self.local_scores.get(scenario_name) {
            Some(score) => *score,
            None => 0,
        };
        if new_score > current {
            self.local_scores.insert(scenario_name, new_score);
            true
        } else {
            false
        }
    }

    /// Begins a sync of the user's online scores with the remote listing.
    /// Without a user name there is no sync.
    pub fn sync_online_scores_once(&self, username: &str) -> (r: Result<OnlineSync, SyncError>)
        ensures
            match r {
                Ok(sync) => {
                    &&& username@.len() > 0
                    &&& sync.wf()
                    &&& sync.page() == 0
                    &&& !sync.is_over()
                    &&& sync.scores() == Map::<Seq<char>, Score>::empty()
                },
                Err(e) => username@.len() == 0 && e == SyncError::EmptyUsername,
            },
    {
        OnlineSync::start(username)
    }

    /// Begins a fetch of the user's online scores that is guarded by the file
    /// cache and its lock. Without a user name the fetch is over at once,
    /// with the empty scores; else the cache is looked at first.
    pub fn fetch_user_scenario_scores(&self, username: &str) -> (r: (CacheFetch, FetchAction))
        ensures
            r.1.wf(),
            !r.0.locked(),
            username@.len() == 0 ==> r.0.phase() == FetchPhase::Over && r.1@ == finish_empty(false),
            username@.len() > 0 ==> r.0.phase() == FetchPhase::Lookup && r.1@
                == FetchActionView::LoadCache,
    {
        CacheFetch::begin(username)
    }

    /// The address of the listing of a user's scores.
    pub fn listing_url(&self) -> (r: String)
        ensures
            r@ == self.service() + "/user/scenario/total-play"@,
    {
        let mut url = self.base_url.clone();
        url.append("/user/scenario/total-play");
        url
    }

    /// The address of the popularity search for a scenario: its name in
    /// lowercase with each space as a plus sign, for at most five results.
    pub fn popular_search_url(&self, scenario_name: &str) -> (r: String)
        ensures
            r@ == self.service() + "/scenario/popular?page=0&max=5&scenarioNameSearch="@
                + search_term(lowercased(scenario_name@)),
    {
        let lowered = lowercase(scenario_name);
        let term = encode_search_term(lowered.as_str());
        let mut url = self.base_url.clone();
        url.append("/scenario/popular?page=0&max=5&scenarioNameSearch=");
        url.append(term.as_str());
        url
    }

    /// Whether a scenario is known to the remote service, from the answer to
    /// the popularity search for it. An empty name is known to be unknown; a
    /// transport failure leaves the question open (`None`).
    pub fn search_scenario_popular(&self, scenario_name: &str, response: &SearchResponse) -> (r:
        Option<bool>)
        ensures
            r == (if scenario_name@.len() == 0 {
                Some(false)
            } else {
                match *response {
                    SearchResponse::TransportFailed => None,
                    SearchResponse::Unusable => Some(false),
                    SearchResponse::Listing(names) => Some(is_listed_in(scenario_name@, names@)),
                }
            }),
    {
        if scenario_name.is_empty() {
            return Some(false);
        }
        match response {
            SearchResponse::TransportFailed => None,
            SearchResponse::Unusable => Some(false),
            SearchResponse::Listing(names) => Some(is_listed(scenario_name, names)),
        }
    }
}

/// The score held for a scenario, zero where none is held.
pub open spec fn held_score(scores: Map<Seq<char>, Score>, name: Seq<char>) -> Score {
    if scores.dom().contains(name) {
        scores[name]
    } else {
        0
    }
}

/// A lowercased scenario name as a search term: each space is a plus sign.
pub open spec fn search_term(lowered: Seq<char>) -> Seq<char> {
    lowered.map_values(
        |c: char|
            if c == ' ' {
                '+'
            } else {
                c
            },
    )
}

/// A lowercased scenario name as a search term.
pub fn encode_search_term(lowered: &str) -> (r: String)
    ensures
        r@ == search_term(lowered@),
{
    let chars = chars_of(lowered);
    let mut out = String::new();
    let mut i: usize = 0;
    while i < chars.len()
        invariant
            i <= chars.len(),
            out@ == search_term(chars@.take(i as int)),
        decreases chars.len() - i,
    {
        let c = if chars[i] == ' ' {
            '+'
        } else {
            chars[i]
        };
        out.push(c);
        proof {
            assert(search_term(chars@.take(i + 1)) =~= search_term(chars@.take(i as int)).push(c));
        }
        i += 1;
    }
    assert(chars@.take(chars.len() as int) =~= chars@);
    out
}

/// The answer to a popularity search.
#[derive(Debug)]
pub enum SearchResponse {
    /// The request did not get through.
    TransportFailed,
    /// The service refused, or its answer does not decode.
    Unusable,
    /// The names of the scenarios that the service listed.
    Listing(Vec<String>),
}

/// One of the listed names is the scenario's, letter case aside.
pub open spec fn is_listed_in(scenario: Seq<char>, names: Seq<String>) -> bool {
    exists|i: int| 0 <= i < names.len() && lowercased((#[trigger] names[i])@) == lowercased(scenario)
}

/// Whether one of the listed names is the scenario's, letter case aside.
pub fn is_listed(scenario_name: &str, names: &Vec<String>) -> (r: bool)
    ensures
        r == is_listed_in(scenario_name@, names@),
{
    let wanted = lowercase(scenario_name);
    let mut i: usize = 0;
    while i < names.len()
        invariant
            i <= names.len(),
            wanted@ == lowercased(scenario_name@),
            forall|j: int| 0 <= j < i ==> lowercased((#[trigger] names[j])@) != lowercased(scenario_name@),
        decreases names.len() - i,
    {
        let lowered = lowercase(names[i].as_str());
        if same_text(lowered.as_str(), wanted.as_str()) {
            return true;
        }
        i += 1;
    }
    false
}

/// The user name as it stands in file names: each slash and backslash is an
/// underscore.
pub open spec fn safe_username(username: Seq<char>) -> Seq<char> {
    username.map_values(
        |c: char|
            if c == '/' || c == '\\' {
                '_'
            } else {
                c
            },
    )
}

/// The user name as it stands in file names.
pub fn sanitize_username(username: &str) -> (r: String)
    ensures
        r@ == safe_username(username@),
{
    let chars = chars_of(username);
    let mut out = String::new();
    let mut i: usize = 0;
    while i < chars.len()
        invariant
            i <= chars.len(),
            out@ == safe_username(chars@.take(i as int)),
        decreases chars.len() - i,
    {
        let c = if chars[i] == '/' || chars[i] == '\\' {
            '_'
        } else {
            chars[i]
        };
        out.push(c);
        proof {
            assert(safe_username(chars@.take(i + 1)) =~= safe_username(chars@.take(i as int)).push(c));
        }
        i += 1;
    }
    assert(chars@.take(chars.len() as int) =~= chars@);
    out
}

/// The name of a user's cache file inside the cache folder.
pub fn cache_path(username: &str) -> (r: String)
    ensures
        r@ == safe_username(username@) + "_scores.json"@,
{
    let mut name = sanitize_username(username);
    name.append("_scores.json");
    name
}

/// The name of the lock file that guards a user's cache file.
pub fn lock_path(username: &str) -> (r: String)
    ensures
        r@ == safe_username(username@) + "_scores.lock"@,
{
    let mut name = sanitize_username(username);
    name.append("_scores.lock");
    name
}

/// One parameter of a request: its name and its value.
pub struct QueryParameter {
    pub name: String,
    pub value: String,
}

/// The parameters of the request for one page of a user's scores: the user,
/// the page, the size of a page, and the order of the entries.
pub open spec fn page_query_of(username: Seq<char>, page: u32) -> Seq<(Seq<char>, Seq<char>)> {
    seq![
        ("username"@, username),
        ("page"@, decimal(page as nat)),
        ("max"@, decimal(PAGE_SIZE as nat)),
        ("sort_param[]"@, "count"@),
    ]
}

/// The parameters of the request for one page of a user's scores.
pub fn page_query(username: &str, page: u32) -> (r: Vec<QueryParameter>)
    ensures
        r@.map_values(|p: QueryParameter| (p.name@, p.value@)) == page_query_of(username@, page),
{
    let mut query: Vec<QueryParameter> = Vec::new();
    query.push(QueryParameter { name: "username".to_owned(), value: username.to_owned() });
    query.push(QueryParameter { name: "page".to_owned(), value: decimal_string(page as u64) });
    query.push(QueryParameter { name: "max".to_owned(), value: decimal_string(PAGE_SIZE as u64) });
    query.push(QueryParameter { name: "sort_param[]".to_owned(), value: "count".to_owned() });
    assert(query@.map_values(|p: QueryParameter| (p.name@, p.value@)) =~= page_query_of(
        username@,
        page,
    ));
    query
}

/// The name of the file that keeps the raw answer for one page of a user's
/// scores.
pub fn raw_page_file_name(username: &str, page: u32) -> (r: String)
    ensures
        r@ == username@ + "_page_"@ + decimal(page as nat) + ".json"@,
{
    let mut name = username.to_owned();
    name.append("_page_");
    name.append(decimal_string(page as u64).as_str());
    name.append(".json");
    name
}

/// For how many seconds the request for a page may take.
pub const PAGE_TIMEOUT_SECS: u64 = 30;

/// For how many seconds a popularity search may take.
pub const SEARCH_TIMEOUT_SECS: u64 = 10;

/// For how many seconds a cache entry counts as fresh: seven days.
pub const CACHE_TTL_SECONDS: i64 = 604800;

/// What a user's cache file holds: the scores and when they were fetched, in
/// whole seconds since the Unix epoch.
pub struct CacheData {
    pub fetched_at: i64,
    pub scores: NameMap<Score>,
}

/// A cache entry fetched at `fetched_at` is fresh at `now`: less than seven
/// days have passed.
pub open spec fn is_fresh(fetched_at: i64, now: i64) -> bool {
    now - fetched_at < CACHE_TTL_SECONDS
}

/// Whether a cache entry fetched at `fetched_at` is fresh at `now`.
pub fn cache_is_fresh(fetched_at: i64, now: i64) -> (r: bool)
    ensures
        r == is_fresh(fetched_at, now),
{
    match now.checked_sub(fetched_at) {
        Some(age) => age < CACHE_TTL_SECONDS,
        None => now < fetched_at,
    }
}

/// An entry fetched eight days ago is stale, as is any of seven days or more.
pub proof fn lemma_cache_expires(fetched_at: i64, now: i64)
    ensures
        now - fetched_at >= 7 * 86400 ==> !is_fresh(fetched_at, now),
        now - fetched_at == 8 * 86400 ==> !is_fresh(fetched_at, now),
        now - fetched_at < 7 * 86400 ==> is_fresh(fetched_at, now),
{
}

/// The scores of a user's cache file at time `now`: a hit where the file
/// decodes (`stored` is `Some`) and is fresh, a miss otherwise.
pub fn load_cache(stored: Option<CacheData>, now: i64) -> (r: Option<NameMap<Score>>)
    ensures
        match stored {
            Some(data) if is_fresh(data.fetched_at, now) => r == Some(data.scores),
            _ => r is None,
        },
{
    match stored {
        Some(data) => if cache_is_fresh(data.fetched_at, now) {
            Some(data.scores)
        } else {
            None
        },
        None => None,
    }
}

/// What is written to a user's cache file for scores fetched at `now`.
pub fn save_cache(scores: NameMap<Score>, now: i64) -> (r: CacheData)
    ensures
        r.fetched_at == now,
        r.scores == scores,
{
    CacheData { fetched_at: now, scores }
}

} // verus!
