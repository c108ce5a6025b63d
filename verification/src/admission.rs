//! The scenario admission filter: whether a scenario is tracked at all when
//! tracking is restricted to scenarios that are available online.

use crate::scenario_cache::ScenarioValidationCache;
use crate::score::Score;
use crate::settings::{Settings, SettingsView};
use crate::table::NameMap;
use vstd::prelude::*;

verus! {

/// What the filter says of a scenario.
#[derive(Clone, Copy, Debug, PartialEq, Eq, Structural)]
pub enum Admission {
    /// The scenario is tracked.
    Allowed,
    /// The scenario is not tracked.
    Denied,
    /// Only a popularity search for the scenario can tell.
    AskOnline,
}

/// What the filter says of a scenario. With the restriction off every
/// scenario is allowed. With it on, an earlier verdict stands; else a
/// scenario among the user's online scores is allowed; else, as long as the
/// online scores were never synced, every scenario is allowed; else only a
/// search can tell.
pub open spec fn admission(
    settings: SettingsView,
    verdicts: Map<Seq<char>, bool>,
    online_scores: Map<Seq<char>, Score>,
    scenario: Seq<char>,
) -> Admission {
    if !settings.online_only_scenarios {
        Admission::Allowed
    } else if verdicts.dom().contains(scenario) {
        if verdicts[scenario] {
            Admission::Allowed
        } else {
            Admission::Denied
        }
    } else if online_scores.dom().contains(scenario) {
        Admission::Allowed
    } else if !settings.online_scores_synced {
        Admission::Allowed
    } else {
        Admission::AskOnline
    }
}

/// The filter records a verdict of its own only for a scenario that it finds
/// among the user's online scores, without an earlier verdict.
pub open spec fn records_verdict(
    settings: SettingsView,
    verdicts: Map<Seq<char>, bool>,
    online_scores: Map<Seq<char>, Score>,
    scenario: Seq<char>,
) -> bool {
    &&& settings.online_only_scenarios
    &&& !verdicts.dom().contains(scenario)
    &&& online_scores.dom().contains(scenario)
}

/// What the filter says once the search for a scenario was answered: the
/// verdict of the search, or, where the search did not get through, that the
/// scenario is allowed.
pub open spec fn admission_after_search(verdict: Option<bool>) -> bool {
    match verdict {
        Some(available) => available,
        None => true,
    }
}

/// With the restriction on but the online scores never synced, every
/// scenario is admitted that no earlier verdict denies; with the restriction
/// off, every scenario is.
pub proof fn lemma_admission_default(
    settings: SettingsView,
    verdicts: Map<Seq<char>, bool>,
    online_scores: Map<Seq<char>, Score>,
    scenario: Seq<char>,
)
    ensures
        !settings.online_only_scenarios ==> admission(settings, verdicts, online_scores, scenario)
            == Admission::Allowed,
        settings.online_only_scenarios && !settings.online_scores_synced && !(
        verdicts.dom().contains(scenario) && !verdicts[scenario]) ==> admission(
            settings,
            verdicts,
            online_scores,
            scenario,
        ) == Admission::Allowed,
{
}

/// Says whether a scenario is tracked, and whether a verdict was recorded so
/// that the validation cache is to be saved.
pub fn is_scenario_allowed(
    settings: &Settings,
    cache: &mut ScenarioValidationCache,
    online_scores: &NameMap<Score>,
    scenario_name: &str,
) -> (r: (Admission, bool))
    requires
        old(cache).wf(),
        online_scores.wf(),
    ensures
        final(cache).wf(),
        r.0 == admission(settings@, old(cache)@, online_scores@, scenario_name@),
        r.1 == records_verdict(settings@, old(cache)@, online_scores@, scenario_name@),
        final(cache)@ == (if r.1 {
            old(cache)@.insert(scenario_name@, true)
        } else {
            old(cache)@
        }),
{
    if !settings.online_only_scenarios {
        return (Admission::Allowed, false);
    }
    match cache.is_cached(scenario_name) {
        Some(is_valid) => {
            return (
                if is_valid {
                    Admission::Allowed
                } else {
                    Admission::Denied
                },
                false,
            );
        },
        None => {},
    }
    if online_scores.contains_key(scenario_name) {
        cache.insert(scenario_name, true);
        return (Admission::Allowed, true);
    }
    if !settings.online_scores_synced {
        return (Admission::Allowed, false);
    }
    (Admission::AskOnline, false)
}

/// Takes in the answer of the popularity search for a scenario: a verdict is
/// recorded for good and returned; where the search did not get through
/// (`None`), nothing is recorded and the scenario is allowed.
pub fn admit_after_search(
    cache: &mut ScenarioValidationCache,
    scenario_name: &str,
    verdict: Option<bool>,
) -> (allowed: bool)
    requires
        old(cache).wf(),
    ensures
        final(cache).wf(),
        allowed == admission_after_search(verdict),
        final(cache)@ == (match verdict {
            Some(available) => old(cache)@.insert(scenario_name@, available),
            None => old(cache)@,
        }),
{
    match verdict {
        Some(available) => {
            cache.insert(scenario_name, available);
            available
        },
        None => true,
    }
}

} // verus!
