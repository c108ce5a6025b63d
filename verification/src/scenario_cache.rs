//! The validation cache: for each scenario once looked up, whether it is
//! available online.

use crate::table::NameMap;
use vstd::prelude::*;

verus! {

/// The verdicts of earlier lookups, by scenario name.
pub struct ScenarioValidationCache {
    cache: NameMap<bool>,
}

impl ScenarioValidationCache {
    /// The table holds no name twice.
    pub closed spec fn wf(&self) -> bool {
        self.cache.wf()
    }

    /// The verdicts by scenario name.
    pub closed spec fn view(&self) -> Map<Seq<char>, bool> {
        self.cache@
    }

    /// The empty cache.
    pub fn new() -> (r: Self)
        ensures
            r.wf(),
            r@ == Map::<Seq<char>, bool>::empty(),
    {
        ScenarioValidationCache { cache: NameMap::new() }
    }

    /// Takes over what the cache file holds; a file that is missing, blank or
    /// does not decode (`None`) leaves the cache as it is.
    pub fn load(&mut self, stored: Option<NameMap<bool>>)
        requires
            old(self).wf(),
            stored matches Some(table) ==> table.wf(),
        ensures
            final(self).wf(),
            final(self)@ == (match stored {
                Some(table) => table@,
                None => old(self)@,
            }),
    {
        match stored {
            Some(table) => {
                self.cache = table;
            },
            None => {},
        }
    }

    /// The verdict on a scenario, where it was looked up before.
    pub fn is_cached(&self, scenario_name: &str) -> (r: Option<bool>)
        requires
            self.wf(),
        ensures
            r == (if self@.dom().contains(scenario_name@) {
                Some(self@[scenario_name@])
            } else {
                None
            }),
    {
        match self.cache.get(scenario_name) {
            Some(verdict) => Some(*verdict),
            None => None,
        }
    }

    /// Records the verdict on a scenario.
    pub fn insert(&mut self, scenario_name: &str, is_valid: bool)
        requires
            old(self).wf(),
        ensures
            final(self).wf(),
            final(self)@ == old(self)@.insert(scenario_name@, is_valid),
    {
        self.cache.insert(scenario_name, is_valid);
    }

    /// The number of scenarios with a verdict.
    pub fn len(&self) -> (n: usize)
        requires
            self.wf(),
        ensures
            n == self@.dom().len(),
    {
        self.cache.len()
    }

    /// Whether no scenario has a verdict.
    pub fn is_empty(&self) -> (r: bool)
        requires
            self.wf(),
        ensures
            r == (self@ == Map::<Seq<char>, bool>::empty()),
    {
        self.cache.is_empty()
    }

    /// The verdicts, for writing the cache file.
    pub fn entries(&self) -> (r: &NameMap<bool>)
        ensures
            r@ == self@,
            r.wf() == self.wf(),
    {
        &self.cache
    }
}

} // verus!
