//! Settings for issue-tracker integrations.

use vstd::prelude::*;
use vstd::string::*;

verus! {

/// How one issue tracker is reached.
#[derive(Debug, Clone)]
pub struct TrackerConfig {
    pub enabled: bool,
    pub base_url: String,
    /// Patterns that match this tracker's ticket ids.
    pub ticket_patterns: Vec<String>,
    /// Template of the address of a ticket, over `{base_url}` and `{ticket}`.
    pub browse_url: String,
    /// Template of the address of a ticket's work log, over `{base_url}` and `{ticket}`.
    pub worklog_url: String,
}

/// The trackers by name, and the one to fall back on.
#[derive(Debug, Clone)]
pub struct IntegrationConfig {
    /// The tracker to use where the ticket id does not tell which.
    pub default_tracker: Option<String>,
    /// Each tracker under its name; a well-formed list holds no name twice.
    pub trackers: Vec<(String, TrackerConfig)>,
}

/// All settings.
#[derive(Debug, Clone)]
pub struct Config {
    pub integrations: IntegrationConfig,
}

impl TrackerConfig {
    /// Whether the tracker can be used: it is switched on and has an address.
    pub open spec fn is_usable(&self) -> bool {
        self.enabled && self.base_url@.len() > 0
    }
}

impl Default for TrackerConfig {
    fn default() -> (r: Self)
        ensures
            !r.enabled,
            r.base_url@.len() == 0,
            r.ticket_patterns@.len() == 0,
            r.browse_url@.len() == 0,
            r.worklog_url@.len() == 0,
    {
        TrackerConfig {
            enabled: false,
            base_url: String::new(),
            ticket_patterns: Vec::new(),
            browse_url: String::new(),
            worklog_url: String::new(),
        }
    }
}

impl IntegrationConfig {
    /// No name occurs twice among the trackers.
    pub open spec fn wf(&self) -> bool {
        forall|i: int, j: int|
            #![trigger self.trackers@[i], self.trackers@[j]]
            0 <= i < j < self.trackers@.len() ==> self.trackers@[i].0@ != self.trackers@[j].0@
    }

    /// Whether a tracker goes by the name.
    pub open spec fn has_tracker(&self, name: Seq<char>) -> bool {
        exists|i: int| 0 <= i < self.trackers@.len() && (#[trigger] self.trackers@[i]).0@ == name
    }

    /// The tracker that goes by the name: the first in the list, which in a
    /// well-formed list is the only one.
    pub fn tracker(&self, name: &str) -> (r: Option<&TrackerConfig>)
        ensures
            r is Some <==> self.has_tracker(name@),
            r matches Some(found) ==> exists|i: int|
                0 <= i < self.trackers@.len() && (#[trigger] self.trackers@[i]).0@ == name@
                    && *found == self.trackers@[i].1 && forall|k: int|
                    0 <= k < i ==> (#[trigger] self.trackers@[k]).0@ != name@,
    {
        let wanted = String::from_str(name);
        let mut i: usize = 0;
        while i < self.trackers.len()
            invariant
                0 <= i <= self.trackers@.len(),
                wanted@ == name@,
                forall|k: int| 0 <= k < i ==> (#[trigger] self.trackers@[k]).0@ != name@,
            decreases self.trackers@.len() - i,
        {
            if self.trackers[i].0 == wanted {
                return Some(&self.trackers[i].1);
            }
            i += 1;
        }
        None
    }
}

impl Default for IntegrationConfig {
    fn default() -> (r: Self)
        ensures
            r.default_tracker is None,
            r.trackers@.len() == 0,
            r.wf(),
    {
        IntegrationConfig { default_tracker: None, trackers: Vec::new() }
    }
}

impl Default for Config {
    fn default() -> (r: Self)
        ensures
            r.integrations.default_tracker is None,
            r.integrations.trackers@.len() == 0,
            r.integrations.wf(),
    {
        Config { integrations: IntegrationConfig::default() }
    }
}

impl Config {
    /// Whether some tracker is switched on and has an address.
    pub open spec fn any_usable_tracker(&self) -> bool {
        exists|i: int|
            0 <= i < self.integrations.trackers@.len() && (
            #[trigger] self.integrations.trackers@[i]).1.is_usable()
    }

    /// Tells whether some tracker is switched on and has an address.
    pub fn has_integrations(&self) -> (r: bool)
        ensures
            r == self.any_usable_tracker(),
    {
        let mut i: usize = 0;
        while i < self.integrations.trackers.len()
            invariant
                0 <= i <= self.integrations.trackers@.len(),
                forall|k: int| 0 <= k < i ==> !(#[trigger] self.integrations.trackers@[k]).1.is_usable(),
            decreases self.integrations.trackers@.len() - i,
        {
            let tracker = &self.integrations.trackers[i].1;
            if tracker.enabled && !tracker.base_url.as_str().is_empty() {
                return true;
            }
            i += 1;
        }
        false
    }
}

} // verus!
