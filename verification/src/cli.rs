//! Command-line surface.
//!
//! Every flag lands in [`Cli`] unresolved, and precedence against the
//! configuration file is applied in `config::resolve`.
use vstd::prelude::*;

use crate::item::{Kind, SourceId};
use crate::period::Period;
use crate::time::Date;

verus! {

/// The flags of one invocation, as given.
#[derive(Debug, Default)]
pub struct Cli {
    /// Report on today, from midnight up to now.
    pub day: bool,
    /// Report on the current week, from its first day up to now.
    pub week: bool,
    /// Report on the current month, from the 1st up to now.
    pub month: bool,
    /// Shift the window one whole period back.
    pub prev: bool,
    /// Start of an explicit window.
    pub since: Option<Date>,
    /// End of an explicit window, inclusive; defaults to now.
    pub until: Option<Date>,
    /// Query GitHub.
    pub github: bool,
    /// Query Jira.
    pub jira: bool,
    /// Restrict to these item kinds.
    pub types: Vec<Kind>,
    /// Restrict GitHub results to these organizations.
    pub orgs: Vec<String>,
    /// Print a markdown table.
    pub markdown: bool,
    /// Print JSON.
    pub json: bool,
    /// Ignore cached results.
    pub no_cache: bool,
    /// Delete every cached result and exit.
    pub clear_cache: bool,
    /// Print query diagnostics to stderr.
    pub debug: bool,
    /// Never style output.
    pub no_color: bool,
    /// Read configuration from this path.
    pub config: Option<String>,
}

/// The period the flags name: the first of day, week and month that is set.
pub open spec fn named_period(day: bool, week: bool, month: bool) -> Option<Period> {
    if day {
        Some(Period::Day)
    } else if week {
        Some(Period::Week)
    } else if month {
        Some(Period::Month)
    } else {
        None
    }
}

impl Cli {
    /// The period named on the command line, if any.
    pub fn period(&self) -> (r: Option<Period>)
        ensures
            r == named_period(self.day, self.week, self.month),
    {
        if self.day {
            Some(Period::Day)
        } else if self.week {
            Some(Period::Week)
        } else if self.month {
            Some(Period::Month)
        } else {
            None
        }
    }

    /// Sources named on the command line, GitHub first. Empty means
    /// "whatever is configured", which the caller resolves.
    pub fn selected_sources(&self) -> (r: Vec<SourceId>)
        ensures
            r@.map_values(|s: SourceId| s@) == (if self.github { seq!["github"@] } else { seq![] })
                + (if self.jira { seq!["jira"@] } else { seq![] }),
    {
        let mut selected: Vec<SourceId> = Vec::new();
        if self.github {
            let id = SourceId::new("github");
            proof { reveal_strlit("github"); }
            assert(id@ == "github"@);
            selected.push(id);
        }
        if self.jira {
            let id = SourceId::new("jira");
            proof { reveal_strlit("jira"); }
            assert(id@ == "jira"@);
            selected.push(id);
        }
        assert(selected@.map_values(|s: SourceId| s@) =~= (if self.github { seq!["github"@] } else { seq![] })
                + (if self.jira { seq!["jira"@] } else { seq![] }));
        selected
    }
}

} // verus!
