//! Reports the harness builds while verifying its surroundings: the
//! data-consistency report computed from store-level counts, and the
//! per-component status of the test environment.
//!
//! Probing the store and the services is the runtime's job; it hands the
//! counts and failure messages in as plain values, and what they mean is
//! decided here.

use vstd::prelude::*;

use crate::api::spec_passed_count;
use crate::api::lemma_all_passed;
use vstd::string::StringExecFns;

verus! {

/// The names of the checks that did not pass, in recording order.
pub open spec fn spec_failed_names(checks: Seq<(String, bool)>) -> Seq<Seq<char>>
    decreases checks.len(),
{
    if checks.len() == 0 {
        Seq::empty()
    } else {
        spec_failed_names(checks.drop_last()) + if checks.last().1 {
            Seq::<Seq<char>>::empty()
        } else {
            seq![checks.last().0@]
        }
    }
}

/// Records, check by check, whether a data-consistency condition held.
/// Check names are recorded once each.
pub struct ConsistencyReport {
    pub checks: Vec<(String, bool)>,
    pub total_checks: usize,
    pub passed_checks: usize,
}

impl ConsistencyReport {
    /// The counters agree with the recorded checks.
    pub open spec fn wf(&self) -> bool {
        self.total_checks == self.checks@.len() && self.passed_checks == spec_passed_count(
            self.checks@,
        )
    }

    pub fn new() -> (rep: ConsistencyReport)
        ensures
            rep.wf(),
            rep.checks@ =~= Seq::<(String, bool)>::empty(),
    {
        ConsistencyReport { checks: Vec::new(), total_checks: 0, passed_checks: 0 }
    }

    /// Records one consistency check under its name.
    pub fn add_check(&mut self, name: &str, passed: bool)
        requires
            old(self).wf(),
        ensures
            final(self).wf(),
            final(self).checks.deep_view() == old(self).checks.deep_view().push((name@, passed)),
            final(self).total_checks == old(self).total_checks + 1,
            final(self).passed_checks == old(self).passed_checks + if passed {
                1int
            } else {
                0int
            },
    {
        proof {
            lemma_all_passed(self.checks@);
        }
        self.checks.push((name.to_owned(), passed));
        self.total_checks = self.checks.len();
        if passed {
            self.passed_checks = self.passed_checks + 1;
        }
        proof {
            assert(self.checks@.drop_last() =~= old(self).checks@);
            assert(self.checks.deep_view() =~= old(self).checks.deep_view().push((name@, passed)));
        }
    }

    /// Whether every recorded check held.
    pub fn is_all_passed(&self) -> (r: bool)
        requires
            self.wf(),
        ensures
            r <==> (forall|i: int| 0 <= i < self.checks@.len() ==> (#[trigger] self.checks@[i]).1),
    {
        proof {
            lemma_all_passed(self.checks@);
        }
        self.passed_checks == self.total_checks
    }

    /// The names of the checks that did not hold, in recording order.
    pub fn get_failed_checks(&self) -> (failed: Vec<String>)
        ensures
            failed.deep_view() == spec_failed_names(self.checks@),
    {
        let mut failed: Vec<String> = Vec::new();
        let mut i: usize = 0;
        while i < self.checks.len()
            invariant
                0 <= i <= self.checks@.len(),
                failed.deep_view() == spec_failed_names(self.checks@.subrange(0, i as int)),
            decreases self.checks@.len() - i,
        {
            if !self.checks[i].1 {
                failed.push(self.checks[i].0.clone());
            }
            proof {
                let pre = self.checks@.subrange(0, i + 1);
                assert(pre.drop_last() =~= self.checks@.subrange(0, i as int));
                assert(failed.deep_view() =~= spec_failed_names(pre));
            }
            i = i + 1;
        }
        proof {
            assert(self.checks@.subrange(0, self.checks@.len() as int) =~= self.checks@);
        }
        failed
    }
}

/// The consistency report over the three store-level probes: how many
/// drivers lack rating statistics, how many drivers' stored rating
/// disagrees with their statistics, and how many recorded locations fall
/// outside valid coordinate ranges.  Each check passes exactly when its
/// count is zero.
pub fn consistency_report_from(
    drivers_without_stats: u64,
    rating_mismatches: u64,
    invalid_locations: u64,
) -> (rep: ConsistencyReport)
    ensures
        rep.wf(),
        rep.checks@.len() == 3,
        rep.checks@[0].0@ == "drivers_without_rating_stats"@,
        rep.checks@[0].1 == (drivers_without_stats == 0),
        rep.checks@[1].0@ == "rating_consistency"@,
        rep.checks@[1].1 == (rating_mismatches == 0),
        rep.checks@[2].0@ == "valid_location_coordinates"@,
        rep.checks@[2].1 == (invalid_locations == 0),
{
    let mut rep = ConsistencyReport::new();
    rep.add_check("drivers_without_rating_stats", drivers_without_stats == 0);
    rep.add_check("rating_consistency", rating_mismatches == 0);
    rep.add_check("valid_location_coordinates", invalid_locations == 0);
    proof {
        assert(rep.checks.deep_view().len() == 3);
        assert(rep.checks.deep_view()[0] == (rep.checks@[0].0@, rep.checks@[0].1));
        assert(rep.checks.deep_view()[1] == (rep.checks@[1].0@, rep.checks@[1].1));
        assert(rep.checks.deep_view()[2] == (rep.checks@[2].0@, rep.checks@[2].1));
    }
    rep
}

/// The per-component health of the test environment, probed once before
/// any test runs: one check per component, plus the issues found.
pub struct EnvironmentStatus {
    pub checks: Vec<(String, bool)>,
    pub issues: Vec<String>,
}

impl EnvironmentStatus {
    pub fn new() -> (st: EnvironmentStatus)
        ensures
            st.checks@ =~= Seq::<(String, bool)>::empty(),
            st.issues@ =~= Seq::<String>::empty(),
    {
        EnvironmentStatus { checks: Vec::new(), issues: Vec::new() }
    }

    /// Records whether one component is available.  Components are
    /// recorded once each.
    pub fn add_check(&mut self, component: &str, passed: bool)
        ensures
            final(self).checks.deep_view() == old(self).checks.deep_view().push(
                (component@, passed),
            ),
            final(self).issues@ == old(self).issues@,
    {
        self.checks.push((component.to_owned(), passed));
        proof {
            assert(self.checks.deep_view() =~= old(self).checks.deep_view().push(
                (component@, passed),
            ));
        }
    }

    /// Records one issue found while probing.
    pub fn add_issue(&mut self, issue: String)
        ensures
            final(self).issues@ == old(self).issues@.push(issue),
            final(self).checks@ == old(self).checks@,
    {
        self.issues.push(issue);
    }

    /// Records the outcome of probing one component: the check, and the
    /// failure message as an issue if the probe failed.
    pub fn record_component(&mut self, component: &str, failure: Option<String>)
        ensures
            final(self).checks.deep_view() == old(self).checks.deep_view().push(
                (component@, failure is None),
            ),
            failure matches Some(msg) ==> final(self).issues@ == old(self).issues@.push(msg),
            failure is None ==> final(self).issues@ == old(self).issues@,
    {
        match failure {
            None => {
                self.add_check(component, true);
            },
            Some(msg) => {
                self.add_check(component, false);
                self.add_issue(msg);
            },
        }
    }

    /// The environment is healthy exactly when every probed component is
    /// available and no issue was recorded.
    pub fn is_healthy(&self) -> (r: bool)
        ensures
            r <==> ((forall|i: int|
                0 <= i < self.checks@.len() ==> (#[trigger] self.checks@[i]).1)
                && self.issues@.len() == 0),
    {
        if self.issues.len() != 0 {
            return false;
        }
        let mut i: usize = 0;
        while i < self.checks.len()
            invariant
                0 <= i <= self.checks@.len(),
                forall|j: int| 0 <= j < i ==> (#[trigger] self.checks@[j]).1,
            decreases self.checks@.len() - i,
        {
            if !self.checks[i].1 {
                return false;
            }
            i = i + 1;
        }
        true
    }

    /// The status rendered for a reader: a heading, one line per
    /// component, then the issues, if any, under their own heading.
    pub fn status_lines(&self) -> (lines: Vec<String>)
        ensures
            lines@.len() == 1 + self.checks@.len() + if self.issues@.len() > 0 {
                1 + self.issues@.len()
            } else {
                0nat
            },
            lines@[0]@ == "Environment Status:"@,
            forall|i: int|
                0 <= i < self.checks@.len() ==> lines@[1 + i]@ == (if (
                #[trigger] self.checks@[i]).1 {
                    "  [ok] "@
                } else {
                    "  [failed] "@
                }) + self.checks@[i].0@,
            self.issues@.len() > 0 ==> lines@[1 + self.checks@.len() as int]@ == "Issues:"@,
            forall|j: int|
                0 <= j < self.issues@.len() ==> lines@[2 + self.checks@.len() as int + j]@ == "  - "@ + (
                #[trigger] self.issues@[j])@,
    {
        let mut lines: Vec<String> = Vec::new();
        lines.push("Environment Status:".to_owned());
        let mut i: usize = 0;
        while i < self.checks.len()
            invariant
                0 <= i <= self.checks@.len(),
                lines@.len() == 1 + i,
                lines@[0]@ == "Environment Status:"@,
                forall|k: int|
                    0 <= k < i ==> lines@[1 + k]@ == (if (#[trigger] self.checks@[k]).1 {
                        "  [ok] "@
                    } else {
                        "  [failed] "@
                    }) + self.checks@[k].0@,
            decreases self.checks@.len() - i,
        {
            let mut line = if self.checks[i].1 {
                "  [ok] ".to_owned()
            } else {
                "  [failed] ".to_owned()
            };
            line.append(self.checks[i].0.as_str());
            lines.push(line);
            i = i + 1;
        }
        if self.issues.len() > 0 {
            lines.push("Issues:".to_owned());
            let mut j: usize = 0;
            while j < self.issues.len()
                invariant
                    0 <= j <= self.issues@.len(),
                    self.issues@.len() > 0,
                    lines@.len() == 2 + self.checks@.len() + j,
                    lines@[0]@ == "Environment Status:"@,
                    forall|k: int|
                        0 <= k < self.checks@.len() ==> lines@[1 + k]@ == (if (
                        #[trigger] self.checks@[k]).1 {
                            "  [ok] "@
                        } else {
                            "  [failed] "@
                        }) + self.checks@[k].0@,
                    lines@[1 + self.checks@.len() as int]@ == "Issues:"@,
                    forall|k: int|
                        0 <= k < j ==> lines@[2 + self.checks@.len() as int + k]@ == "  - "@ + (
                        #[trigger] self.issues@[k])@,
                decreases self.issues@.len() - j,
            {
                let mut line = "  - ".to_owned();
                line.append(self.issues[j].as_str());
                lines.push(line);
                j = j + 1;
            }
        }
        lines
    }

    /// Prints the status to standard output, one line at a time.
    pub fn print_status(&self) {
        let lines = self.status_lines();
        let mut i: usize = 0;
        while i < lines.len()
            decreases lines@.len() - i,
        {
            crate::host::emit_line(lines[i].as_str());
            i = i + 1;
        }
    }
}

} // verus!
