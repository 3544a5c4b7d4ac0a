//! Aggregation of test outcomes across concurrently executed test tasks,
//! wall-clock performance measurement, and the small utilities test tasks
//! share.
//!
//! Concurrent writers each hold the aggregator behind a lock and append
//! one record per call; any interleaving of the calls is valid, and the
//! contracts here pin down what every single call appends.

use vstd::prelude::*;

use crate::strnum::spec_dec;
use crate::strnum::u64_to_string;
use vstd::string::StringExecFns;

verus! {

/// Elapsed nanoseconds between two wall-clock readings; a clock that
/// jumped backwards yields zero rather than a panic.
pub open spec fn spec_elapsed_nanos(start: u64, end: u64) -> nat {
    if end >= start {
        (end - start) as nat
    } else {
        0
    }
}

/// One wall-clock timing of a named batch of operations.  Derived metrics
/// are computed on demand, never stored, so they cannot drift.
pub struct PerformanceMeasurement {
    pub name: String,
    pub start_nanos: u64,
    pub end_nanos: Option<u64>,
    pub operations: usize,
}

impl PerformanceMeasurement {
    /// The elapsed nanoseconds once the measurement is finished.
    pub open spec fn spec_duration(&self) -> nat
        recommends
            self.end_nanos is Some,
    {
        spec_elapsed_nanos(self.start_nanos, self.end_nanos->0)
    }

    /// Captures the start instant for `operations` operations.
    pub fn start(name: &str, operations: usize) -> (m: PerformanceMeasurement)
        ensures
            m.name@ == name@,
            m.operations == operations,
            m.end_nanos is None,
    {
        PerformanceMeasurement {
            name: name.to_owned(),
            start_nanos: crate::host::now_nanos(),
            end_nanos: None,
            operations,
        }
    }

    /// Captures the end instant and returns the elapsed nanoseconds.
    /// Callers must call it at most once: a second call overwrites the end
    /// instant with a later reading.
    pub fn finish(&mut self) -> (elapsed: u64)
        ensures
            final(self).end_nanos is Some,
            elapsed == final(self).spec_duration(),
            final(self).name == old(self).name,
            final(self).start_nanos == old(self).start_nanos,
            final(self).operations == old(self).operations,
    {
        self.end_nanos = Some(crate::host::now_nanos());
        self.duration()
    }

    /// The elapsed nanoseconds: up to the end instant once finished, up to
    /// the clock's current reading while still running (a fresh reading,
    /// about which nothing is promised).
    pub fn duration(&self) -> (elapsed: u64)
        ensures
            self.end_nanos is Some ==> elapsed == self.spec_duration(),
    {
        let end = match self.end_nanos {
            Some(t) => t,
            None => crate::host::now_nanos(),
        };
        if end >= self.start_nanos {
            end - self.start_nanos
        } else {
            0
        }
    }
}

/// Accumulates the outcome of every executed test: each recorded test name
/// lands in exactly one of the three lists, entries are append-only, and
/// performance records are appended independently.
pub struct TestResults {
    pub passed: Vec<String>,
    pub failed: Vec<(String, String)>,
    pub skipped: Vec<String>,
    pub performance_measurements: Vec<PerformanceMeasurement>,
}

impl TestResults {
    pub fn new() -> (r: TestResults)
        ensures
            r.passed@ =~= Seq::<String>::empty(),
            r.failed@ =~= Seq::<(String, String)>::empty(),
            r.skipped@ =~= Seq::<String>::empty(),
            r.performance_measurements@ =~= Seq::<PerformanceMeasurement>::empty(),
    {
        TestResults {
            passed: Vec::new(),
            failed: Vec::new(),
            skipped: Vec::new(),
            performance_measurements: Vec::new(),
        }
    }

    /// Appends `test_name` to the passed list and touches nothing else.
    pub fn add_pass(&mut self, test_name: &str)
        ensures
            final(self).passed.deep_view() == old(self).passed.deep_view().push(test_name@),
            final(self).passed@.len() == old(self).passed@.len() + 1,
            final(self).failed@ == old(self).failed@,
            final(self).skipped@ == old(self).skipped@,
            final(self).performance_measurements@ == old(self).performance_measurements@,
    {
        self.passed.push(test_name.to_owned());
    }

    /// Appends `test_name` with its failure reason to the failed list and
    /// touches nothing else.
    pub fn add_fail(&mut self, test_name: &str, error: &str)
        ensures
            final(self).failed.deep_view() == old(self).failed.deep_view().push(
                (test_name@, error@),
            ),
            final(self).failed@.len() == old(self).failed@.len() + 1,
            final(self).passed@ == old(self).passed@,
            final(self).skipped@ == old(self).skipped@,
            final(self).performance_measurements@ == old(self).performance_measurements@,
    {
        self.failed.push((test_name.to_owned(), error.to_owned()));
    }

    /// Appends `test_name` to the skipped list and touches nothing else.
    pub fn add_skip(&mut self, test_name: &str)
        ensures
            final(self).skipped.deep_view() == old(self).skipped.deep_view().push(test_name@),
            final(self).skipped@.len() == old(self).skipped@.len() + 1,
            final(self).passed@ == old(self).passed@,
            final(self).failed@ == old(self).failed@,
            final(self).performance_measurements@ == old(self).performance_measurements@,
    {
        self.skipped.push(test_name.to_owned());
    }

    /// Appends one performance record; each record is independently
    /// well-formed, and no ordering is imposed on concurrent producers.
    pub fn add_measurement(&mut self, measurement: PerformanceMeasurement)
        ensures
            final(self).performance_measurements@ == old(self).performance_measurements@.push(
                measurement,
            ),
            final(self).passed@ == old(self).passed@,
            final(self).failed@ == old(self).failed@,
            final(self).skipped@ == old(self).skipped@,
    {
        self.performance_measurements.push(measurement);
    }

    /// How many tests were recorded, over all three outcome lists.
    pub fn total_tests(&self) -> (n: usize)
        requires
            self.passed@.len() + self.failed@.len() + self.skipped@.len() <= usize::MAX,
        ensures
            n == self.passed@.len() + self.failed@.len() + self.skipped@.len(),
    {
        self.passed.len() + self.failed.len() + self.skipped.len()
    }

    /// Combines two result sets by concatenating each category — an
    /// associative operation, so category results fold into a global
    /// result in any grouping.
    pub fn merge(&mut self, other: TestResults)
        ensures
            final(self).passed@ == old(self).passed@ + other.passed@,
            final(self).failed@ == old(self).failed@ + other.failed@,
            final(self).skipped@ == old(self).skipped@ + other.skipped@,
            final(self).performance_measurements@ == old(self).performance_measurements@
                + other.performance_measurements@,
    {
        let mut other = other;
        self.passed.append(&mut other.passed);
        self.failed.append(&mut other.failed);
        self.skipped.append(&mut other.skipped);
        self.performance_measurements.append(&mut other.performance_measurements);
    }
}

/// Recording passes appends and loses nothing.
pub open spec fn spec_record_passes(passed: Seq<Seq<char>>, names: Seq<Seq<char>>) -> Seq<
    Seq<char>,
>
    decreases names.len(),
{
    if names.len() == 0 {
        passed
    } else {
        spec_record_passes(passed.push(names[0]), names.drop_first())
    }
}

/// No lost updates: however many tasks record passes, once their calls are
/// serialized, every call appends exactly its own name — so K calls with K
/// names leave the passed list longer by exactly K, holding those K names,
/// in the serialization order, behind what was already recorded.
pub proof fn lemma_no_lost_updates(passed: Seq<Seq<char>>, names: Seq<Seq<char>>)
    ensures
        spec_record_passes(passed, names) == passed + names,
        spec_record_passes(passed, names).len() == passed.len() + names.len(),
        forall|i: int|
            0 <= i < names.len() ==> spec_record_passes(passed, names)[passed.len() + i]
                == #[trigger] names[i],
    decreases names.len(),
{
    if names.len() == 0 {
        assert(spec_record_passes(passed, names) =~= passed + names);
    } else {
        lemma_no_lost_updates(passed.push(names[0]), names.drop_first());
        assert(passed.push(names[0]) + names.drop_first() =~= passed + names);
    }
}

impl TestResults {
    /// The human-readable summary: a heading, the four counts, then one
    /// line per failed test with its reason, then one line per
    /// performance record.
    pub fn summary_lines(&self) -> (lines: Vec<String>)
        requires
            self.passed@.len() + self.failed@.len() + self.skipped@.len() <= usize::MAX,
        ensures
            lines@.len() == 5 + self.failed@.len() + self.performance_measurements@.len(),
            lines@[0]@ == "Test Results Summary:"@,
            lines@[1]@ == "  Total: "@ + spec_dec(
                (self.passed@.len() + self.failed@.len() + self.skipped@.len()) as nat,
            ),
            lines@[2]@ == "  Passed: "@ + spec_dec(self.passed@.len() as nat),
            lines@[3]@ == "  Failed: "@ + spec_dec(self.failed@.len() as nat),
            lines@[4]@ == "  Skipped: "@ + spec_dec(self.skipped@.len() as nat),
            forall|i: int|
                0 <= i < self.failed@.len() ==> lines@[5 + i]@ == "  "@ + (
                #[trigger] self.failed@[i]).0@ + " - "@ + self.failed@[i].1@,
            forall|j: int|
                0 <= j < self.performance_measurements@.len() ==> lines@[5 + self.failed@.len()
                    + j]@ == "  "@ + (#[trigger] self.performance_measurements@[j]).name@ + " - "@
                    + spec_dec(self.performance_measurements@[j].operations as nat) + " ops"@,
    {
        let mut lines: Vec<String> = Vec::new();
        lines.push("Test Results Summary:".to_owned());
        let total = self.total_tests();
        let mut l1 = "  Total: ".to_owned();
        l1.append(u64_to_string(total as u64).as_str());
        lines.push(l1);
        let mut l2 = "  Passed: ".to_owned();
        l2.append(u64_to_string(self.passed.len() as u64).as_str());
        lines.push(l2);
        let mut l3 = "  Failed: ".to_owned();
        l3.append(u64_to_string(self.failed.len() as u64).as_str());
        lines.push(l3);
        let mut l4 = "  Skipped: ".to_owned();
        l4.append(u64_to_string(self.skipped.len() as u64).as_str());
        lines.push(l4);
        let mut i: usize = 0;
        while i < self.failed.len()
            invariant
                0 <= i <= self.failed@.len(),
                lines@.len() == 5 + i,
                lines@[0]@ == "Test Results Summary:"@,
                lines@[1]@ == "  Total: "@ + spec_dec(
                    (self.passed@.len() + self.failed@.len() + self.skipped@.len()) as nat,
                ),
                lines@[2]@ == "  Passed: "@ + spec_dec(self.passed@.len() as nat),
                lines@[3]@ == "  Failed: "@ + spec_dec(self.failed@.len() as nat),
                lines@[4]@ == "  Skipped: "@ + spec_dec(self.skipped@.len() as nat),
                forall|k: int|
                    0 <= k < i ==> lines@[5 + k]@ == "  "@ + (#[trigger] self.failed@[k]).0@
                        + " - "@ + self.failed@[k].1@,
            decreases self.failed@.len() - i,
        {
            let mut line = "  ".to_owned();
            line.append(self.failed[i].0.as_str());
            line.append(" - ");
            line.append(self.failed[i].1.as_str());
            lines.push(line);
            i = i + 1;
        }
        let mut j: usize = 0;
        while j < self.performance_measurements.len()
            invariant
                0 <= j <= self.performance_measurements@.len(),
                lines@.len() == 5 + self.failed@.len() + j,
                lines@[0]@ == "Test Results Summary:"@,
                lines@[1]@ == "  Total: "@ + spec_dec(
                    (self.passed@.len() + self.failed@.len() + self.skipped@.len()) as nat,
                ),
                lines@[2]@ == "  Passed: "@ + spec_dec(self.passed@.len() as nat),
                lines@[3]@ == "  Failed: "@ + spec_dec(self.failed@.len() as nat),
                lines@[4]@ == "  Skipped: "@ + spec_dec(self.skipped@.len() as nat),
                forall|k: int|
                    0 <= k < self.failed@.len() ==> lines@[5 + k]@ == "  "@ + (
                    #[trigger] self.failed@[k]).0@ + " - "@ + self.failed@[k].1@,
                forall|k: int|
                    0 <= k < j ==> lines@[5 + self.failed@.len() + k]@ == "  "@ + (
                    #[trigger] self.performance_measurements@[k]).name@ + " - "@ + spec_dec(
                        self.performance_measurements@[k].operations as nat,
                    ) + " ops"@,
            decreases self.performance_measurements@.len() - j,
        {
            let mut line = "  ".to_owned();
            line.append(self.performance_measurements[j].name.as_str());
            line.append(" - ");
            line.append(u64_to_string(self.performance_measurements[j].operations as u64).as_str());
            line.append(" ops");
            lines.push(line);
            j = j + 1;
        }
        lines
    }

    /// Prints the summary to standard output, one line at a time.
    pub fn print_summary(&self)
        requires
            self.passed@.len() + self.failed@.len() + self.skipped@.len() <= usize::MAX,
    {
        let lines = self.summary_lines();
        let mut i: usize = 0;
        while i < lines.len()
            decreases lines@.len() - i,
        {
            crate::host::emit_line(lines[i].as_str());
            i = i + 1;
        }
    }
}

/// Parameters of a load test run.
#[derive(Clone, Copy, Debug)]
pub struct LoadTestConfig {
    pub concurrent_users: usize,
    pub duration_secs: u64,
    pub ramp_up_secs: u64,
    pub operations_per_user: usize,
}

impl Default for LoadTestConfig {
    /// Ten users ramping up over ten seconds, one minute of load, a
    /// hundred operations each.
    fn default() -> (c: LoadTestConfig)
        ensures
            c.concurrent_users == 10,
            c.duration_secs == 60,
            c.ramp_up_secs == 10,
            c.operations_per_user == 100,
    {
        LoadTestConfig {
            concurrent_users: 10,
            duration_secs: 60,
            ramp_up_secs: 10,
            operations_per_user: 100,
        }
    }
}

/// Identifiers of the records each test created, kept so that teardown can
/// remove exactly what was created.  Identifiers are 128-bit record ids;
/// cache entries are tracked by key.
pub struct CleanupTracker {
    pub drivers_to_cleanup: Vec<u128>,
    pub locations_to_cleanup: Vec<u128>,
    pub shifts_to_cleanup: Vec<u128>,
    pub ratings_to_cleanup: Vec<u128>,
    pub redis_keys_to_cleanup: Vec<String>,
}

impl CleanupTracker {
    pub fn new() -> (t: CleanupTracker)
        ensures
            t.drivers_to_cleanup@ =~= Seq::<u128>::empty(),
            t.locations_to_cleanup@ =~= Seq::<u128>::empty(),
            t.shifts_to_cleanup@ =~= Seq::<u128>::empty(),
            t.ratings_to_cleanup@ =~= Seq::<u128>::empty(),
            t.redis_keys_to_cleanup@ =~= Seq::<String>::empty(),
    {
        CleanupTracker {
            drivers_to_cleanup: Vec::new(),
            locations_to_cleanup: Vec::new(),
            shifts_to_cleanup: Vec::new(),
            ratings_to_cleanup: Vec::new(),
            redis_keys_to_cleanup: Vec::new(),
        }
    }

    pub fn track_driver(&mut self, driver_id: u128)
        ensures
            final(self).drivers_to_cleanup@ == old(self).drivers_to_cleanup@.push(driver_id),
            final(self).locations_to_cleanup@ == old(self).locations_to_cleanup@,
            final(self).shifts_to_cleanup@ == old(self).shifts_to_cleanup@,
            final(self).ratings_to_cleanup@ == old(self).ratings_to_cleanup@,
            final(self).redis_keys_to_cleanup@ == old(self).redis_keys_to_cleanup@,
    {
        self.drivers_to_cleanup.push(driver_id);
    }

    pub fn track_location(&mut self, location_id: u128)
        ensures
            final(self).locations_to_cleanup@ == old(self).locations_to_cleanup@.push(location_id),
            final(self).drivers_to_cleanup@ == old(self).drivers_to_cleanup@,
            final(self).shifts_to_cleanup@ == old(self).shifts_to_cleanup@,
            final(self).ratings_to_cleanup@ == old(self).ratings_to_cleanup@,
            final(self).redis_keys_to_cleanup@ == old(self).redis_keys_to_cleanup@,
    {
        self.locations_to_cleanup.push(location_id);
    }

    pub fn track_shift(&mut self, shift_id: u128)
        ensures
            final(self).shifts_to_cleanup@ == old(self).shifts_to_cleanup@.push(shift_id),
            final(self).drivers_to_cleanup@ == old(self).drivers_to_cleanup@,
            final(self).locations_to_cleanup@ == old(self).locations_to_cleanup@,
            final(self).ratings_to_cleanup@ == old(self).ratings_to_cleanup@,
            final(self).redis_keys_to_cleanup@ == old(self).redis_keys_to_cleanup@,
    {
        self.shifts_to_cleanup.push(shift_id);
    }

    pub fn track_rating(&mut self, rating_id: u128)
        ensures
            final(self).ratings_to_cleanup@ == old(self).ratings_to_cleanup@.push(rating_id),
            final(self).drivers_to_cleanup@ == old(self).drivers_to_cleanup@,
            final(self).locations_to_cleanup@ == old(self).locations_to_cleanup@,
            final(self).shifts_to_cleanup@ == old(self).shifts_to_cleanup@,
            final(self).redis_keys_to_cleanup@ == old(self).redis_keys_to_cleanup@,
    {
        self.ratings_to_cleanup.push(rating_id);
    }

    pub fn track_redis_key(&mut self, key: String)
        ensures
            final(self).redis_keys_to_cleanup@ == old(self).redis_keys_to_cleanup@.push(key),
            final(self).drivers_to_cleanup@ == old(self).drivers_to_cleanup@,
            final(self).locations_to_cleanup@ == old(self).locations_to_cleanup@,
            final(self).shifts_to_cleanup@ == old(self).shifts_to_cleanup@,
            final(self).ratings_to_cleanup@ == old(self).ratings_to_cleanup@,
    {
        self.redis_keys_to_cleanup.push(key);
    }

    /// How many tracked records teardown has to remove.
    pub fn cleanup_count(&self) -> (n: usize)
        requires
            self.drivers_to_cleanup@.len() + self.locations_to_cleanup@.len()
                + self.shifts_to_cleanup@.len() + self.ratings_to_cleanup@.len()
                + self.redis_keys_to_cleanup@.len() <= usize::MAX,
        ensures
            n == self.drivers_to_cleanup@.len() + self.locations_to_cleanup@.len()
                + self.shifts_to_cleanup@.len() + self.ratings_to_cleanup@.len()
                + self.redis_keys_to_cleanup@.len(),
    {
        self.drivers_to_cleanup.len() + self.locations_to_cleanup.len()
            + self.shifts_to_cleanup.len() + self.ratings_to_cleanup.len()
            + self.redis_keys_to_cleanup.len()
    }
}

/// A test identifier: the prefix, an underscore, then 32 fresh hexadecimal
/// characters.
pub fn generate_test_id(prefix: &str) -> (id: String)
    requires
        prefix@.len() + 33 <= usize::MAX,
    ensures
        id@.len() == prefix@.len() + 33,
        id@.subrange(0, prefix@.len() as int) == prefix@,
        id@[prefix@.len() as int] == '_',
{
    let fresh = crate::host::fresh_uuid_simple();
    let mut id = prefix.to_owned();
    id.append("_");
    id.append(fresh.as_str());
    proof {
        reveal_strlit("_");
        assert(id@.subrange(0, prefix@.len() as int) =~= prefix@);
    }
    id
}

} // verus!
