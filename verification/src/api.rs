//! The decision core of the HTTP API client: mapping response status codes
//! to typed outcomes, and the per-endpoint availability report.
//!
//! Sending requests and decoding bodies is the runtime's job; what each
//! status code means is decided here.

use vstd::prelude::*;

verus! {

/// The typed outcome a response status code maps to.
#[derive(Clone, Copy, Debug, PartialEq, Eq, Structural)]
pub enum StatusClass {
    /// 200 or 201: the body is the expected payload.
    Success,
    /// 400: the request was rejected as invalid.
    BadRequest,
    /// 404: the addressed resource does not exist.
    NotFound,
    /// 409: the request conflicts with existing state.
    Conflict,
    /// 500: the service failed internally.
    ServerError,
    /// Any other status code.
    Unexpected,
}

/// Maps a response status code to its typed outcome.
pub fn classify_status(status: u16) -> (c: StatusClass)
    ensures
        (c is Success) <==> (status == 200 || status == 201),
        (c is BadRequest) <==> status == 400,
        (c is NotFound) <==> status == 404,
        (c is Conflict) <==> status == 409,
        (c is ServerError) <==> status == 500,
        (c is Unexpected) <==> !(status == 200 || status == 201 || status == 400 || status == 404
            || status == 409 || status == 500),
{
    if status == 200 || status == 201 {
        StatusClass::Success
    } else if status == 400 {
        StatusClass::BadRequest
    } else if status == 404 {
        StatusClass::NotFound
    } else if status == 409 {
        StatusClass::Conflict
    } else if status == 500 {
        StatusClass::ServerError
    } else {
        StatusClass::Unexpected
    }
}

/// How many of the recorded endpoint probes passed.
pub open spec fn spec_passed_count(tests: Seq<(String, bool)>) -> nat
    decreases tests.len(),
{
    if tests.len() == 0 {
        0
    } else {
        spec_passed_count(tests.drop_last()) + if tests.last().1 {
            1nat
        } else {
            0nat
        }
    }
}

/// Every recorded probe passed exactly when the passed count reaches the
/// length.
pub proof fn lemma_all_passed(tests: Seq<(String, bool)>)
    ensures
        spec_passed_count(tests) <= tests.len(),
        (spec_passed_count(tests) == tests.len()) <==> (forall|i: int|
            0 <= i < tests.len() ==> (#[trigger] tests[i]).1),
    decreases tests.len(),
{
    if tests.len() > 0 {
        lemma_all_passed(tests.drop_last());
        assert(forall|i: int|
            0 <= i < tests.len() - 1 ==> #[trigger] tests[i] == tests.drop_last()[i]);
    }
}

/// Records, endpoint by endpoint, whether a probe of it succeeded.
pub struct EndpointTestReport {
    pub tests: Vec<(String, bool)>,
    pub total_tests: usize,
    pub passed_tests: usize,
}

impl EndpointTestReport {
    /// The counters agree with the recorded probes.
    pub open spec fn wf(&self) -> bool {
        self.total_tests == self.tests@.len() && self.passed_tests == spec_passed_count(
            self.tests@,
        )
    }

    pub fn new() -> (rep: EndpointTestReport)
        ensures
            rep.wf(),
            rep.tests@ =~= Seq::<(String, bool)>::empty(),
    {
        EndpointTestReport { tests: Vec::new(), total_tests: 0, passed_tests: 0 }
    }

    /// Records one probe outcome under the endpoint's name.
    pub fn add_test(&mut self, name: &str, passed: bool)
        requires
            old(self).wf(),
        ensures
            final(self).wf(),
            final(self).tests.deep_view() == old(self).tests.deep_view().push((name@, passed)),
            final(self).total_tests == old(self).total_tests + 1,
            final(self).passed_tests == old(self).passed_tests + if passed {
                1int
            } else {
                0int
            },
    {
        proof {
            lemma_all_passed(self.tests@);
        }
        self.tests.push((name.to_owned(), passed));
        self.total_tests = self.tests.len();
        if passed {
            self.passed_tests = self.passed_tests + 1;
        }
        proof {
            assert(self.tests@.drop_last() =~= old(self).tests@);
            assert(self.tests.deep_view() =~= old(self).tests.deep_view().push((name@, passed)));
        }
    }

    /// Whether every probed endpoint was available.
    pub fn is_all_passed(&self) -> (r: bool)
        requires
            self.wf(),
        ensures
            r <==> (forall|i: int| 0 <= i < self.tests@.len() ==> (#[trigger] self.tests@[i]).1),
    {
        proof {
            lemma_all_passed(self.tests@);
        }
        self.passed_tests == self.total_tests
    }
}

} // verus!
