//! Scenarios, their dispatch by test type and target, and the verdicts
//! that compare what happened with what was expected.
use vstd::prelude::*;
use crate::errno::{errno_name, errno_name_of};
use crate::flags::spells;
use crate::errno::enoent;
use crate::flags::o_rdonly;
use crate::params::{
    extract_open, has_nul, lookup, open_args, path_param, OpenRequest, OpenRequestView, ParamError,
    Params,
};

verus! {

/// The coarse outcome of a system call.
#[derive(PartialEq, Eq, Structural, Clone, Copy, Debug)]
pub enum Outcome {
    Success,
    Error,
}

impl Outcome {
    pub open spec fn text(self) -> Seq<char> {
        match self {
            Outcome::Success => "success"@,
            Outcome::Error => "error"@,
        }
    }

    /// The outcome's name: `success` or `error`.
    pub fn as_str(&self) -> (r: &'static str)
        ensures
            r@ == self.text(),
    {
        match self {
            Outcome::Success => "success",
            Outcome::Error => "error",
        }
    }
}

/// One declarative test case.
#[derive(Clone, Debug, PartialEq, Eq)]
pub struct TestScenario {
    pub id: String,
    pub description: String,
    pub expected_result: Outcome,
    /// Informational only: it takes no part in the verdict.
    pub expected_errno: Option<String>,
    pub test_type: String,
    pub target: String,
    pub params: Params,
}

/// The verdict on one scenario.
#[derive(Clone, Debug, PartialEq, Eq)]
pub struct TestResults {
    pub id: String,
    pub description: String,
    pub passed: bool,
    pub actual_result: Outcome,
    /// Present exactly when `actual_result` is `Error`.
    pub actual_errno: Option<String>,
    pub message: String,
}

pub struct TestResultsView {
    pub id: Seq<char>,
    pub description: Seq<char>,
    pub passed: bool,
    pub actual_result: Outcome,
    pub actual_errno: Option<Seq<char>>,
    pub message: Seq<char>,
}

pub open spec fn opt_text(o: Option<String>) -> Option<Seq<char>> {
    match o {
        Some(s) => Some(s@),
        None => None,
    }
}

impl View for TestResults {
    type V = TestResultsView;

    open spec fn view(&self) -> TestResultsView {
        TestResultsView {
            id: self.id@,
            description: self.description@,
            passed: self.passed,
            actual_result: self.actual_result,
            actual_errno: opt_text(self.actual_errno),
            message: self.message@,
        }
    }
}

/// What a dispatched scenario actually did.
#[derive(Clone, Debug, PartialEq, Eq)]
pub struct Actual {
    pub result: Outcome,
    pub errno: Option<String>,
}

pub struct ActualView {
    pub result: Outcome,
    pub errno: Option<Seq<char>>,
}

impl View for Actual {
    type V = ActualView;

    open spec fn view(&self) -> ActualView {
        ActualView { result: self.result, errno: opt_text(self.errno) }
    }
}

/// The test types the dispatcher knows.
#[derive(PartialEq, Eq, Structural, Clone, Copy, Debug)]
pub enum TestType {
    Syscall,
    Unsupported,
}

/// The system call targets the dispatcher knows.
#[derive(PartialEq, Eq, Structural, Clone, Copy, Debug)]
pub enum Target {
    Open,
    Unsupported,
}

/// The test type a tag selects: only `syscall` is known.
pub fn test_type_of(tag: &str) -> (r: TestType)
    ensures
        r == (if tag@ == "syscall"@ { TestType::Syscall } else { TestType::Unsupported }),
{
    let n = tag.unicode_len();
    proof {
        assert(tag@.subrange(0, n as int) =~= tag@);
    }
    if spells(tag, 0, n, "syscall") {
        TestType::Syscall
    } else {
        TestType::Unsupported
    }
}

/// The target a tag selects: only `open` is known.
pub fn target_of(tag: &str) -> (r: Target)
    ensures
        r == (if tag@ == "open"@ { Target::Open } else { Target::Unsupported }),
{
    let n = tag.unicode_len();
    proof {
        assert(tag@.subrange(0, n as int) =~= tag@);
    }
    if spells(tag, 0, n, "open") {
        Target::Open
    } else {
        Target::Unsupported
    }
}

/// What dispatch decides: an outcome reached without a system call, or
/// the `open` call to make.
#[derive(Clone, Debug, PartialEq, Eq)]
pub enum Step {
    Done(Actual),
    Open(OpenRequest),
}

pub enum StepView {
    Done(ActualView),
    Open(OpenRequestView),
}

impl View for Step {
    type V = StepView;

    open spec fn view(&self) -> StepView {
        match self {
            Step::Done(a) => StepView::Done(a@),
            Step::Open(q) => StepView::Open(q@),
        }
    }
}

/// An error outcome with the given symbolic name.
pub open spec fn failed(name: Seq<char>) -> ActualView {
    ActualView { result: Outcome::Error, errno: Some(name) }
}

/// The symbolic name reported for a parameter error.
pub open spec fn param_error_name(e: ParamError) -> Seq<char> {
    match e {
        ParamError::MissingPath => "MISSING_PATH_PARAM"@,
        ParamError::InvalidPath => "INVALID_PATH"@,
    }
}

/// Two-level dispatch: test type, then target, then the target's
/// parameter extraction.
pub open spec fn plan_of(s: TestScenario) -> StepView {
    if s.test_type@ != "syscall"@ {
        StepView::Done(failed("UNSUPPORTED_TEST_TYPE"@))
    } else if s.target@ != "open"@ {
        StepView::Done(failed("UNSUPPORTED_SYSCALL"@))
    } else {
        match open_args(s.params) {
            Err(e) => StepView::Done(failed(param_error_name(e))),
            Ok(q) => StepView::Open(q),
        }
    }
}

/// The outcome of an `open` call that succeeded, or failed with a native
/// error number.
pub open spec fn reply_outcome(reply: Result<(), i32>) -> ActualView {
    match reply {
        Ok(()) => ActualView { result: Outcome::Success, errno: None },
        Err(e) => failed(errno_name_of(e)),
    }
}

/// `PASS`, or what was expected against what happened.
pub open spec fn message_of(expected: Outcome, a: ActualView) -> Seq<char> {
    if a.result == expected {
        "PASS"@
    } else {
        let head = "FAIL: expected "@ + expected.text() + ", got "@ + a.result.text();
        match a.errno {
            Some(e) => head + " ("@ + e + ")"@,
            None => head,
        }
    }
}

/// The verdict on a scenario, given what it actually did.
pub open spec fn result_of(s: TestScenario, a: ActualView) -> TestResultsView {
    TestResultsView {
        id: s.id@,
        description: s.description@,
        passed: a.result == s.expected_result,
        actual_result: a.result,
        actual_errno: a.errno,
        message: message_of(s.expected_result, a),
    }
}

/// `r` is a verdict that running `s` with `invoke` as the `open` call may give.
pub open spec fn ran<F: Fn(&OpenRequest) -> Result<(), i32>>(
    s: TestScenario,
    invoke: F,
    r: TestResultsView,
) -> bool {
    match plan_of(s) {
        StepView::Done(a) => r == result_of(s, a),
        StepView::Open(q) => exists|req: OpenRequest, reply: Result<(), i32>|
            req@ == q && #[trigger] call_ensures(invoke, (&req,), reply) && r == result_of(
                s,
                reply_outcome(reply),
            ),
    }
}

/// A scenario whose test type is not `syscall` fails with
/// `UNSUPPORTED_TEST_TYPE`, whatever its target and parameters.
pub proof fn lemma_unsupported_test_type<F: Fn(&OpenRequest) -> Result<(), i32>>(
    s: TestScenario,
    invoke: F,
    r: TestResultsView,
)
    requires
        s.test_type@ != "syscall"@,
        ran(s, invoke, r),
    ensures
        r.actual_result == Outcome::Error,
        r.actual_errno == Some("UNSUPPORTED_TEST_TYPE"@),
{
}

/// An `open` scenario without a string `path` fails with
/// `MISSING_PATH_PARAM`, so it does not pass when it expects success.
pub proof fn lemma_missing_path<F: Fn(&OpenRequest) -> Result<(), i32>>(
    s: TestScenario,
    invoke: F,
    r: TestResultsView,
)
    requires
        s.test_type@ == "syscall"@,
        s.target@ == "open"@,
        path_param(s.params) is None,
        ran(s, invoke, r),
    ensures
        r.actual_result == Outcome::Error,
        r.actual_errno == Some("MISSING_PATH_PARAM"@),
        s.expected_result == Outcome::Success ==> !r.passed,
{
}

/// An `open` scenario whose call succeeds passes exactly when it expects
/// success, and reports no error name.
pub proof fn lemma_open_succeeds<F: Fn(&OpenRequest) -> Result<(), i32>>(
    s: TestScenario,
    invoke: F,
    r: TestResultsView,
)
    requires
        s.test_type@ == "syscall"@,
        s.target@ == "open"@,
        open_args(s.params) is Ok,
        forall|q: &OpenRequest, reply: Result<(), i32>|
            call_ensures(invoke, (q,), reply) ==> reply is Ok,
        ran(s, invoke, r),
    ensures
        r.actual_result == Outcome::Success,
        r.actual_errno is None,
        r.passed == (s.expected_result == Outcome::Success),
{
}

/// An `open` scenario with a valid path and no `flags` opens read-only,
/// and when the path does not exist it fails with `ENOENT`.
pub proof fn lemma_missing_file<F: Fn(&OpenRequest) -> Result<(), i32>>(
    s: TestScenario,
    invoke: F,
    r: TestResultsView,
)
    requires
        s.test_type@ == "syscall"@,
        s.target@ == "open"@,
        path_param(s.params) is Some,
        !has_nul(path_param(s.params).unwrap()),
        lookup(s.params.entries@, "flags"@) is None,
        forall|q: &OpenRequest, reply: Result<(), i32>|
            call_ensures(invoke, (q,), reply) ==> reply == Err::<(), i32>(enoent()),
        ran(s, invoke, r),
    ensures
        open_args(s.params) is Ok,
        open_args(s.params)->Ok_0.flags == o_rdonly(),
        r.actual_result == Outcome::Error,
        r.actual_errno == Some("ENOENT"@),
{
}

/// Running a scenario twice against an unchanged system, one where the
/// same `open` request always gets the same reply, gives the same verdict.
pub proof fn lemma_rerun<F: Fn(&OpenRequest) -> Result<(), i32>>(
    s: TestScenario,
    invoke: F,
    r1: TestResultsView,
    r2: TestResultsView,
)
    requires
        forall|q1: &OpenRequest, q2: &OpenRequest, a: Result<(), i32>, b: Result<(), i32>|
            q1@ == q2@ && #[trigger] call_ensures(invoke, (q1,), a) && #[trigger] call_ensures(
                invoke,
                (q2,),
                b,
            ) ==> a == b,
        ran(s, invoke, r1),
        ran(s, invoke, r2),
    ensures
        r1 == r2,
{
}

fn fail_with(name: &str) -> (r: Actual)
    ensures
        r@ == failed(name@),
{
    Actual { result: Outcome::Error, errno: Some(String::from_str(name)) }
}

/// Dispatches a scenario on its test type and target, and extracts the
/// arguments of the system call it asks for.
pub fn dispatch(s: &TestScenario) -> (r: Step)
    ensures
        r@ == plan_of(*s),
{
    match test_type_of(s.test_type.as_str()) {
        TestType::Unsupported => Step::Done(fail_with("UNSUPPORTED_TEST_TYPE")),
        TestType::Syscall => match target_of(s.target.as_str()) {
            Target::Unsupported => Step::Done(fail_with("UNSUPPORTED_SYSCALL")),
            Target::Open => match extract_open(&s.params) {
                Ok(q) => Step::Open(q),
                Err(ParamError::MissingPath) => Step::Done(fail_with("MISSING_PATH_PARAM")),
                Err(ParamError::InvalidPath) => Step::Done(fail_with("INVALID_PATH")),
            },
        },
    }
}

/// The outcome of an `open` call: success, or an error named after its
/// native error number.
pub fn open_outcome(reply: Result<(), i32>) -> (r: Actual)
    ensures
        r@ == reply_outcome(reply),
{
    match reply {
        Ok(()) => Actual { result: Outcome::Success, errno: None },
        Err(e) => Actual { result: Outcome::Error, errno: Some(errno_name(e)) },
    }
}

/// Compares what a scenario did with what it expected. Only the coarse
/// outcome decides; the error name appears in the message alone.
pub fn verdict(s: &TestScenario, a: Actual) -> (r: TestResults)
    ensures
        r@ == result_of(*s, a@),
{
    let passed = a.result == s.expected_result;
    let message = if passed {
        String::from_str("PASS")
    } else {
        let mut m = String::from_str("FAIL: expected ");
        m.append(s.expected_result.as_str());
        m.append(", got ");
        m.append(a.result.as_str());
        match &a.errno {
            Some(e) => {
                m.append(" (");
                m.append(e.as_str());
                m.append(")");
            },
            None => {},
        }
        m
    };
    TestResults {
        id: s.id.clone(),
        description: s.description.clone(),
        passed,
        actual_result: a.result,
        actual_errno: a.errno,
        message,
    }
}

/// Runs one scenario end to end; `invoke` performs an `open` call and
/// reports success or the native error number.
pub fn run_scenario<F: Fn(&OpenRequest) -> Result<(), i32>>(s: &TestScenario, invoke: &F) -> (r: TestResults)
    requires
        forall|q: &OpenRequest| invoke.requires((q,)),
    ensures
        ran(*s, *invoke, r@),
        r.id@ == s.id@,
{
    let a = match dispatch(s) {
        Step::Done(a) => a,
        Step::Open(q) => open_outcome(invoke(&q)),
    };
    verdict(s, a)
}

/// Runs every scenario in order, one verdict per scenario.
pub fn run_all<F: Fn(&OpenRequest) -> Result<(), i32>>(scenarios: &Vec<TestScenario>, invoke: &F) -> (r: Vec<TestResults>)
    requires
        forall|q: &OpenRequest| invoke.requires((q,)),
    ensures
        r.len() == scenarios.len(),
        forall|i: int| 0 <= i < r.len() ==> #[trigger] r[i].id@ == scenarios[i].id@,
        forall|i: int| 0 <= i < r.len() ==> ran(scenarios[i], *invoke, #[trigger] r[i]@),
{
    let mut out: Vec<TestResults> = Vec::new();
    let n = scenarios.len();
    let mut i: usize = 0;
    while i < n
        invariant
            n == scenarios.len(),
            i <= n,
            out.len() == i,
            forall|q: &OpenRequest| invoke.requires((q,)),
            forall|j: int| 0 <= j < i ==> #[trigger] out[j].id@ == scenarios[j].id@,
            forall|j: int| 0 <= j < i ==> ran(scenarios[j], *invoke, #[trigger] out[j]@),
        decreases n - i,
    {
        let r = run_scenario(&scenarios[i], invoke);
        out.push(r);
        i += 1;
    }
    out
}

} // verus!
