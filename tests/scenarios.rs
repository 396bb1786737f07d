use delph_core::params::{OpenRequest, ParamValue, Params};
use delph_core::scenario::{
    dispatch, open_outcome, run_all, run_scenario, target_of, test_type_of, verdict, Actual,
    Outcome, Step, Target, TestResults, TestScenario, TestType,
};

fn scenario(
    id: &str,
    expected: Outcome,
    test_type: &str,
    target: &str,
    params: Vec<(&str, ParamValue)>,
) -> TestScenario {
    TestScenario {
        id: id.to_string(),
        description: format!("scenario {}", id),
        expected_result: expected,
        expected_errno: None,
        test_type: test_type.to_string(),
        target: target.to_string(),
        params: Params {
            entries: params.into_iter().map(|(k, v)| (k.to_string(), v)).collect(),
        },
    }
}

fn path(p: &str) -> (&'static str, ParamValue) {
    ("path", ParamValue::Text(p.to_string()))
}

fn flags(f: &str) -> (&'static str, ParamValue) {
    ("flags", ParamValue::Text(f.to_string()))
}

fn opens(_: &OpenRequest) -> Result<(), i32> {
    Ok(())
}

fn no_such_file(_: &OpenRequest) -> Result<(), i32> {
    Err(libc::ENOENT)
}

fn never_called(_: &OpenRequest) -> Result<(), i32> {
    panic!("no system call expected")
}

#[test]
fn tags_select_dispatch_arms() {
    assert_eq!(test_type_of("syscall"), TestType::Syscall);
    assert_eq!(test_type_of("filesystem"), TestType::Unsupported);
    assert_eq!(test_type_of("Syscall"), TestType::Unsupported);
    assert_eq!(target_of("open"), Target::Open);
    assert_eq!(target_of("read"), Target::Unsupported);
    assert_eq!(target_of(""), Target::Unsupported);
}

#[test]
fn readable_file_passes() {
    let s = scenario("t1", Outcome::Success, "syscall", "open", vec![path("/etc/passwd")]);
    let r = run_scenario(&s, &opens);
    assert!(r.passed);
    assert_eq!(r.actual_result, Outcome::Success);
    assert_eq!(r.actual_errno, None);
    assert_eq!(r.message, "PASS");
    assert_eq!(r.id, "t1");
    assert_eq!(r.description, "scenario t1");
}

#[test]
fn missing_file_reports_enoent() {
    let s = scenario("t2", Outcome::Error, "syscall", "open", vec![path("/no/such/file")]);
    let seen = std::cell::RefCell::new(Vec::new());
    let invoke = |q: &OpenRequest| {
        seen.borrow_mut().push(q.clone());
        Err(libc::ENOENT)
    };
    let r = run_scenario(&s, &invoke);
    assert_eq!(r.actual_result, Outcome::Error);
    assert_eq!(r.actual_errno, Some("ENOENT".to_string()));
    assert!(r.passed);
    assert_eq!(r.message, "PASS");
    let calls = seen.borrow();
    assert_eq!(calls.len(), 1);
    assert_eq!(calls[0].path, "/no/such/file");
    assert_eq!(calls[0].flags, libc::O_RDONLY);
    assert_eq!(calls[0].mode, None);
}

#[test]
fn missing_path_fails_expected_success() {
    let s = scenario("t3", Outcome::Success, "syscall", "open", vec![flags("O_RDONLY")]);
    let r = run_scenario(&s, &never_called);
    assert_eq!(r.actual_result, Outcome::Error);
    assert_eq!(r.actual_errno, Some("MISSING_PATH_PARAM".to_string()));
    assert!(!r.passed);
    assert_eq!(r.message, "FAIL: expected success, got error (MISSING_PATH_PARAM)");
}

#[test]
fn nul_in_path_reports_invalid_path() {
    let s = scenario("t4", Outcome::Error, "syscall", "open", vec![path("a\0b")]);
    let r = run_scenario(&s, &never_called);
    assert_eq!(r.actual_errno, Some("INVALID_PATH".to_string()));
    assert!(r.passed);
}

#[test]
fn create_requests_default_mode() {
    let s = scenario(
        "t5",
        Outcome::Success,
        "syscall",
        "open",
        vec![path("/tmp/fresh"), flags("O_WRONLY|O_CREAT")],
    );
    match dispatch(&s) {
        Step::Open(q) => {
            assert_eq!(q.path, "/tmp/fresh");
            assert_eq!(q.flags, libc::O_WRONLY | libc::O_CREAT);
            assert_eq!(q.mode, Some(0o644));
        },
        Step::Done(_) => panic!("expected an open call"),
    }
    let r = run_scenario(&s, &opens);
    assert!(r.passed);
}

#[test]
fn unsupported_test_type_ignores_target() {
    for target in ["open", "read", ""] {
        let s = scenario("t6", Outcome::Success, "filesystem", target, vec![path("/etc/passwd")]);
        let r = run_scenario(&s, &never_called);
        assert_eq!(r.actual_result, Outcome::Error);
        assert_eq!(r.actual_errno, Some("UNSUPPORTED_TEST_TYPE".to_string()));
        assert_eq!(r.message, "FAIL: expected success, got error (UNSUPPORTED_TEST_TYPE)");
    }
}

#[test]
fn unsupported_target_is_reported() {
    let s = scenario("t7", Outcome::Error, "syscall", "mkdir", vec![path("/tmp/d")]);
    let r = run_scenario(&s, &never_called);
    assert_eq!(r.actual_errno, Some("UNSUPPORTED_SYSCALL".to_string()));
    assert!(r.passed);
}

#[test]
fn unexpected_success_message_has_no_errno() {
    let s = scenario("t8", Outcome::Error, "syscall", "open", vec![path("/etc/passwd")]);
    let r = run_scenario(&s, &opens);
    assert!(!r.passed);
    assert_eq!(r.actual_errno, None);
    assert_eq!(r.message, "FAIL: expected error, got success");
}

#[test]
fn errno_does_not_decide_the_verdict() {
    let mut s = scenario("t9", Outcome::Error, "syscall", "open", vec![path("/root/x")]);
    s.expected_errno = Some("EACCES".to_string());
    let r = run_scenario(&s, &no_such_file);
    assert!(r.passed);
    assert_eq!(r.actual_errno, Some("ENOENT".to_string()));
}

#[test]
fn unknown_errno_is_named_unknown() {
    let a = open_outcome(Err(libc::EEXIST));
    assert_eq!(a.result, Outcome::Error);
    assert_eq!(a.errno, Some("UNKNOWN".to_string()));
    let ok = open_outcome(Ok(()));
    assert_eq!(ok, Actual { result: Outcome::Success, errno: None });
}

#[test]
fn verdict_builds_message() {
    let s = scenario("v", Outcome::Success, "syscall", "open", vec![]);
    let a = Actual { result: Outcome::Error, errno: Some("EACCES".to_string()) };
    let r = verdict(&s, a);
    assert_eq!(r.message, "FAIL: expected success, got error (EACCES)");
    assert!(!r.passed);
}

#[test]
fn batch_keeps_order_and_ids() {
    let scenarios = vec![
        scenario("a", Outcome::Success, "syscall", "open", vec![path("/etc/passwd")]),
        scenario("b", Outcome::Error, "filesystem", "open", vec![]),
        scenario("c", Outcome::Error, "syscall", "open", vec![path("/missing")]),
        scenario("d", Outcome::Success, "syscall", "open", vec![]),
    ];
    let invoke = |q: &OpenRequest| {
        if q.path == "/missing" {
            Err(libc::ENOENT)
        } else {
            Ok(())
        }
    };
    let results = run_all(&scenarios, &invoke);
    assert_eq!(results.len(), scenarios.len());
    let ids: Vec<&str> = results.iter().map(|r| r.id.as_str()).collect();
    assert_eq!(ids, vec!["a", "b", "c", "d"]);
    let passed: Vec<bool> = results.iter().map(|r| r.passed).collect();
    assert_eq!(passed, vec![true, true, true, false]);
}

#[test]
fn empty_batch_gives_no_results() {
    let results = run_all(&Vec::new(), &never_called);
    assert!(results.is_empty());
}

#[test]
fn rerun_gives_identical_results() {
    let scenarios = vec![
        scenario("x", Outcome::Success, "syscall", "open", vec![path("/nope")]),
        scenario("y", Outcome::Success, "filesystem", "open", vec![]),
    ];
    let first: Vec<TestResults> = run_all(&scenarios, &no_such_file);
    let second: Vec<TestResults> = run_all(&scenarios, &no_such_file);
    assert_eq!(first, second);
}
