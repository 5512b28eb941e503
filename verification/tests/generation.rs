use pt::PyError;
use pt::TestStatus;
use pt::TestSuite;
use pt::Traceback;

static ID: &str = "UID";

const TWO_TEST_SRC: &str = "def test_fails():
    assert False


def test_passes():
    assert True
";

const STDOUT_SAMPLE: &str = "UID test_passes RUNNING
UID test_passes PASS
UID test_fails RUNNING
Traceback (most recent call last):
  File \"run.py\", line 10, in <module>
    test_fails()
  File \"run.py\", line 2, in test_fails
    assert False
AssertionError
UID test_fails FAIL
";

const SAMPLE_TRACEBACK: &str = "Traceback (most recent call last):
  File \"run.py\", line 10, in <module>
    test_fails()
  File \"run.py\", line 2, in test_fails
    assert False
AssertionError";

#[test]
fn one_test() {
    let src = "def test_passes():
    assert True
";
    let pytests: TestSuite = TestSuite::try_from(src).unwrap();
    assert_eq!(1, pytests.tests.len());
    assert!(pytests.contains_test("test_passes"));
}

#[test]
fn import_and_two_tests() {
    let src = "import pathlib


def test_fails():
    assert False


def test_passes():
    assert True
";
    let pytests: TestSuite = TestSuite::try_from(src).unwrap();
    assert_eq!(2, pytests.tests.len());
    assert!(pytests.contains_test("test_fails"));
    assert!(pytests.contains_test("test_passes"));
}

#[test]
fn discovery_prefix_and_order() {
    let src = "def test_b():
    assert True


def helper():
    return 3


x = 1


def test_a():
    assert True
";
    let suite = TestSuite::try_from(src).unwrap();
    assert_eq!(2, suite.tests.len());
    assert_eq!("test_b", suite.tests[0].name());
    assert_eq!("test_a", suite.tests[1].name());
    assert!(!suite.contains_test("helper"));
}

#[test]
fn duplicate_name_kept_once() {
    let src = "def test_dup():
    assert True


def test_dup():
    assert False
";
    let suite = TestSuite::try_from(src).unwrap();
    assert_eq!(1, suite.tests.len());
    assert_eq!("test_dup", suite.tests[0].name());
    assert!(matches!(suite.tests[0].status, TestStatus::NoRun));
}

#[test]
fn parse_error_is_reported() {
    let src = "def (:
";
    assert!(TestSuite::try_from(src).is_err());
}

#[test]
fn runner_round_trip() {
    let suite = TestSuite::try_from(TWO_TEST_SRC).unwrap();
    let expected = "def test_fails():
    assert False


def test_passes():
    assert True


if __name__ == \"__main__\":
    from traceback import TracebackException
    import sys

    print(\"UID test_fails RUNNING\")
    try:
        test_fails()
    except Exception:
        TracebackException.from_exception(sys.exception(), capture_locals=True).print(file=sys.stdout)
        print(\"UID test_fails FAIL\")
    else:
        print(\"UID test_fails PASS\")

    print(\"UID test_passes RUNNING\")
    try:
        test_passes()
    except Exception:
        TracebackException.from_exception(sys.exception(), capture_locals=True).print(file=sys.stdout)
        print(\"UID test_passes FAIL\")
    else:
        print(\"UID test_passes PASS\")
";
    assert_eq!(expected, suite.runner(ID));
}

#[test]
fn runner_is_deterministic() {
    let suite = TestSuite::try_from(TWO_TEST_SRC).unwrap();
    assert_eq!(suite.runner(ID), suite.runner(ID));
}

#[test]
fn empty_suite_runner() {
    let src = "x = 1
";
    let suite = TestSuite::try_from(src).unwrap();
    assert_eq!(0, suite.tests.len());
    let expected = "x = 1


if __name__ == \"__main__\":
    from traceback import TracebackException
    import sys
";
    assert_eq!(expected, suite.runner(ID));
}

#[test]
fn parse_status() {
    let mut suite = TestSuite::try_from(TWO_TEST_SRC).unwrap();
    suite.update_status(ID, STDOUT_SAMPLE);
    assert!(matches!(
        suite.get_test("test_passes").unwrap().status,
        TestStatus::Pass
    ));
    let expect_tb: Traceback = Traceback::new(SAMPLE_TRACEBACK.to_string());
    let tf_status = &suite.get_test("test_fails").unwrap().status;
    assert!(
        matches!(tf_status, TestStatus::Fail(err, tb)
            if matches!(err, PyError::AssertionError)
            && tb == &expect_tb
        ),
        "{tf_status:?}"
    );
}

#[test]
fn failure_report_by_status() {
    let mut suite = TestSuite::try_from(TWO_TEST_SRC).unwrap();
    assert!(suite.get_test("test_fails").unwrap().failure_report().is_none());
    suite.update_status(ID, STDOUT_SAMPLE);
    let report = suite.get_test("test_fails").unwrap().failure_report().unwrap();
    assert_eq!("failed", report);
    assert!(suite.get_test("test_passes").unwrap().failure_report().is_none());
}

#[test]
fn update_status_twice_is_idempotent() {
    let mut once = TestSuite::try_from(TWO_TEST_SRC).unwrap();
    once.update_status(ID, STDOUT_SAMPLE);
    let mut twice = TestSuite::try_from(TWO_TEST_SRC).unwrap();
    twice.update_status(ID, STDOUT_SAMPLE);
    twice.update_status(ID, STDOUT_SAMPLE);
    assert_eq!(once, twice);
}

#[test]
fn unknown_test_marker_is_ignored() {
    let mut suite = TestSuite::try_from(TWO_TEST_SRC).unwrap();
    suite.update_status(ID, "UID test_ghost PASS\n");
    assert!(matches!(
        suite.get_test("test_fails").unwrap().status,
        TestStatus::NoRun
    ));
    assert!(matches!(
        suite.get_test("test_passes").unwrap().status,
        TestStatus::NoRun
    ));
}

#[test]
fn unrecognized_marker_action_is_ignored() {
    let mut suite = TestSuite::try_from(TWO_TEST_SRC).unwrap();
    suite.update_status(ID, "UID test_passes EXPLODED\nUID test_fails\n");
    assert!(matches!(
        suite.get_test("test_passes").unwrap().status,
        TestStatus::NoRun
    ));
    assert!(matches!(
        suite.get_test("test_fails").unwrap().status,
        TestStatus::NoRun
    ));
}

#[test]
fn classify_reads_the_final_line() {
    assert_eq!(
        PyError::AssertionError,
        PyError::classify(SAMPLE_TRACEBACK)
    );
    assert_eq!(
        PyError::Other,
        PyError::classify("Traceback (most recent call last):\nValueError: boom")
    );
    assert_eq!(PyError::Other, PyError::classify(""));
}

#[test]
fn traceback_buffer_restarts_on_traceback_line() {
    let mut suite = TestSuite::try_from(TWO_TEST_SRC).unwrap();
    let stdout = "noise before
Traceback (most recent call last):
  boom
ValueError: nope
Traceback (most recent call last):
  assert False
AssertionError
UID test_fails FAIL
";
    suite.update_status(ID, stdout);
    let status = &suite.get_test("test_fails").unwrap().status;
    match status {
        TestStatus::Fail(err, tb) => {
            assert!(matches!(err, PyError::AssertionError));
            assert_eq!(
                "Traceback (most recent call last):\n  assert False\nAssertionError",
                tb.text()
            );
        }
        other => panic!("unexpected status {other:?}"),
    }
}

#[test]
fn push_python_line_indents_and_joins() {
    let mut text = String::new();
    pt::push_python_line(&mut text, 2, &["print(", "x", ")"]);
    assert_eq!("        print(x)\n", text);
    pt::push_python_line(&mut text, 0, &[]);
    assert_eq!("        print(x)\n\n", text);
}

#[test]
fn split_lines_matches_line_conventions() {
    assert_eq!(
        vec!["a".to_string(), "b".to_string()],
        pt::text::split_lines("a\nb\n")
    );
    assert_eq!(
        vec!["a".to_string(), "".to_string(), "b".to_string()],
        pt::text::split_lines("a\r\n\nb")
    );
    assert!(pt::text::split_lines("").is_empty());
}

#[test]
fn split_tokens_on_ascii_whitespace() {
    assert_eq!(
        vec!["UID".to_string(), "test_x".to_string(), "PASS".to_string()],
        pt::text::split_tokens("  UID\ttest_x   PASS ")
    );
    assert!(pt::text::split_tokens("   ").is_empty());
}

#[test]
fn source_is_kept_verbatim() {
    let suite = TestSuite::try_from(TWO_TEST_SRC).unwrap();
    assert_eq!(TWO_TEST_SRC, suite.source());
}
