use std::fmt::{Debug, Display};

use expecters::assertion::AssertionBuilder;
use expecters::context::{AssertionContext, AssertionContextBuilder};
use expecters::functions::FunctionAssertions;
use expecters::general::{__annotate, to_satisfy_all, to_satisfy_any, GeneralAssertions, ToBeOneOf};
use expecters::metadata::{Annotated, SourceLoc};
use expecters::output::{AssertionError, AssertionOutput};

fn here() -> SourceLoc {
    SourceLoc::new("tests/general.rs", 1, 1, "general")
}

fn start(subject: &str, steps: &'static [&'static str]) -> AssertionContextBuilder {
    AssertionContext::__new(subject.to_string(), here(), steps)
}

fn debug<T: Debug>(value: T) -> Annotated<T> {
    let debug = format!("{value:?}");
    let pretty = format!("{value:#?}");
    Annotated::from_debug(value, debug, pretty, None)
}

fn shown<T: Debug + Display>(value: T) -> Annotated<T> {
    let debug = format!("{value:?}");
    let pretty = format!("{value:#?}");
    let display = format!("{value}");
    Annotated::from_debug(value, debug, pretty, Some(display))
}

fn source<T>(value: T, text: &str) -> Annotated<T> {
    Annotated::from_stringify(value, text.to_string(), None)
}

/// `subject` to_equal `expected`, with both values shown by `Debug` only.
fn check_equal<T: Debug + PartialEq<U>, U: Debug>(subject: T, expected: U) -> Result<(), AssertionError> {
    let cx = start(&format!("{subject:?}"), &["to_equal"]);
    let builder = __annotate(AssertionBuilder::__new(debug(subject)), debug);
    let assertion = builder.to_equal(debug(expected));
    AssertionBuilder::__apply(builder, cx, assertion).into_result()
}

/// `subject` to_equal `expected`, with both values also shown by `Display`.
fn check_equal_shown<T: Debug + Display + PartialEq<U>, U: Debug + Display>(
    subject: T,
    expected: U,
) -> Result<(), AssertionError> {
    let cx = start(&format!("{subject:?}"), &["to_equal"]);
    let builder = __annotate(AssertionBuilder::__new(shown(subject)), shown);
    let assertion = builder.to_equal(shown(expected));
    AssertionBuilder::__apply(builder, cx, assertion).into_result()
}

#[test]
fn identity() {
    let cx = start("|x| x", &["when_called_with", "to_equal"]);
    let builder = AssertionBuilder::__new(source(|x: i32| x, "|x| x"));
    let builder = __annotate(builder, |f| source(f, "|x| x"));
    let builder = builder.when_called_with(debug((1,)));
    let builder = __annotate(builder, debug);
    let assertion = builder.to_equal(debug(1));
    let out = AssertionBuilder::__apply(builder, cx, assertion);
    assert!(out.into_result().is_ok());

    let cx = start("|x| x", &["when_called_with", "to_equal"]);
    let f: fn(&'static str) -> &'static str = |x| x;
    let builder = AssertionBuilder::__new(source(f, "|x| x"));
    let builder = __annotate(builder, |f| source(f, "|x| x"));
    let builder = builder.when_called_with(debug(("foo",)));
    let builder = __annotate(builder, debug);
    let assertion = builder.to_equal(debug("foo"));
    let out = AssertionBuilder::__apply(builder, cx, assertion);
    assert!(out.into_result().is_ok());
}

#[test]
fn no_diff() {
    // Don't show diffs for short values
    let err = check_equal_shown(1, 2).unwrap_err();
    assert!(!err.to_string().contains("diff"));
}

#[test]
fn do_diff() {
    // Show diffs for longer values
    let err = check_equal_shown("abc\ndef", "abc\ndeg").unwrap_err();
    assert!(err.to_string().contains("diff"));
}

#[test]
fn to_satisfy_merge_vacuous() {
    let cx = start("1", &["to_satisfy_all"]);
    let builder = __annotate(AssertionBuilder::__new(debug(1)), debug);
    let assertion = to_satisfy_all(source(|_: i32| -> Vec<AssertionOutput> { Vec::new() }, "|_| []"));
    let out = AssertionBuilder::__apply(builder, cx, assertion);
    assert!(out.into_result().is_ok());

    let cx = start("1", &["not", "to_satisfy_any"]);
    let builder = __annotate(AssertionBuilder::__new(debug(1)), debug);
    let builder = builder.not();
    let builder = __annotate(builder, debug);
    let assertion = to_satisfy_any(source(|_: i32| -> Vec<AssertionOutput> { Vec::new() }, "|_| []"));
    let out = AssertionBuilder::__apply(builder, cx, assertion);
    assert!(out.into_result().is_ok());
}

#[test]
fn to_satisfy_with_vacuous() {
    let cx = start("1", &["to_satisfy_with"]);
    let builder = __annotate(AssertionBuilder::__new(debug(1)), debug);
    let assertion = builder.to_satisfy_with(source(|_: i32| Ok(()), "|_| Ok(())"));
    let out = AssertionBuilder::__apply(builder, cx, assertion);
    assert!(out.into_result().is_ok());
}

#[test]
fn inner_failure() {
    let cx = start("1", &["to_satisfy_with"]);
    let builder = __annotate(AssertionBuilder::__new(debug(1)), debug);
    let assertion = builder.to_satisfy_with(source(
        |n: i32| check_equal(n, 2),
        "|n| try_expect!(n, to_equal(2))",
    ));
    let out = AssertionBuilder::__apply(builder, cx, assertion);
    let msg = out.into_result().unwrap_err().to_string();
    assert!(msg.contains("CAUSED BY"));
    assert!(msg.contains("to_equal"));
    assert!(msg.contains("values not equal"));
}

#[test]
fn preserves_context() {
    let cx = start("\"blah\"", &["not", "not", "to_equal"]);
    let builder = __annotate(AssertionBuilder::__new(debug("blah")), debug);
    let builder = builder.not();
    let builder = __annotate(builder, debug);
    let builder = builder.not();
    let builder = __annotate(builder, debug);
    let assertion = builder.to_equal(debug("world"));
    let res = AssertionBuilder::__apply(builder, cx, assertion).into_result();
    let msg = res.unwrap_err().to_string();
    assert!(msg.contains("\"world\""));
}

#[test]
fn report_layout() {
    let err = check_equal(1, 2).unwrap_err();
    assert_eq!(
        err.to_string(),
        "assertion failed:\n  at: tests/general.rs:1:1 [general]\n  subject: 1\n\nsteps:\n  to_equal: values not equal\n    received: 1\n    expected: 2\n\n"
    );
}

#[test]
fn diff_page_layout() {
    let err = check_equal_shown("a\nb", "a\nc").unwrap_err();
    let msg = err.to_string();
    assert!(msg.contains("  to_equal: [1] values not equal\n"));
    assert!(msg.contains("----- diff [1] -----\n  a\n- c\n+ b\n"));
}

#[test]
fn equal_passes() {
    assert!(check_equal(3, 3).is_ok());
    assert!(check_equal_shown("x\ny", "x\ny").is_ok());
}

#[test]
fn single_not_inverts() {
    let cx = start("1", &["not", "to_equal"]);
    let builder = __annotate(AssertionBuilder::__new(debug(1)), debug);
    let builder = builder.not();
    let builder = __annotate(builder, debug);
    let assertion = builder.to_equal(debug(1));
    let msg = AssertionBuilder::__apply(builder, cx, assertion)
        .into_result()
        .unwrap_err()
        .to_string();
    assert!(msg.contains("expected a failure, received a success"));

    let cx = start("1", &["not", "to_equal"]);
    let builder = __annotate(AssertionBuilder::__new(debug(1)), debug);
    let builder = builder.not();
    let builder = __annotate(builder, debug);
    let assertion = builder.to_equal(debug(2));
    assert!(AssertionBuilder::__apply(builder, cx, assertion).into_result().is_ok());
}

#[test]
fn map_then_compare() {
    let cx = start("4", &["map", "to_be_greater_than"]);
    let builder = __annotate(AssertionBuilder::__new(debug(4)), debug);
    let builder = builder.map(source(|n: i32| n * 2, "|n| n * 2"));
    let builder = __annotate(builder, debug);
    let assertion = builder.to_be_greater_than(debug(7));
    assert!(AssertionBuilder::__apply(builder, cx, assertion).into_result().is_ok());

    let cx = start("4", &["map", "to_be_less_than"]);
    let builder = __annotate(AssertionBuilder::__new(debug(4)), debug);
    let builder = builder.map(source(|n: i32| n * 2, "|n| n * 2"));
    let builder = __annotate(builder, debug);
    let assertion = builder.to_be_less_than(debug(8));
    let msg = AssertionBuilder::__apply(builder, cx, assertion)
        .into_result()
        .unwrap_err()
        .to_string();
    assert!(msg.contains("function: |n| n * 2"));
    assert!(msg.contains("received: 8"));
}

#[test]
fn comparisons_at_the_boundary() {
    let cx = start("5", &["to_be_less_than_or_equal_to"]);
    let builder = __annotate(AssertionBuilder::__new(debug(5)), debug);
    let assertion = builder.to_be_less_than_or_equal_to(debug(5));
    assert!(AssertionBuilder::__apply(builder, cx, assertion).into_result().is_ok());

    let cx = start("5", &["to_be_greater_than_or_equal_to"]);
    let builder = __annotate(AssertionBuilder::__new(debug(5)), debug);
    let assertion = builder.to_be_greater_than_or_equal_to(debug(6));
    assert!(AssertionBuilder::__apply(builder, cx, assertion).into_result().is_err());
}

#[test]
fn one_of() {
    let cx = start("2", &["to_be_one_of"]);
    let builder = __annotate(AssertionBuilder::__new(debug(2)), debug);
    let assertion = ToBeOneOf::new(debug(vec![1, 2, 3]));
    assert!(AssertionBuilder::__apply(builder, cx, assertion).into_result().is_ok());

    let cx = start("4", &["to_be_one_of"]);
    let builder = __annotate(AssertionBuilder::__new(debug(4)), debug);
    let assertion = ToBeOneOf::new(debug(vec![1, 2, 3]));
    assert!(AssertionBuilder::__apply(builder, cx, assertion).into_result().is_err());
}

#[test]
fn satisfy_predicate() {
    let cx = start("3", &["to_satisfy"]);
    let builder = __annotate(AssertionBuilder::__new(debug(3)), debug);
    let assertion = builder.to_satisfy(source(|n: i32| n % 2 == 0, "|n| n % 2 == 0"));
    let msg = AssertionBuilder::__apply(builder, cx, assertion)
        .into_result()
        .unwrap_err()
        .to_string();
    assert!(msg.contains("to_satisfy: did not satisfy predicate"));
    assert!(msg.contains("predicate: |n| n % 2 == 0"));
}
