use std::fmt::Debug;

use expecters::assertion::AssertionBuilder;
use expecters::context::{AssertionContext, AssertionContextBuilder};
use expecters::general::{__annotate, GeneralAssertions};
use expecters::iterators::modifiers::fail_invalid_utf8;
use expecters::iterators::{IteratorAssertions, MergeStrategy, MergeableOutput, MergeableResult};
use expecters::metadata::{Annotated, SourceLoc};
use expecters::output::{AssertionError, AssertionOutput};

fn here() -> SourceLoc {
    SourceLoc::new("tests/iterators.rs", 7, 3, "iterators")
}

fn start(subject: &str, steps: &'static [&'static str]) -> AssertionContextBuilder {
    AssertionContext::__new(subject.to_string(), here(), steps)
}

fn debug<T: Debug>(value: T) -> Annotated<T> {
    let debug = format!("{value:?}");
    let pretty = format!("{value:#?}");
    Annotated::from_debug(value, debug, pretty, None)
}

/// Runs `subject`, `all` or `any`, `to_equal(expected)`.
fn each_equal(subject: Vec<i32>, all: bool, expected: i32) -> Result<(), AssertionError> {
    let steps: &'static [&'static str] = if all { &["all", "to_equal"] } else { &["any", "to_equal"] };
    let cx = start(&format!("{subject:?}"), steps);
    let builder = __annotate(AssertionBuilder::__new(debug(subject)), debug);
    let builder = if all { builder.all() } else { builder.any() };
    let builder = __annotate(builder, debug);
    let assertion = builder.to_equal(debug(expected));
    AssertionBuilder::__apply(builder, cx, assertion).into_result()
}

#[test]
fn all_and_any_outcomes() {
    assert!(each_equal(vec![1, 1, 1], true, 1).is_ok());
    assert!(each_equal(vec![1, 2, 1], true, 1).is_err());
    assert!(each_equal(vec![3, 2, 1], false, 1).is_ok());
    assert!(each_equal(vec![3, 2, 4], false, 1).is_err());
    // Vacuous cases
    assert!(each_equal(vec![], true, 1).is_ok());
    assert!(each_equal(vec![], false, 1).is_err());
}

#[test]
fn all_reports_first_failing_index() {
    let msg = each_equal(vec![1, 5, 7], true, 1).unwrap_err().to_string();
    assert!(msg.contains("index: 1"));
    assert!(msg.contains("received: 5"));
    assert!(!msg.contains("received: 7"));
}

#[test]
fn count_then_compare() {
    let cx = start("[4, 5, 6]", &["count", "to_equal"]);
    let builder = __annotate(AssertionBuilder::__new(debug(vec![4, 5, 6])), debug);
    let builder = builder.count();
    let builder = __annotate(builder, debug);
    let assertion = builder.to_equal(debug(3usize));
    assert!(AssertionBuilder::__apply(builder, cx, assertion).into_result().is_ok());

    let cx = start("[4, 5, 6]", &["count", "to_equal"]);
    let builder = __annotate(AssertionBuilder::__new(debug(vec![4, 5, 6])), debug);
    let builder = builder.count();
    let builder = __annotate(builder, debug);
    let assertion = builder.to_equal(debug(2usize));
    let msg = AssertionBuilder::__apply(builder, cx, assertion)
        .into_result()
        .unwrap_err()
        .to_string();
    assert!(msg.contains("received: 3"));
}

fn nth_equal(subject: Vec<&'static str>, index: usize, expected: &'static str) -> Result<(), AssertionError> {
    let cx = start(&format!("{subject:?}"), &["nth", "to_equal"]);
    let builder = __annotate(AssertionBuilder::__new(debug(subject)), debug);
    let builder = builder.nth(debug(index));
    let builder = __annotate(builder, debug);
    let assertion = builder.to_equal(debug(expected));
    AssertionBuilder::__apply(builder, cx, assertion).into_result()
}

#[test]
fn nth_element() {
    assert!(nth_equal(vec!["a", "b", "c"], 1, "b").is_ok());
    assert!(nth_equal(vec!["a", "b", "c"], 0, "b").is_err());
    let msg = nth_equal(vec!["a", "b", "c"], 3, "b").unwrap_err().to_string();
    assert!(msg.contains("index out of bounds"));
    assert!(msg.contains("to_equal: (not visited)"));
}

fn utf8_equal(bytes: Vec<u8>, expected: &str) -> Result<(), AssertionError> {
    let cx = start(&format!("{bytes:?}"), &["as_utf8", "to_equal"]);
    let builder = __annotate(AssertionBuilder::__new(debug(bytes)), debug);
    let builder = builder.as_utf8();
    let builder = __annotate(builder, debug);
    let assertion = builder.to_equal(debug(expected.to_string()));
    AssertionBuilder::__apply(builder, cx, assertion).into_result()
}

#[test]
fn as_utf8_decodes() {
    assert!(utf8_equal(vec![0x68, 0x69], "hi").is_ok());
    assert!(utf8_equal(vec![0xF0, 0xA4, 0xAD, 0xA2], "\u{24B62}").is_ok());
    let msg = utf8_equal(vec![0xF0, 0xA4, 0xAD], "").unwrap_err().to_string();
    assert!(msg.contains("as_utf8: invalid utf8"));
    assert!(msg.contains("error: incomplete utf-8 byte sequence from index 0"));
    let msg = utf8_equal(vec![0x61, 0xFF, 0x62], "").unwrap_err().to_string();
    assert!(msg.contains("error: invalid utf-8 sequence of 1 bytes from index 1"));
}

#[test]
fn invalid_utf8_failure() {
    let cx = start("[255]", &["as_utf8"]).inner.next();
    let out: AssertionOutput = fail_invalid_utf8(cx, "bad byte".to_string());
    let msg = out.into_result().unwrap_err().to_string();
    assert!(msg.contains("  as_utf8: invalid utf8\n    error: bad byte\n"));
}

fn contain_exactly(subject: Vec<i32>, expected: Vec<i32>) -> Result<(), AssertionError> {
    let cx = start(&format!("{subject:?}"), &["to_contain_exactly"]);
    let builder = __annotate(AssertionBuilder::__new(debug(subject)), debug);
    let assertion = builder.to_contain_exactly(debug(expected));
    AssertionBuilder::__apply(builder, cx, assertion).into_result()
}

#[test]
fn contain_exactly_cases() {
    assert!(contain_exactly(vec![1, 2, 3], vec![1, 2, 3]).is_ok());
    assert!(contain_exactly(vec![], vec![]).is_ok());
    let msg = contain_exactly(vec![1, 2, 3], vec![1, 4, 3]).unwrap_err().to_string();
    assert!(msg.contains("values not equal"));
    assert!(msg.contains("index: 1"));
    let msg = contain_exactly(vec![1, 2, 3], vec![1, 2]).unwrap_err().to_string();
    assert!(msg.contains("subject has too many elements"));
    assert!(msg.contains("index: 2"));
    let msg = contain_exactly(vec![1], vec![1, 2]).unwrap_err().to_string();
    assert!(msg.contains("subject has too few elements"));
    assert!(msg.contains("index: 1"));
}

#[test]
fn contain_element() {
    let cx = start("[1, 2, 3]", &["to_contain"]);
    let builder = __annotate(AssertionBuilder::__new(debug(vec![1, 2, 3])), debug);
    let assertion = builder.to_contain(debug(2));
    assert!(AssertionBuilder::__apply(builder, cx, assertion).into_result().is_ok());

    let cx = start("[1, 2, 3]", &["to_contain"]);
    let builder = __annotate(AssertionBuilder::__new(debug(vec![1, 2, 3])), debug);
    let assertion = builder.to_contain(debug(9));
    let msg = AssertionBuilder::__apply(builder, cx, assertion)
        .into_result()
        .unwrap_err()
        .to_string();
    assert!(msg.contains("value not found"));
}

#[test]
fn zip_pairs() {
    let cx = start("[1, 2]", &["zip", "to_equal"]);
    let builder = __annotate(AssertionBuilder::__new(debug(vec![1, 2])), debug);
    let builder = builder.zip(debug(vec!["a", "b", "c"]));
    let builder = __annotate(builder, debug);
    let assertion = builder.to_equal(debug(vec![(1, "a"), (2, "b")]));
    assert!(AssertionBuilder::__apply(builder, cx, assertion).into_result().is_ok());
}

#[test]
fn merge_outputs() {
    let pass = || start("0", &["x"]).inner.next().pass::<AssertionOutput>();
    let fail = |message: &str| {
        let cx = start("0", &["x"]).inner.next();
        cx.fail::<AssertionOutput>(message.to_string())
    };
    let merged = AssertionOutput::merge(start("0", &["x"]).inner.next(), MergeStrategy::All, vec![pass(), fail("first"), fail("second")]);
    assert!(!merged.is_pass());
    let msg = merged.into_result().unwrap_err().to_string();
    assert!(msg.contains("first"));
    assert!(!msg.contains("second"));

    let merged = AssertionOutput::merge(start("0", &["x"]).inner.next(), MergeStrategy::Any, vec![fail("a"), pass()]);
    assert!(merged.is_pass());

    let merged = AssertionOutput::merge(start("0", &["x"]).inner.next(), MergeStrategy::Any, vec![fail("a"), fail("b")]);
    assert!(!merged.is_pass());

    let merged = AssertionOutput::merge(start("0", &["x"]).inner.next(), MergeStrategy::All, Vec::new());
    assert!(merged.is_pass());
    let merged = AssertionOutput::merge(start("0", &["x"]).inner.next(), MergeStrategy::Any, Vec::new());
    assert!(!merged.is_pass());
}

#[test]
fn merge_results() {
    let ok: Result<(), AssertionError> = Ok(());
    let err = || -> Result<(), AssertionError> {
        start("0", &["x"]).inner.next().fail::<Result<(), AssertionError>>("bad".to_string())
    };
    let cx = || start("0", &["x"]).inner.next();
    assert!(<Result<(), AssertionError>>::merge_all(cx(), vec![Ok(()), err()]).is_err());
    assert!(<Result<(), AssertionError>>::merge_any(cx(), vec![err(), ok]).is_ok());
    assert!(<Result<(), AssertionError>>::merge_all(cx(), Vec::new()).is_ok());
    assert!(<Result<(), AssertionError>>::merge_any(cx(), Vec::new()).is_err());
}

/// Runs `subject`, `all` or `any`, then a predicate that counts its calls.
fn counted_predicate(subject: Vec<i32>, all: bool, wanted: i32) -> (bool, usize) {
    let calls = std::cell::Cell::new(0usize);
    let steps: &'static [&'static str] = if all { &["all", "to_satisfy"] } else { &["any", "to_satisfy"] };
    let cx = start(&format!("{subject:?}"), steps);
    let builder = __annotate(AssertionBuilder::__new(debug(subject)), debug);
    let builder = if all { builder.all() } else { builder.any() };
    let builder = __annotate(builder, debug);
    let predicate = |n: i32| {
        calls.set(calls.get() + 1);
        n == wanted
    };
    let assertion = builder.to_satisfy(Annotated::from_stringify(predicate, "|n| n == wanted".to_string(), None));
    let passed = AssertionBuilder::__apply(builder, cx, assertion).is_pass();
    (passed, calls.get())
}

#[test]
fn merging_stops_at_the_deciding_element() {
    assert_eq!(counted_predicate(vec![1, 5, 1, 7], true, 1), (false, 2));
    assert_eq!(counted_predicate(vec![1, 1, 1], true, 1), (true, 3));
    assert_eq!(counted_predicate(vec![3, 1, 2], false, 1), (true, 2));
    assert_eq!(counted_predicate(vec![3, 4], false, 1), (false, 2));
}
