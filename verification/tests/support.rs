use std::fmt::Debug;

use expecters::context::AssertionContext;
use expecters::diff::fmt_diff;
use expecters::futures::{
    absorb_read, decide_completion, fail_read, finish_completion, finish_read, read_step,
    ReadAction,
    CompletionDecision, CompletionOrder,
};
use expecters::general::comparisons;
use expecters::general::functions as general_functions;
use expecters::general::{Direction, GeneralAssertions};
use expecters::assertion::AssertionBuilder;
use expecters::iterators::functions as iterator_functions;
use expecters::metadata::{Annotated, AnnotatedKind, SourceLoc};
use expecters::output::{AssertionError, AssertionOutput};
use expecters::text::{contains_char, join_with_newlines, push_decimal, split_lines};
use expecters::vecs::{reversed, zipped};

fn here() -> SourceLoc {
    SourceLoc::new("tests/support.rs", 30, 4, "support")
}

fn debug<T: Debug>(value: T) -> Annotated<T> {
    let debug = format!("{value:?}");
    let pretty = format!("{value:#?}");
    Annotated::from_debug(value, debug, pretty, None)
}

fn frame(steps: &'static [&'static str]) -> AssertionContext {
    AssertionContext::__new("subject".to_string(), here(), steps).inner.next()
}

#[test]
fn decimal_text() {
    let mut s = String::from("n=");
    push_decimal(&mut s, 0);
    assert_eq!(s, "n=0");
    let mut s = String::new();
    push_decimal(&mut s, 40213);
    assert_eq!(s, "40213");
    let mut s = String::new();
    push_decimal(&mut s, usize::MAX);
    assert_eq!(s, usize::MAX.to_string());
}

#[test]
fn lines_split_and_join() {
    assert_eq!(split_lines("a\nb\n\nc"), vec!["a", "b", "", "c"]);
    assert_eq!(split_lines(""), vec![""]);
    assert_eq!(split_lines("x\n"), vec!["x", ""]);
    let parts = split_lines("one\ntwo");
    assert_eq!(join_with_newlines(&parts), "one\ntwo");
    assert!(contains_char("ab\ncd", '\n'));
    assert!(!contains_char("abcd", '\n'));
}

#[test]
fn diff_of_texts() {
    assert_eq!(fmt_diff("same\ntext", "same\ntext"), None);
    assert_eq!(fmt_diff("a\nb\nc", "a\nx\nc"), Some("  a\n- b\n+ x\n  c".to_string()));
    assert_eq!(fmt_diff("a", "a\nextra"), Some("  a\n+ extra".to_string()));
    assert_eq!(fmt_diff("a\nmissing", "a"), Some("  a\n- missing".to_string()));
}

#[test]
fn source_location_text() {
    assert_eq!(SourceLoc::new("src/lib.rs", 8, 5, "readme_example").render(), "src/lib.rs:8:5 [readme_example]");
    let cx = frame(&["x"]);
    assert_eq!(cx.source_location().render(), "tests/support.rs:30:4 [support]");
}

#[test]
fn annotated_values() {
    let a = Annotated::from_debug(5, "5".to_string(), "5".to_string(), Some("five".to_string()));
    assert_eq!(a.kind(), AnnotatedKind::Debug);
    assert_eq!(a.as_str(), "5");
    assert_eq!(a.as_debug(), Some("5"));
    assert_eq!(a.as_display(), Some("five"));
    assert_eq!(*a.inner(), 5);
    assert_eq!(a.into_inner(), 5);

    let b = Annotated::from_stringify(|| 1, "|| 1".to_string(), None);
    assert_eq!(b.kind(), AnnotatedKind::Stringify);
    assert_eq!(b.as_str(), "|| 1");
    assert_eq!(b.as_debug(), None);
    assert_eq!(b.as_pretty_debug(), None);
}

#[test]
fn vectors() {
    assert_eq!(reversed(vec![1, 2, 3]), vec![3, 2, 1]);
    assert_eq!(reversed(Vec::<u8>::new()), Vec::<u8>::new());
    assert_eq!(zipped(vec![1, 2, 3], vec!['a', 'b']), vec![(1, 'a'), (2, 'b')]);
}

#[test]
fn direction_of_orderings() {
    assert_eq!(Direction::from_ordering(std::cmp::Ordering::Less), Direction::Less);
    assert_eq!(Direction::from_ordering(std::cmp::Ordering::Equal), Direction::Equal);
    assert_eq!(Direction::from_ordering(std::cmp::Ordering::Greater), Direction::Greater);
}

const BEFORE: CompletionOrder = CompletionOrder::Before;
const AFTER: CompletionOrder = CompletionOrder::After;

#[test]
fn completion_decisions() {
    assert!(matches!(decide_completion::<u8>(BEFORE, false, None), CompletionDecision::Pending));
    assert!(matches!(decide_completion(BEFORE, false, Some(1)), CompletionDecision::Execute(1)));
    assert!(matches!(decide_completion(BEFORE, true, Some(1)), CompletionDecision::Execute(1)));
    assert!(matches!(
        decide_completion::<u8>(BEFORE, true, None),
        CompletionDecision::Fail("did not complete before")
    ));
    assert!(matches!(decide_completion(AFTER, true, Some(2)), CompletionDecision::Execute(2)));
    assert!(matches!(decide_completion::<u8>(AFTER, true, None), CompletionDecision::Pending));
    assert!(matches!(decide_completion(AFTER, false, Some(2)), CompletionDecision::Fail("completed before")));
}

#[test]
fn completion_finish() {
    let builder = AssertionBuilder::__new(debug(3));
    let out: AssertionOutput = finish_completion(frame(&["x"]), builder.to_equal(debug(3)), Ok(3));
    assert!(out.is_pass());
    let builder = AssertionBuilder::__new(debug(3));
    let out: AssertionOutput =
        finish_completion(frame(&["x"]), builder.to_equal(debug(3)), Err::<i32, &str>("completed before"));
    let msg = out.into_result().unwrap_err().to_string();
    assert!(msg.contains("x: completed before"));
}

#[test]
fn reading_subjects() {
    let mut result = vec![7u8];
    assert!(absorb_read(&mut result, &[1, 2, 3], 3));
    assert_eq!(result, vec![7, 1, 2, 3]);
    assert!(!absorb_read(&mut result, &[4, 5, 6], 2));
    assert_eq!(result, vec![7, 1, 2, 3, 4, 5]);
    assert!(!absorb_read(&mut result, &[9, 9], 0));
    assert_eq!(result, vec![7, 1, 2, 3, 4, 5]);

    let builder = AssertionBuilder::__new(debug(vec![1u8, 2]));
    let out: AssertionOutput = finish_read(frame(&["x"]), builder.to_equal(debug(vec![1u8, 2])), vec![1, 2]);
    assert!(out.is_pass());

    let builder = AssertionBuilder::__new(debug(vec![1u8, 2]));
    let out: AssertionOutput = finish_read(frame(&["x"]), builder.to_equal(debug(vec![9u8])), vec![1, 2]);
    let msg = out.into_result().unwrap_err().to_string();
    assert!(msg.contains("read bytes: 2"));

    let out: AssertionOutput = fail_read(frame(&["x"]), "broken pipe".to_string());
    let msg = out.into_result().unwrap_err().to_string();
    assert!(msg.contains("x: failed to read"));
    assert!(msg.contains("error: broken pipe"));
}

#[test]
fn comparison_functions() {
    let r = comparisons::to_equal::<i32, i32>(debug(4))(frame(&["to_equal"]), 4);
    assert!(r.is_ok());
    let r = comparisons::to_equal::<i32, i32>(debug(4))(frame(&["to_equal"]), 5);
    assert!(r.unwrap_err().to_string().contains("subject is not equal to value"));
    assert!(comparisons::to_be_less_than::<i32, i32>(debug(4))(frame(&["x"]), 3).is_ok());
    assert!(comparisons::to_be_less_than::<i32, i32>(debug(4))(frame(&["x"]), 4).is_err());
    assert!(comparisons::to_be_less_than_or_equal_to::<i32, i32>(debug(4))(frame(&["x"]), 4).is_ok());
    assert!(comparisons::to_be_greater_than::<i32, i32>(debug(4))(frame(&["x"]), 4).is_err());
    assert!(comparisons::to_be_greater_than_or_equal_to::<i32, i32>(debug(4))(frame(&["x"]), 4).is_ok());
}

#[test]
fn function_style_chains() {
    // not(to_equal(1)) on 2 succeeds; on 1 it fails
    let r: Result<(), AssertionError> = general_functions::not(frame(&["not", "to_equal"]), 2, |cx, s| {
        comparisons::to_equal::<i32, i32>(debug(1))(cx.next(), s)
    });
    assert!(r.is_ok());
    let r: Result<(), AssertionError> = general_functions::not(frame(&["not", "to_equal"]), 1, |cx, s| {
        comparisons::to_equal::<i32, i32>(debug(1))(cx.next(), s)
    });
    assert!(r.is_err());

    let r = iterator_functions::all(frame(&["all", "to_equal"]), vec![1, 1], |cx, s: i32| {
        comparisons::to_equal::<i32, i32>(debug(1))(cx, s)
    });
    assert!(r.is_ok());
    let r = iterator_functions::any(frame(&["any", "to_equal"]), vec![2, 3], |cx, s: i32| {
        comparisons::to_equal::<i32, i32>(debug(1))(cx, s)
    });
    assert!(r.is_err());
    let r = iterator_functions::count(frame(&["count", "to_equal"]), vec![7, 8, 9], |cx, n: usize| {
        comparisons::to_equal::<usize, usize>(debug(3))(cx, n)
    });
    assert!(r.is_ok());
    let r = iterator_functions::nth(debug(5), frame(&["nth", "to_equal"]), vec![1, 2], |cx, s: i32| {
        comparisons::to_equal::<i32, i32>(debug(1))(cx, s)
    });
    assert!(r.unwrap_err().to_string().contains("index out of bounds"));
}

#[test]
fn context_steps() {
    let cx = AssertionContext::__new("s".to_string(), here(), &["first", "second", "third"]).inner;
    assert!(cx.visited.is_empty());
    let cx = cx.next();
    assert_eq!(cx.visited.len(), 1);
    assert_eq!(cx.remaining, vec!["second", "third"]);
    let mut cx = cx.next();
    cx.annotate("note", "kept".to_string());
    let msg = cx.fail::<AssertionOutput>("stopped".to_string()).into_result().unwrap_err().to_string();
    assert_eq!(
        msg,
        "assertion failed:\n  at: tests/support.rs:30:4 [support]\n  subject: s\n\nsteps:\n  first:\n\n  second: stopped\n    note: kept\n\n  third: (not visited)\n\n"
    );
}

#[test]
fn recovered_frames_are_reported() {
    let outer = AssertionContext::__new("s".to_string(), here(), &["not", "inner"]).inner.next();
    let mut deeper = outer.clone().next();
    deeper.annotate("seen", "yes".to_string());
    let mut cx = outer;
    cx.recover(deeper);
    assert_eq!(cx.recovered.len(), 1);
    let msg = cx.fail::<AssertionOutput>("failed".to_string()).into_result().unwrap_err().to_string();
    assert!(msg.contains("  not: failed\n\n  inner:\n    seen: yes\n\n"));
    assert!(!msg.contains("(not visited)"));
}

#[test]
fn function_style_merging_stops_early() {
    let calls = std::cell::Cell::new(0usize);
    let r = iterator_functions::all(frame(&["all", "to_equal"]), vec![1, 2, 1, 1], |cx, s: i32| {
        calls.set(calls.get() + 1);
        comparisons::to_equal::<i32, i32>(debug(1))(cx, s)
    });
    assert!(r.unwrap_err().to_string().contains("index: 1"));
    assert_eq!(calls.get(), 2);

    calls.set(0);
    let r = iterator_functions::any(frame(&["any", "to_equal"]), vec![5, 1, 1], |cx, s: i32| {
        calls.set(calls.get() + 1);
        comparisons::to_equal::<i32, i32>(debug(1))(cx, s)
    });
    assert!(r.is_ok());
    assert_eq!(calls.get(), 2);
}

#[test]
fn read_steps() {
    let mut result = vec![1u8];
    assert!(matches!(read_step(&mut result, &[2, 3, 4], Ok(3)), ReadAction::Continue { grow: true }));
    assert_eq!(result, vec![1, 2, 3, 4]);
    assert!(matches!(read_step(&mut result, &[5, 6, 7], Ok(1)), ReadAction::Continue { grow: false }));
    assert_eq!(result, vec![1, 2, 3, 4, 5]);
    assert!(matches!(read_step(&mut result, &[5, 6, 7], Ok(0)), ReadAction::Finish));
    match read_step(&mut result, &[5], Err("broken".to_string())) {
        ReadAction::Fail(e) => assert_eq!(e, "broken"),
        _ => panic!("expected a failure"),
    }
    assert_eq!(result, vec![1, 2, 3, 4, 5]);
}
