use std::fmt::Debug;

use expecters::assertion::AssertionBuilder;
use expecters::context::{AssertionContext, AssertionContextBuilder};
use expecters::functions::{ApplyFnOnce, FunctionAssertions, SimpleFunctionAssertions};
use expecters::general::{__annotate, GeneralAssertions};
use expecters::metadata::{Annotated, SourceLoc};

fn here() -> SourceLoc {
    SourceLoc::new("tests/functions.rs", 12, 9, "functions")
}

fn start(subject: &str, steps: &'static [&'static str]) -> AssertionContextBuilder {
    AssertionContext::__new(subject.to_string(), here(), steps)
}

fn debug<T: Debug>(value: T) -> Annotated<T> {
    let debug = format!("{value:?}");
    let pretty = format!("{value:#?}");
    Annotated::from_debug(value, debug, pretty, None)
}

fn source<T>(value: T, text: &str) -> Annotated<T> {
    Annotated::from_stringify(value, text.to_string(), None)
}

#[test]
fn called_without_arguments() {
    let cx = start("|| 42", &["when_called", "to_equal"]);
    let builder = AssertionBuilder::__new(source(|| 42, "|| 42"));
    let builder = __annotate(builder, |f| source(f, "|| 42"));
    let builder = builder.when_called();
    let builder = __annotate(builder, debug);
    let assertion = builder.to_equal(debug(42));
    assert!(AssertionBuilder::__apply(builder, cx, assertion).into_result().is_ok());
}

#[test]
fn called_with_several_arguments() {
    let cx = start("|a, b, c| a + b * c", &["when_called_with", "to_equal"]);
    let builder = AssertionBuilder::__new(source(|a: i32, b: i32, c: i32| a + b * c, "|a, b, c| a + b * c"));
    let builder = __annotate(builder, |f| source(f, "|a, b, c| a + b * c"));
    let builder = builder.when_called_with(debug((1, 2, 3)));
    let builder = __annotate(builder, debug);
    let assertion = builder.to_equal(debug(8));
    let msg = AssertionBuilder::__apply(builder, cx, assertion)
        .into_result()
        .unwrap_err()
        .to_string();
    assert!(msg.contains("args: (1, 2, 3)"));
    assert!(msg.contains("received: 7"));
}

#[test]
fn apply_once_spreads_the_tuple() {
    let f = |a: u8, b: u8| u16::from(a) * 256 + u16::from(b);
    assert_eq!(ApplyFnOnce::apply_once(f, (1, 2)), 258);
    let g = || "none";
    assert_eq!(ApplyFnOnce::apply_once(g, ()), "none");
}

#[test]
fn to_panic_follows_the_call() {
    // The call reports whether the subject panicked; here it stands for a
    // subject that panics on negative input.
    let subject: fn(i32) -> i32 = |x| x;
    let builder = AssertionBuilder::__new(source(subject, "|x| x"));
    let assertion = builder.to_panic_with(debug((-1,)));
    let cx = start("|x| x", &["to_panic_with"]).inner.next();
    let out = assertion.execute_with(cx, subject, |f: fn(i32) -> i32, (x,): (i32,)| f(x) < 0);
    assert!(out.is_pass());

    let builder = AssertionBuilder::__new(source(subject, "|x| x"));
    let assertion = builder.to_panic_with(debug((1,)));
    let cx = start("|x| x", &["to_panic_with"]).inner.next();
    let out = assertion.execute_with(cx, subject, |f: fn(i32) -> i32, (x,): (i32,)| f(x) < 0);
    let msg = out.into_result().unwrap_err().to_string();
    assert!(msg.contains("did not panic"));
    assert!(msg.contains("args: (1,)"));
}
