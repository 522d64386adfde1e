//! Functions that can have their arguments applied to them.
use vstd::prelude::*;

use crate::functions::private::Sealed;

verus! {

/// A function which can have a tuple of arguments applied to it.
pub trait ApplyFnOnce<I>: Sealed<I> + Sized {
    /// The output from this function.
    type Output;

    /// Whether the function can be called with `args`.
    spec fn can_apply(&self, args: I) -> bool;

    /// Whether `out` is a possible output of calling the function with
    /// `args`.
    spec fn applied(&self, args: I, out: Self::Output) -> bool;

    /// Whether the argument list is empty.
    spec fn no_args() -> bool;

    /// Whether the argument list is empty.
    fn empty_args() -> (r: bool)
        ensures
            r == Self::no_args(),
    ;

    /// Applies the arguments to the function and calls it.
    fn apply_once(self, args: I) -> (out: Self::Output)
        requires
            self.can_apply(args),
        ensures
            self.applied(args, out),
    ;
}

impl<F: FnOnce() -> O, O> ApplyFnOnce<()> for F {
    type Output = O;

    open spec fn can_apply(&self, args: ()) -> bool {
        call_requires(*self, ())
    }

    open spec fn applied(&self, args: (), out: O) -> bool {
        call_ensures(*self, (), out)
    }

    open spec fn no_args() -> bool {
        true
    }

    fn empty_args() -> (r: bool) {
        true
    }

    fn apply_once(self, args: ()) -> (out: O) {
        self()
    }
}

impl<F: FnOnce(T0) -> O, O, T0> ApplyFnOnce<(T0,)> for F {
    type Output = O;

    open spec fn can_apply(&self, args: (T0,)) -> bool {
        call_requires(*self, (args.0,))
    }

    open spec fn applied(&self, args: (T0,), out: O) -> bool {
        call_ensures(*self, (args.0,), out)
    }

    open spec fn no_args() -> bool {
        false
    }

    fn empty_args() -> (r: bool) {
        false
    }

    fn apply_once(self, args: (T0,)) -> (out: O) {
        self(args.0)
    }
}

impl<F: FnOnce(T0, T1) -> O, O, T0, T1> ApplyFnOnce<(T0, T1)> for F {
    type Output = O;

    open spec fn can_apply(&self, args: (T0, T1)) -> bool {
        call_requires(*self, (args.0, args.1))
    }

    open spec fn applied(&self, args: (T0, T1), out: O) -> bool {
        call_ensures(*self, (args.0, args.1), out)
    }

    open spec fn no_args() -> bool {
        false
    }

    fn empty_args() -> (r: bool) {
        false
    }

    fn apply_once(self, args: (T0, T1)) -> (out: O) {
        self(args.0, args.1)
    }
}

impl<F: FnOnce(T0, T1, T2) -> O, O, T0, T1, T2> ApplyFnOnce<(T0, T1, T2)> for F {
    type Output = O;

    open spec fn can_apply(&self, args: (T0, T1, T2)) -> bool {
        call_requires(*self, (args.0, args.1, args.2))
    }

    open spec fn applied(&self, args: (T0, T1, T2), out: O) -> bool {
        call_ensures(*self, (args.0, args.1, args.2), out)
    }

    open spec fn no_args() -> bool {
        false
    }

    fn empty_args() -> (r: bool) {
        false
    }

    fn apply_once(self, args: (T0, T1, T2)) -> (out: O) {
        self(args.0, args.1, args.2)
    }
}

impl<F: FnOnce(T0, T1, T2, T3) -> O, O, T0, T1, T2, T3> ApplyFnOnce<(T0, T1, T2, T3)> for F {
    type Output = O;

    open spec fn can_apply(&self, args: (T0, T1, T2, T3)) -> bool {
        call_requires(*self, (args.0, args.1, args.2, args.3))
    }

    open spec fn applied(&self, args: (T0, T1, T2, T3), out: O) -> bool {
        call_ensures(*self, (args.0, args.1, args.2, args.3), out)
    }

    open spec fn no_args() -> bool {
        false
    }

    fn empty_args() -> (r: bool) {
        false
    }

    fn apply_once(self, args: (T0, T1, T2, T3)) -> (out: O) {
        self(args.0, args.1, args.2, args.3)
    }
}

impl<F: FnOnce(T0, T1, T2, T3, T4) -> O, O, T0, T1, T2, T3, T4> ApplyFnOnce<(T0, T1, T2, T3, T4)> for F {
    type Output = O;

    open spec fn can_apply(&self, args: (T0, T1, T2, T3, T4)) -> bool {
        call_requires(*self, (args.0, args.1, args.2, args.3, args.4))
    }

    open spec fn applied(&self, args: (T0, T1, T2, T3, T4), out: O) -> bool {
        call_ensures(*self, (args.0, args.1, args.2, args.3, args.4), out)
    }

    open spec fn no_args() -> bool {
        false
    }

    fn empty_args() -> (r: bool) {
        false
    }

    fn apply_once(self, args: (T0, T1, T2, T3, T4)) -> (out: O) {
        self(args.0, args.1, args.2, args.3, args.4)
    }
}

impl<F: FnOnce(T0, T1, T2, T3, T4, T5) -> O, O, T0, T1, T2, T3, T4, T5> ApplyFnOnce<(T0, T1, T2, T3, T4, T5)> for F {
    type Output = O;

    open spec fn can_apply(&self, args: (T0, T1, T2, T3, T4, T5)) -> bool {
        call_requires(*self, (args.0, args.1, args.2, args.3, args.4, args.5))
    }

    open spec fn applied(&self, args: (T0, T1, T2, T3, T4, T5), out: O) -> bool {
        call_ensures(*self, (args.0, args.1, args.2, args.3, args.4, args.5), out)
    }

    open spec fn no_args() -> bool {
        false
    }

    fn empty_args() -> (r: bool) {
        false
    }

    fn apply_once(self, args: (T0, T1, T2, T3, T4, T5)) -> (out: O) {
        self(args.0, args.1, args.2, args.3, args.4, args.5)
    }
}

impl<F: FnOnce(T0, T1, T2, T3, T4, T5, T6) -> O, O, T0, T1, T2, T3, T4, T5, T6> ApplyFnOnce<(T0, T1, T2, T3, T4, T5, T6)> for F {
    type Output = O;

    open spec fn can_apply(&self, args: (T0, T1, T2, T3, T4, T5, T6)) -> bool {
        call_requires(*self, (args.0, args.1, args.2, args.3, args.4, args.5, args.6))
    }

    open spec fn applied(&self, args: (T0, T1, T2, T3, T4, T5, T6), out: O) -> bool {
        call_ensures(*self, (args.0, args.1, args.2, args.3, args.4, args.5, args.6), out)
    }

    open spec fn no_args() -> bool {
        false
    }

    fn empty_args() -> (r: bool) {
        false
    }

    fn apply_once(self, args: (T0, T1, T2, T3, T4, T5, T6)) -> (out: O) {
        self(args.0, args.1, args.2, args.3, args.4, args.5, args.6)
    }
}

impl<F: FnOnce(T0, T1, T2, T3, T4, T5, T6, T7) -> O, O, T0, T1, T2, T3, T4, T5, T6, T7> ApplyFnOnce<(T0, T1, T2, T3, T4, T5, T6, T7)> for F {
    type Output = O;

    open spec fn can_apply(&self, args: (T0, T1, T2, T3, T4, T5, T6, T7)) -> bool {
        call_requires(*self, (args.0, args.1, args.2, args.3, args.4, args.5, args.6, args.7))
    }

    open spec fn applied(&self, args: (T0, T1, T2, T3, T4, T5, T6, T7), out: O) -> bool {
        call_ensures(*self, (args.0, args.1, args.2, args.3, args.4, args.5, args.6, args.7), out)
    }

    open spec fn no_args() -> bool {
        false
    }

    fn empty_args() -> (r: bool) {
        false
    }

    fn apply_once(self, args: (T0, T1, T2, T3, T4, T5, T6, T7)) -> (out: O) {
        self(args.0, args.1, args.2, args.3, args.4, args.5, args.6, args.7)
    }
}

impl<F: FnOnce(T0, T1, T2, T3, T4, T5, T6, T7, T8) -> O, O, T0, T1, T2, T3, T4, T5, T6, T7, T8> ApplyFnOnce<(T0, T1, T2, T3, T4, T5, T6, T7, T8)> for F {
    type Output = O;

    open spec fn can_apply(&self, args: (T0, T1, T2, T3, T4, T5, T6, T7, T8)) -> bool {
        call_requires(*self, (args.0, args.1, args.2, args.3, args.4, args.5, args.6, args.7, args.8))
    }

    open spec fn applied(&self, args: (T0, T1, T2, T3, T4, T5, T6, T7, T8), out: O) -> bool {
        call_ensures(*self, (args.0, args.1, args.2, args.3, args.4, args.5, args.6, args.7, args.8), out)
    }

    open spec fn no_args() -> bool {
        false
    }

    fn empty_args() -> (r: bool) {
        false
    }

    fn apply_once(self, args: (T0, T1, T2, T3, T4, T5, T6, T7, T8)) -> (out: O) {
        self(args.0, args.1, args.2, args.3, args.4, args.5, args.6, args.7, args.8)
    }
}

impl<F: FnOnce(T0, T1, T2, T3, T4, T5, T6, T7, T8, T9) -> O, O, T0, T1, T2, T3, T4, T5, T6, T7, T8, T9> ApplyFnOnce<(T0, T1, T2, T3, T4, T5, T6, T7, T8, T9)> for F {
    type Output = O;

    open spec fn can_apply(&self, args: (T0, T1, T2, T3, T4, T5, T6, T7, T8, T9)) -> bool {
        call_requires(*self, (args.0, args.1, args.2, args.3, args.4, args.5, args.6, args.7, args.8, args.9))
    }

    open spec fn applied(&self, args: (T0, T1, T2, T3, T4, T5, T6, T7, T8, T9), out: O) -> bool {
        call_ensures(*self, (args.0, args.1, args.2, args.3, args.4, args.5, args.6, args.7, args.8, args.9), out)
    }

    open spec fn no_args() -> bool {
        false
    }

    fn empty_args() -> (r: bool) {
        false
    }

    fn apply_once(self, args: (T0, T1, T2, T3, T4, T5, T6, T7, T8, T9)) -> (out: O) {
        self(args.0, args.1, args.2, args.3, args.4, args.5, args.6, args.7, args.8, args.9)
    }
}

impl<F: FnOnce(T0, T1, T2, T3, T4, T5, T6, T7, T8, T9, T10) -> O, O, T0, T1, T2, T3, T4, T5, T6, T7, T8, T9, T10> ApplyFnOnce<(T0, T1, T2, T3, T4, T5, T6, T7, T8, T9, T10)> for F {
    type Output = O;

    open spec fn can_apply(&self, args: (T0, T1, T2, T3, T4, T5, T6, T7, T8, T9, T10)) -> bool {
        call_requires(*self, (args.0, args.1, args.2, args.3, args.4, args.5, args.6, args.7, args.8, args.9, args.10))
    }

    open spec fn applied(&self, args: (T0, T1, T2, T3, T4, T5, T6, T7, T8, T9, T10), out: O) -> bool {
        call_ensures(*self, (args.0, args.1, args.2, args.3, args.4, args.5, args.6, args.7, args.8, args.9, args.10), out)
    }

    open spec fn no_args() -> bool {
        false
    }

    fn empty_args() -> (r: bool) {
        false
    }

    fn apply_once(self, args: (T0, T1, T2, T3, T4, T5, T6, T7, T8, T9, T10)) -> (out: O) {
        self(args.0, args.1, args.2, args.3, args.4, args.5, args.6, args.7, args.8, args.9, args.10)
    }
}

impl<F: FnOnce(T0, T1, T2, T3, T4, T5, T6, T7, T8, T9, T10, T11) -> O, O, T0, T1, T2, T3, T4, T5, T6, T7, T8, T9, T10, T11> ApplyFnOnce<(T0, T1, T2, T3, T4, T5, T6, T7, T8, T9, T10, T11)> for F {
    type Output = O;

    open spec fn can_apply(&self, args: (T0, T1, T2, T3, T4, T5, T6, T7, T8, T9, T10, T11)) -> bool {
        call_requires(*self, (args.0, args.1, args.2, args.3, args.4, args.5, args.6, args.7, args.8, args.9, args.10, args.11))
    }

    open spec fn applied(&self, args: (T0, T1, T2, T3, T4, T5, T6, T7, T8, T9, T10, T11), out: O) -> bool {
        call_ensures(*self, (args.0, args.1, args.2, args.3, args.4, args.5, args.6, args.7, args.8, args.9, args.10, args.11), out)
    }

    open spec fn no_args() -> bool {
        false
    }

    fn empty_args() -> (r: bool) {
        false
    }

    fn apply_once(self, args: (T0, T1, T2, T3, T4, T5, T6, T7, T8, T9, T10, T11)) -> (out: O) {
        self(args.0, args.1, args.2, args.3, args.4, args.5, args.6, args.7, args.8, args.9, args.10, args.11)
    }
}

} // verus!
