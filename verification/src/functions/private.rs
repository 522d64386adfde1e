//! Restricts the argument lists that functions can be applied to.
use vstd::prelude::*;

verus! {

/// The argument lists supported by [`ApplyFnOnce`](crate::functions::ApplyFnOnce).
pub trait Sealed<I> {}

impl<F: FnOnce() -> O, O> Sealed<()> for F {}

impl<F: FnOnce(T0) -> O, O, T0> Sealed<(T0,)> for F {}

impl<F: FnOnce(T0, T1) -> O, O, T0, T1> Sealed<(T0, T1)> for F {}

impl<F: FnOnce(T0, T1, T2) -> O, O, T0, T1, T2> Sealed<(T0, T1, T2)> for F {}

impl<F: FnOnce(T0, T1, T2, T3) -> O, O, T0, T1, T2, T3> Sealed<(T0, T1, T2, T3)> for F {}

impl<F: FnOnce(T0, T1, T2, T3, T4) -> O, O, T0, T1, T2, T3, T4> Sealed<(T0, T1, T2, T3, T4)> for F {}

impl<F: FnOnce(T0, T1, T2, T3, T4, T5) -> O, O, T0, T1, T2, T3, T4, T5> Sealed<(T0, T1, T2, T3, T4, T5)> for F {}

impl<F: FnOnce(T0, T1, T2, T3, T4, T5, T6) -> O, O, T0, T1, T2, T3, T4, T5, T6> Sealed<(T0, T1, T2, T3, T4, T5, T6)> for F {}

impl<F: FnOnce(T0, T1, T2, T3, T4, T5, T6, T7) -> O, O, T0, T1, T2, T3, T4, T5, T6, T7> Sealed<(T0, T1, T2, T3, T4, T5, T6, T7)> for F {}

impl<F: FnOnce(T0, T1, T2, T3, T4, T5, T6, T7, T8) -> O, O, T0, T1, T2, T3, T4, T5, T6, T7, T8> Sealed<(T0, T1, T2, T3, T4, T5, T6, T7, T8)> for F {}

impl<F: FnOnce(T0, T1, T2, T3, T4, T5, T6, T7, T8, T9) -> O, O, T0, T1, T2, T3, T4, T5, T6, T7, T8, T9> Sealed<(T0, T1, T2, T3, T4, T5, T6, T7, T8, T9)> for F {}

impl<F: FnOnce(T0, T1, T2, T3, T4, T5, T6, T7, T8, T9, T10) -> O, O, T0, T1, T2, T3, T4, T5, T6, T7, T8, T9, T10> Sealed<(T0, T1, T2, T3, T4, T5, T6, T7, T8, T9, T10)> for F {}

impl<F: FnOnce(T0, T1, T2, T3, T4, T5, T6, T7, T8, T9, T10, T11) -> O, O, T0, T1, T2, T3, T4, T5, T6, T7, T8, T9, T10, T11> Sealed<(T0, T1, T2, T3, T4, T5, T6, T7, T8, T9, T10, T11)> for F {}

} // verus!
