//! Combining two `Option` values with a binary operation: the result is
//! present exactly when both inputs are.

use vstd::prelude::*;

verus! {

use vstd::std_specs::ops::AddSpec;
use vstd::std_specs::ops::DivSpec;
use vstd::std_specs::ops::MulSpec;
use vstd::std_specs::ops::SubSpec;

/// Combines two `Option` values with a caller-chosen operation, or with
/// one of the four arithmetic operations.
pub trait OptionExtension<T>: Sized {
    /// The optional value as an `Option`.
    spec fn opt_view(&self) -> Option<T>;

    /// Applies `f` to the two carried values; `None` on either side gives
    /// `None`.
    fn combine_with<U, R, F: FnOnce(T, U) -> R>(self, other: Option<U>, f: F) -> (r: Option<R>)
        requires
            self.opt_view() matches Some(x) ==> other matches Some(y) ==> f.requires((x, y)),
        ensures
            r is None <==> (self.opt_view() is None || other is None),
            self.opt_view() matches Some(x) ==> other matches Some(y) ==> r matches Some(z) ==> f.ensures(
                (x, y),
                z,
            ),
    ;

    /// Adds the two carried values.
    fn combine_with_sum<U, R>(self, other: Option<U>) -> (r: Option<R>) where
        T: core::ops::Add<U, Output = R>

        requires
            self.opt_view() matches Some(x) ==> other matches Some(y) ==> x.add_req(y),
        ensures
            r is None <==> (self.opt_view() is None || other is None),
            T::obeys_add_spec() ==> (self.opt_view() matches Some(x) ==> other matches Some(y) ==> r == Some(
                x.add_spec(y),
            )),
    ;

    /// Subtracts the second carried value from the first.
    fn combine_with_sub<U, R>(self, other: Option<U>) -> (r: Option<R>) where
        T: core::ops::Sub<U, Output = R>

        requires
            self.opt_view() matches Some(x) ==> other matches Some(y) ==> x.sub_req(y),
        ensures
            r is None <==> (self.opt_view() is None || other is None),
            T::obeys_sub_spec() ==> (self.opt_view() matches Some(x) ==> other matches Some(y) ==> r == Some(
                x.sub_spec(y),
            )),
    ;

    /// Multiplies the two carried values.
    fn combine_with_mul<U, R>(self, other: Option<U>) -> (r: Option<R>) where
        T: core::ops::Mul<U, Output = R>

        requires
            self.opt_view() matches Some(x) ==> other matches Some(y) ==> x.mul_req(y),
        ensures
            r is None <==> (self.opt_view() is None || other is None),
            T::obeys_mul_spec() ==> (self.opt_view() matches Some(x) ==> other matches Some(y) ==> r == Some(
                x.mul_spec(y),
            )),
    ;

    /// Divides the first carried value by the second.
    fn combine_with_div<U, R>(self, other: Option<U>) -> (r: Option<R>) where
        T: core::ops::Div<U, Output = R>

        requires
            self.opt_view() matches Some(x) ==> other matches Some(y) ==> x.div_req(y),
        ensures
            r is None <==> (self.opt_view() is None || other is None),
            T::obeys_div_spec() ==> (self.opt_view() matches Some(x) ==> other matches Some(y) ==> r == Some(
                x.div_spec(y),
            )),
    ;
}

impl<T> OptionExtension<T> for Option<T> {
    open spec fn opt_view(&self) -> Option<T> {
        *self
    }

    fn combine_with<U, R, F: FnOnce(T, U) -> R>(self, other: Option<U>, f: F) -> (r: Option<R>) {
        match (self, other) {
            (Some(x), Some(y)) => Some(f(x, y)),
            _ => None,
        }
    }

    fn combine_with_sum<U, R>(self, other: Option<U>) -> (r: Option<R>) where
        T: core::ops::Add<U, Output = R>
     {
        match (self, other) {
            (Some(x), Some(y)) => Some(x + y),
            _ => None,
        }
    }

    fn combine_with_sub<U, R>(self, other: Option<U>) -> (r: Option<R>) where
        T: core::ops::Sub<U, Output = R>
     {
        match (self, other) {
            (Some(x), Some(y)) => Some(x - y),
            _ => None,
        }
    }

    fn combine_with_mul<U, R>(self, other: Option<U>) -> (r: Option<R>) where
        T: core::ops::Mul<U, Output = R>
     {
        match (self, other) {
            (Some(x), Some(y)) => Some(x * y),
            _ => None,
        }
    }

    fn combine_with_div<U, R>(self, other: Option<U>) -> (r: Option<R>) where
        T: core::ops::Div<U, Output = R>
     {
        match (self, other) {
            (Some(x), Some(y)) => Some(x / y),
            _ => None,
        }
    }
}

} // verus!
