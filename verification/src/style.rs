//! A three-state configuration value: an explicit value, or one of the
//! two cascade directives — inherit from the surrounding scope, or fall
//! back to the initial default.

use vstd::prelude::*;

verus! {

/// An explicitly set value, or a cascade directive.
#[derive(Clone, Copy, PartialEq, Eq, Debug)]
pub enum StyleValue<S> {
    Style(S),
    Inherit,
    Initial,
}

impl<S> StyleValue<S> {
    /// Transforms the explicit value, if any; the cascade directives pass
    /// through unchanged.
    pub fn map<T, F: FnOnce(S) -> T>(self, f: F) -> (r: StyleValue<T>)
        requires
            self matches StyleValue::Style(s) ==> call_requires(f, (s,)),
        ensures
            self matches StyleValue::Style(s) ==> (r matches StyleValue::Style(t)
                && call_ensures(f, (s,), t)),
            self is Inherit ==> r is Inherit,
            self is Initial ==> r is Initial,
    {
        match self {
            StyleValue::Style(s) => StyleValue::Style(f(s)),
            StyleValue::Inherit => StyleValue::Inherit,
            StyleValue::Initial => StyleValue::Initial,
        }
    }

    /// Borrows the explicit value, if any.
    pub fn as_ref(&self) -> (r: StyleValue<&S>)
        ensures
            self matches StyleValue::Style(s) ==> (r matches StyleValue::Style(t) && *t == s),
            self is Inherit ==> r is Inherit,
            self is Initial ==> r is Initial,
    {
        match self {
            StyleValue::Style(s) => StyleValue::Style(s),
            StyleValue::Inherit => StyleValue::Inherit,
            StyleValue::Initial => StyleValue::Initial,
        }
    }
}

} // verus!
