use vstd::prelude::*;

use crate::errors::{ErrorView, ParseError};

verus! {

/// The mathematical content of a settable option: its current value and
/// whether it has been explicitly assigned.
#[verifier::ext_equal]
pub ghost struct ArgView<V> {
    pub value: V,
    pub set: bool,
}

/// A value with a default that may be explicitly assigned at most once.
#[derive(Clone, Copy, Debug, PartialEq, Eq)]
pub struct Arg<T> {
    pub value: T,
    set: bool,
}

impl<T: View> View for Arg<T> {
    type V = ArgView<<T as View>::V>;

    closed spec fn view(&self) -> ArgView<<T as View>::V> {
        ArgView { value: self.value@, set: self.set }
    }
}

impl<T: View> Arg<T> {
    /// A fresh option holding its default, not yet explicitly set.
    pub fn new(default: T) -> (r: Self)
        ensures
            r@ == (ArgView { value: default@, set: false }),
    {
        Arg { value: default, set: false }
    }

    /// Explicit assignment, allowed exactly once.  A second assignment
    /// fails with `DuplicateFlag` carrying the spelling `name`, and leaves
    /// the stored value untouched.
    pub fn try_mut(&mut self, name: String, value: T) -> (r: Result<(), ParseError>)
        ensures
            match r {
                Result::Ok(_) => !old(self)@.set && final(self)@ == (ArgView {
                    value: value@,
                    set: true,
                }),
                Result::Err(e) => old(self)@.set && final(self)@ == old(self)@ && e@
                    == ErrorView::DuplicateFlag(name@),
            },
    {
        if self.set {
            Err(ParseError::DuplicateFlag(name))
        } else {
            self.value = value;
            self.set = true;
            Ok(())
        }
    }

    /// Whether the value has been explicitly assigned.
    pub fn is_set(&self) -> (r: bool)
        ensures
            r == self@.set,
    {
        self.set
    }
}

} // verus!
