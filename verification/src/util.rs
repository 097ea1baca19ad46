//! A value that is either owned or shared.

use vstd::prelude::*;
use vstd::std_specs::cmp::{PartialOrdSpec, PartialOrdSpecImpl};
use vstd::std_specs::convert::FromSpecImpl;
use std::cmp::Ordering;
use std::rc::Rc;

verus! {

/// A value held directly or behind a reference count.
#[derive(Debug, Hash, Clone, PartialEq, Eq)]
pub enum Access<T> {
    Rc(Rc<T>),
    Owned(T),
}

impl<T> Access<T> {
    /// The value, however it is held.
    pub open spec fn get(&self) -> T {
        match self {
            Access::Rc(rc) => **rc,
            Access::Owned(v) => *v,
        }
    }

    /// Holds `value` directly.
    pub fn owned(value: T) -> (a: Access<T>)
        ensures
            a.get() == value,
            a is Owned,
    {
        Access::Owned(value)
    }

    /// Holds the value that `value` shares.
    pub fn shared(value: Rc<T>) -> (a: Access<T>)
        ensures
            a.get() == *value,
            a is Rc,
    {
        Access::Rc(value)
    }

    /// Applies `f` to the value, however it is held.
    pub fn map<R, F: Fn(&T) -> R>(&self, f: F) -> (r: R)
        requires
            call_requires(f, (&self.get(),)),
        ensures
            call_ensures(f, (&self.get(),), r),
    {
        match self {
            Access::Rc(rc) => f(&**rc),
            Access::Owned(v) => f(v),
        }
    }
}

impl<T: PartialOrd> PartialOrd for Access<T> {
    /// Compares the two values, however they are held.
    fn partial_cmp(&self, other: &Access<T>) -> (r: Option<Ordering>) {
        match (self, other) {
            (Access::Rc(a), Access::Rc(b)) => (**a).partial_cmp(&**b),
            (Access::Rc(a), Access::Owned(b)) => (**a).partial_cmp(b),
            (Access::Owned(a), Access::Rc(b)) => a.partial_cmp(&**b),
            (Access::Owned(a), Access::Owned(b)) => a.partial_cmp(b),
        }
    }
}

impl<T: PartialOrd> PartialOrdSpecImpl for Access<T> {
    open spec fn obeys_partial_cmp_spec() -> bool {
        T::obeys_partial_cmp_spec()
    }

    open spec fn partial_cmp_spec(&self, other: &Access<T>) -> Option<Ordering> {
        self.get().partial_cmp_spec(&other.get())
    }
}

impl<T> From<Rc<T>> for Access<T> {
    fn from(value: Rc<T>) -> (a: Access<T>) {
        Access::Rc(value)
    }
}

impl<T> FromSpecImpl<Rc<T>> for Access<T> {
    open spec fn obeys_from_spec() -> bool {
        true
    }

    open spec fn from_spec(value: Rc<T>) -> Access<T> {
        Access::Rc(value)
    }
}

impl<T> From<&Rc<T>> for Access<T> {
    fn from(value: &Rc<T>) -> (a: Access<T>) {
        Access::Rc(value.clone())
    }
}

impl<T> FromSpecImpl<&Rc<T>> for Access<T> {
    open spec fn obeys_from_spec() -> bool {
        true
    }

    open spec fn from_spec(value: &Rc<T>) -> Access<T> {
        Access::Rc(*value)
    }
}

impl<T> From<T> for Access<T> {
    fn from(value: T) -> (a: Access<T>) {
        Access::Owned(value)
    }
}

impl<T> FromSpecImpl<T> for Access<T> {
    open spec fn obeys_from_spec() -> bool {
        true
    }

    open spec fn from_spec(value: T) -> Access<T> {
        Access::Owned(value)
    }
}

} // verus!
