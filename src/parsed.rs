//! The three-valued outcome of a parser: done, incomplete, or failed.
use vstd::prelude::*;

verus! {

/// What a parser makes of a byte string, at the level of specifications:
/// `Done(n, v)` consumed the first `n` bytes and produced `v`; `Incomplete`
/// needs more bytes before it can decide; `Error` can never succeed.
pub enum SpecParsed<T> {
    Done(nat, T),
    Incomplete,
    Error,
}

/// What a parser makes of a byte string: `Done(n, v)` consumed the first `n`
/// bytes and produced `v`; `Incomplete` needs more bytes before it can
/// decide; `Error` can never succeed, whatever follows.
#[derive(Debug, PartialEq, Eq)]
pub enum Parsed<T> {
    Done(usize, T),
    Incomplete,
    Error,
}

impl<T: View> View for Parsed<T> {
    type V = SpecParsed<T::V>;

    open spec fn view(&self) -> SpecParsed<T::V> {
        match self {
            Parsed::Done(n, v) => SpecParsed::Done(*n as nat, v@),
            Parsed::Incomplete => SpecParsed::Incomplete,
            Parsed::Error => SpecParsed::Error,
        }
    }
}

impl<T> SpecParsed<T> {
    /// Replaces the value of a `Done` outcome, keeping how much was consumed.
    pub open spec fn map_value<U>(self, f: spec_fn(T) -> U) -> SpecParsed<U> {
        match self {
            SpecParsed::Done(n, v) => SpecParsed::Done(n, f(v)),
            SpecParsed::Incomplete => SpecParsed::Incomplete,
            SpecParsed::Error => SpecParsed::Error,
        }
    }

    /// The outcome of a parser that is told that no more input will come:
    /// `Incomplete` turns into `Error`.
    pub open spec fn complete(self) -> SpecParsed<T> {
        match self {
            SpecParsed::Incomplete => SpecParsed::Error,
            other => other,
        }
    }
}

} // verus!
