//! Looking up a command's parameter by name and parsing its value, which
//! must be consumed whole.
use vstd::prelude::*;
use crate::param_map::ParamMap;
use crate::params::ParamsView;
use crate::parsed::{Parsed, SpecParsed};

verus! {

/// Why a parameter could not be had: it is missing, its value has bytes
/// left over once parsed, or its value does not parse. Each names the
/// parameter.
#[derive(Debug, Clone, PartialEq, Eq)]
pub enum ParamError {
    Missing(Vec<u8>),
    TrailingBytes(Vec<u8>),
    Invalid(Vec<u8>),
}

pub enum SpecParamError {
    Missing(Seq<u8>),
    TrailingBytes(Seq<u8>),
    Invalid(Seq<u8>),
}

impl View for ParamError {
    type V = SpecParamError;

    open spec fn view(&self) -> SpecParamError {
        match self {
            ParamError::Missing(k) => SpecParamError::Missing(k@),
            ParamError::TrailingBytes(k) => SpecParamError::TrailingBytes(k@),
            ParamError::Invalid(k) => SpecParamError::Invalid(k@),
        }
    }
}

/// The value of the parameter `key`, `value`, parsed by `p`.
pub open spec fn spec_value_of<T>(value: Seq<u8>, key: Seq<u8>, p: spec_fn(Seq<u8>) -> SpecParsed<T>) -> Result<T, SpecParamError> {
    match p(value) {
        SpecParsed::Done(n, v) => if n == value.len() {
            Ok(v)
        } else {
            Err(SpecParamError::TrailingBytes(key))
        },
        _ => Err(SpecParamError::Invalid(key)),
    }
}

/// A parameter that must be there.
pub open spec fn spec_parseval<T>(params: ParamsView, key: Seq<u8>, p: spec_fn(Seq<u8>) -> SpecParsed<T>) -> Result<T, SpecParamError> {
    if params.contains_key(key) {
        spec_value_of(params[key], key, p)
    } else {
        Err(SpecParamError::Missing(key))
    }
}

/// A parameter that is `default` where it is missing.
pub open spec fn spec_parseval_default<T>(
    params: ParamsView,
    key: Seq<u8>,
    p: spec_fn(Seq<u8>) -> SpecParsed<T>,
    default: T,
) -> Result<T, SpecParamError> {
    if params.contains_key(key) {
        spec_value_of(params[key], key, p)
    } else {
        Ok(default)
    }
}

/// A parameter that is `None` where it is missing.
pub open spec fn spec_parseval_option<T>(params: ParamsView, key: Seq<u8>, p: spec_fn(Seq<u8>) -> SpecParsed<T>) -> Result<Option<T>, SpecParamError> {
    if params.contains_key(key) {
        match spec_value_of(params[key], key, p) {
            Ok(v) => Ok(Some(v)),
            Err(e) => Err(e),
        }
    } else {
        Ok(None)
    }
}

/// How the outcome `o` of parsing a value of `len` bytes decides the
/// result `r` for the parameter `key`.
pub open spec fn decides<T>(o: Parsed<T>, len: nat, key: Seq<u8>, r: Result<T, ParamError>) -> bool {
    match o {
        Parsed::Done(n, v) => if n == len {
            r == Ok::<T, ParamError>(v)
        } else {
            r matches Err(e) && e@ == SpecParamError::TrailingBytes(key)
        },
        _ => r matches Err(e) && e@ == SpecParamError::Invalid(key),
    }
}

fn decide<T>(o: Parsed<T>, len: usize, key: &[u8]) -> (r: Result<T, ParamError>)
    ensures
        decides(o, len as nat, key@, r),
{
    match o {
        Parsed::Done(n, v) => if n == len {
            Ok(v)
        } else {
            Err(ParamError::TrailingBytes(vstd::slice::slice_to_vec(key)))
        },
        _ => Err(ParamError::Invalid(vstd::slice::slice_to_vec(key))),
    }
}

/// Looks up the parameter `key` and parses its value with `parser`, which
/// must consume all of it.
pub fn parseval<T, F: Fn(&[u8]) -> Parsed<T>>(params: &ParamMap, key: &[u8], parser: F) -> (r: Result<T, ParamError>)
    requires
        forall|x: &[u8]| #[trigger] parser.requires((x,)),
    ensures
        !params@.contains_key(key@) ==> (r matches Err(e) && e@ == SpecParamError::Missing(key@)),
        params@.contains_key(key@) ==> exists|x: &[u8], o: Parsed<T>|
            x@ == params@[key@] && #[trigger] parser.ensures((x,), o) && decides(o, x@.len(), key@, r),
{
    match params.get(key) {
        None => Err(ParamError::Missing(vstd::slice::slice_to_vec(key))),
        Some(v) => {
            let x = v.as_slice();
            let o = parser(x);
            let r = decide(o, x.len(), key);
            assert(parser.ensures((x,), o));
            r
        },
    }
}

/// Looks up the parameter `key` and parses its value with `parser`, which
/// must consume all of it; a missing parameter is `default`.
pub fn parseval_default<T, F: Fn(&[u8]) -> Parsed<T>>(
    params: &ParamMap,
    key: &[u8],
    parser: F,
    default: T,
) -> (r: Result<T, ParamError>)
    requires
        forall|x: &[u8]| #[trigger] parser.requires((x,)),
    ensures
        !params@.contains_key(key@) ==> r == Ok::<T, ParamError>(default),
        params@.contains_key(key@) ==> exists|x: &[u8], o: Parsed<T>|
            x@ == params@[key@] && #[trigger] parser.ensures((x,), o) && decides(o, x@.len(), key@, r),
{
    match params.get(key) {
        None => Ok(default),
        Some(v) => {
            let x = v.as_slice();
            let o = parser(x);
            let r = decide(o, x.len(), key);
            assert(parser.ensures((x,), o));
            r
        },
    }
}

/// The outcome `o` with its value seen through `vf`.
pub open spec fn pview<T, U>(o: Parsed<T>, vf: spec_fn(T) -> U) -> SpecParsed<U> {
    match o {
        Parsed::Done(n, v) => SpecParsed::Done(n as nat, vf(v)),
        Parsed::Incomplete => SpecParsed::Incomplete,
        Parsed::Error => SpecParsed::Error,
    }
}

/// The result `r` with its value seen through `vf`.
pub open spec fn rview<T, U>(r: Result<T, ParamError>, vf: spec_fn(T) -> U) -> Result<U, SpecParamError> {
    match r {
        Ok(v) => Ok(vf(v)),
        Err(e) => Err(e@),
    }
}

/// `parseval`, with the parser's contract given as `p` over the values
/// that `vf` gives.
pub(crate) fn value_of<T, U, F: Fn(&[u8]) -> Parsed<T>>(
    params: &ParamMap,
    key: &[u8],
    parser: F,
    Ghost(p): Ghost<spec_fn(Seq<u8>) -> SpecParsed<U>>,
    Ghost(vf): Ghost<spec_fn(T) -> U>,
) -> (r: Result<T, ParamError>)
    requires
        forall|x: &[u8]| #[trigger] parser.requires((x,)),
        forall|x: &[u8], o: Parsed<T>| #[trigger] parser.ensures((x,), o) ==> pview(o, vf) == p(x@),
    ensures
        rview(r, vf) == spec_parseval(params@, key@, p),
{
    match params.get(key) {
        None => Err(ParamError::Missing(vstd::slice::slice_to_vec(key))),
        Some(v) => decide(parser(v.as_slice()), v.len(), key),
    }
}

/// `parseval_default`, with the parser's contract given as `p` over the
/// values that `vf` gives.
pub(crate) fn value_or<T, U, F: Fn(&[u8]) -> Parsed<T>>(
    params: &ParamMap,
    key: &[u8],
    parser: F,
    default: T,
    Ghost(p): Ghost<spec_fn(Seq<u8>) -> SpecParsed<U>>,
    Ghost(vf): Ghost<spec_fn(T) -> U>,
) -> (r: Result<T, ParamError>)
    requires
        forall|x: &[u8]| #[trigger] parser.requires((x,)),
        forall|x: &[u8], o: Parsed<T>| #[trigger] parser.ensures((x,), o) ==> pview(o, vf) == p(x@),
    ensures
        rview(r, vf) == spec_parseval_default(params@, key@, p, vf(default)),
{
    match params.get(key) {
        None => Ok(default),
        Some(v) => decide(parser(v.as_slice()), v.len(), key),
    }
}

/// A parameter that may be missing, with the parser's contract given as
/// `p` over the values that `vf` gives.
pub(crate) fn value_if_any<T, U, F: Fn(&[u8]) -> Parsed<T>>(
    params: &ParamMap,
    key: &[u8],
    parser: F,
    Ghost(p): Ghost<spec_fn(Seq<u8>) -> SpecParsed<U>>,
    Ghost(vf): Ghost<spec_fn(T) -> U>,
) -> (r: Result<Option<T>, ParamError>)
    requires
        forall|x: &[u8]| #[trigger] parser.requires((x,)),
        forall|x: &[u8], o: Parsed<T>| #[trigger] parser.ensures((x,), o) ==> pview(o, vf) == p(x@),
    ensures
        match (r, spec_parseval_option(params@, key@, p)) {
            (Ok(Some(v)), Ok(Some(w))) => vf(v) == w,
            (Ok(None), Ok(None)) => true,
            (Err(e), Err(f)) => e@ == f,
            _ => false,
        },
{
    match params.get(key) {
        None => Ok(None),
        Some(v) => match decide(parser(v.as_slice()), v.len(), key) {
            Ok(x) => Ok(Some(x)),
            Err(e) => Err(e),
        },
    }
}

} // verus!
