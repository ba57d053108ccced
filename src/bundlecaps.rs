//! The `bundlecaps` value: comma-separated capabilities, each a name or
//! `name=payload`, where the percent-encoded payload holds lines of
//! `param` or `param=v1,v2`, whose values are percent-encoded too.
use vstd::prelude::*;
use vstd::slice::slice_subrange;
use crate::assoc::assoc_map;
use crate::external::{percent_decode, percent_decoded};
use crate::kernel::{byte_tag, consumed_within, ident_complete, skip, spec_ident_complete, spec_tag};
use crate::list::{items_view, sep_list, spec_sep_list};
use crate::parsed::{Parsed, SpecParsed};
use crate::strmap::{str_pairs, BundleCaps, CapParams, CapValues, StrMap};
use crate::values::{as_text, ident_string, spec_ident_string, text_of};

verus! {

pub type CapValuesView = Set<Seq<char>>;

pub type CapParamsView = Map<Seq<char>, CapValuesView>;

pub type BundleCapsView = Map<Seq<char>, CapParamsView>;

/// A loose identifier, percent-decoded.
pub open spec fn spec_percent_decoded(s: Seq<u8>) -> SpecParsed<Seq<u8>> {
    spec_ident_complete(s).map_value(|x: Seq<u8>| percent_decoded(x))
}

/// A loose identifier, percent-decoded, as text.
pub open spec fn spec_percent_string(s: Seq<u8>) -> SpecParsed<Seq<char>> {
    as_text(spec_percent_decoded(s))
}

/// The values of a capability parameter: a comma-separated list of
/// percent-decoded strings, or failing that a single one.
pub open spec fn spec_values_list(s: Seq<u8>) -> SpecParsed<CapValuesView> {
    match spec_sep_list(s, 44, |x: Seq<u8>| spec_percent_string(x), true) {
        SpecParsed::Done(n, l) => SpecParsed::Done(n, l.to_set()),
        _ => match spec_percent_string(s) {
            SpecParsed::Done(n, v) => SpecParsed::Done(n, set![v]),
            _ => SpecParsed::Error,
        },
    }
}

/// A capability parameter `name=values`, or failing that a bare `name`
/// with no values.
pub open spec fn spec_cap_param(s: Seq<u8>) -> SpecParsed<(Seq<char>, CapValuesView)> {
    let first = match spec_percent_string(s) {
        SpecParsed::Done(n1, name) => {
            let s1 = skip(s, n1);
            match spec_tag(s1, seq![61u8]) {
                SpecParsed::Done(n2, _) => match spec_values_list(skip(s1, n2)) {
                    SpecParsed::Done(n3, vals) => SpecParsed::Done(n1 + n2 + n3, (name, vals)),
                    _ => SpecParsed::Error,
                },
                _ => SpecParsed::Error,
            }
        },
        _ => SpecParsed::Error,
    };
    match first {
        SpecParsed::Done(n, v) => SpecParsed::Done(n, v),
        _ => match spec_percent_string(s) {
            SpecParsed::Done(n, name) => SpecParsed::Done(n, (name, Set::empty())),
            _ => SpecParsed::Error,
        },
    }
}

/// Capability parameters, one per line; later ones win.
pub open spec fn spec_cap_params(s: Seq<u8>) -> SpecParsed<CapParamsView> {
    spec_sep_list(s, 10, |x: Seq<u8>| spec_cap_param(x), true).map_value(
        |l: Seq<(Seq<char>, CapValuesView)>| assoc_map(l),
    )
}

/// A percent-encoded payload, decoded and then read as capability
/// parameters. What the parameters leave of the decoded payload is dropped.
pub open spec fn spec_cap_params_decoded(s: Seq<u8>) -> SpecParsed<CapParamsView> {
    match spec_percent_decoded(s) {
        SpecParsed::Done(n, y) => match spec_cap_params(y) {
            SpecParsed::Done(_, z) => SpecParsed::Done(n, z),
            SpecParsed::Incomplete => SpecParsed::Incomplete,
            SpecParsed::Error => SpecParsed::Error,
        },
        SpecParsed::Incomplete => SpecParsed::Incomplete,
        SpecParsed::Error => SpecParsed::Error,
    }
}

/// A capability `name=payload`, or failing that a bare `name`.
pub open spec fn spec_cap(s: Seq<u8>) -> SpecParsed<(Seq<char>, CapParamsView)> {
    let first = match spec_ident_string(s) {
        SpecParsed::Done(n1, name) => {
            let s1 = skip(s, n1);
            match spec_tag(s1, seq![61u8]) {
                SpecParsed::Done(n2, _) => match spec_cap_params_decoded(skip(s1, n2)) {
                    SpecParsed::Done(n3, m) => SpecParsed::Done(n1 + n2 + n3, (name, m)),
                    _ => SpecParsed::Error,
                },
                _ => SpecParsed::Error,
            }
        },
        _ => SpecParsed::Error,
    };
    match first {
        SpecParsed::Done(n, v) => SpecParsed::Done(n, v),
        _ => match spec_ident_string(s) {
            SpecParsed::Done(n, name) => SpecParsed::Done(n, (name, Map::empty())),
            _ => SpecParsed::Error,
        },
    }
}

/// Comma-separated capabilities; later ones win.
pub open spec fn spec_bundlecaps(s: Seq<u8>) -> SpecParsed<BundleCapsView> {
    spec_sep_list(s, 44, |x: Seq<u8>| spec_cap(x), true).map_value(
        |l: Seq<(Seq<char>, CapParamsView)>| assoc_map(l),
    )
}

pub fn percent_decoded_ident(s: &[u8]) -> (r: Parsed<Vec<u8>>)
    ensures
        r@ == spec_percent_decoded(s@),
        consumed_within(r, s@.len()),
{
    match ident_complete(s) {
        Parsed::Done(n, x) => Parsed::Done(n, percent_decode(x.as_slice())),
        Parsed::Incomplete => Parsed::Incomplete,
        Parsed::Error => Parsed::Error,
    }
}

pub fn percent_string(s: &[u8]) -> (r: Parsed<String>)
    ensures
        r@ == spec_percent_string(s@),
        consumed_within(r, s@.len()),
{
    text_of(percent_decoded_ident(s))
}

pub fn values_list(s: &[u8]) -> (r: Parsed<CapValues>)
    ensures
        r@ == spec_values_list(s@),
        consumed_within(r, s@.len()),
{
    match sep_list(s, 44, percent_string, true, Ghost(|x: Seq<u8>| spec_percent_string(x))) {
        Parsed::Done(n, l) => {
            assert(items_view(l@) =~= l@.map_values(|s: String| s@));
            Parsed::Done(n, CapValues::from_strings(l))
        },
        _ => match percent_string(s) {
            Parsed::Done(n, v) => {
                let ghost vv = v@;
                let mut one: Vec<String> = Vec::new();
                one.push(v);
                assert(one@.map_values(|s: String| s@) =~= seq![vv]);
                let r = CapValues::from_strings(one);
                assert(seq![vv].to_set() =~= set![vv]) by {
                    assert(seq![vv][0] == vv);
                }
                Parsed::Done(n, r)
            },
            _ => Parsed::Error,
        },
    }
}

fn cap_param_first(s: &[u8]) -> (r: Option<(usize, (String, CapValues))>)
    ensures
        match r {
            Some((n, v)) => n <= s@.len() && spec_cap_param(s@) == SpecParsed::Done(n as nat, v@),
            None => spec_cap_param(s@) == (match spec_percent_string(s@) {
                SpecParsed::Done(n, name) => SpecParsed::Done(n, (name, Set::<Seq<char>>::empty())),
                _ => SpecParsed::Error,
            }),
        },
{
    let (n1, name) = match percent_string(s) {
        Parsed::Done(n, v) => (n, v),
        _ => return None,
    };
    let s1 = slice_subrange(s, n1, s.len());
    let n2 = match byte_tag(s1, 61) {
        Parsed::Done(n, _) => n,
        _ => return None,
    };
    let s2 = slice_subrange(s1, n2, s1.len());
    match values_list(s2) {
        Parsed::Done(n3, vals) => Some((n1 + n2 + n3, (name, vals))),
        _ => None,
    }
}

pub fn cap_param(s: &[u8]) -> (r: Parsed<(String, CapValues)>)
    ensures
        r@ == spec_cap_param(s@),
        consumed_within(r, s@.len()),
{
    match cap_param_first(s) {
        Some((n, v)) => Parsed::Done(n, v),
        None => match percent_string(s) {
            Parsed::Done(n, name) => Parsed::Done(n, (name, CapValues::new())),
            _ => Parsed::Error,
        },
    }
}

pub fn cap_params(s: &[u8]) -> (r: Parsed<CapParams>)
    ensures
        r@ == spec_cap_params(s@),
        consumed_within(r, s@.len()),
{
    match sep_list(s, 10, cap_param, true, Ghost(|x: Seq<u8>| spec_cap_param(x))) {
        Parsed::Done(n, l) => {
            assert(str_pairs(l@) =~= items_view(l@));
            Parsed::Done(n, StrMap::from_pairs(l))
        },
        Parsed::Incomplete => Parsed::Incomplete,
        Parsed::Error => Parsed::Error,
    }
}

pub fn cap_params_decoded(s: &[u8]) -> (r: Parsed<CapParams>)
    ensures
        r@ == spec_cap_params_decoded(s@),
        consumed_within(r, s@.len()),
{
    match percent_decoded_ident(s) {
        Parsed::Done(n, y) => match cap_params(y.as_slice()) {
            Parsed::Done(_, z) => Parsed::Done(n, z),
            Parsed::Incomplete => Parsed::Incomplete,
            Parsed::Error => Parsed::Error,
        },
        Parsed::Incomplete => Parsed::Incomplete,
        Parsed::Error => Parsed::Error,
    }
}

fn cap_first(s: &[u8]) -> (r: Option<(usize, (String, CapParams))>)
    ensures
        match r {
            Some((n, v)) => n <= s@.len() && spec_cap(s@) == SpecParsed::Done(n as nat, v@),
            None => spec_cap(s@) == (match spec_ident_string(s@) {
                SpecParsed::Done(n, name) => SpecParsed::Done(n, (name, Map::<Seq<char>, CapValuesView>::empty())),
                _ => SpecParsed::Error,
            }),
        },
{
    let (n1, name) = match ident_string(s) {
        Parsed::Done(n, v) => (n, v),
        _ => return None,
    };
    let s1 = slice_subrange(s, n1, s.len());
    let n2 = match byte_tag(s1, 61) {
        Parsed::Done(n, _) => n,
        _ => return None,
    };
    let s2 = slice_subrange(s1, n2, s1.len());
    match cap_params_decoded(s2) {
        Parsed::Done(n3, m) => Some((n1 + n2 + n3, (name, m))),
        _ => None,
    }
}

pub fn cap(s: &[u8]) -> (r: Parsed<(String, CapParams)>)
    ensures
        r@ == spec_cap(s@),
        consumed_within(r, s@.len()),
{
    match cap_first(s) {
        Some((n, v)) => Parsed::Done(n, v),
        None => match ident_string(s) {
            Parsed::Done(n, name) => Parsed::Done(n, (name, StrMap::new())),
            _ => Parsed::Error,
        },
    }
}

/// The `bundlecaps` value; see `spec_bundlecaps`.
pub fn bundlecaps(s: &[u8]) -> (r: Parsed<BundleCaps>)
    ensures
        r@ == spec_bundlecaps(s@),
        consumed_within(r, s@.len()),
{
    match sep_list(s, 44, cap, true, Ghost(|x: Seq<u8>| spec_cap(x))) {
        Parsed::Done(n, l) => {
            assert(str_pairs(l@) =~= items_view(l@));
            Parsed::Done(n, StrMap::from_pairs(l))
        },
        Parsed::Incomplete => Parsed::Incomplete,
        Parsed::Error => Parsed::Error,
    }
}

} // verus!
