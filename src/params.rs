//! The two encodings of a command's parameters: keyed (`name <len>\n<bytes>`,
//! with `* <count>\n` blocks) and batch-escaped (`k=v,k=v`).
use vstd::prelude::*;
use vstd::slice::slice_subrange;
use crate::assoc::assoc_map;
use crate::kernel::{
    byte_tag, consumed_within, ident_alphanum, integer, run_end, scan, skip, spec_ident_alphanum,
    spec_integer, spec_tag, spec_take, spec_take_until_and_consume1, tag, take,
    take_until_and_consume1, ByteClass,
};
use crate::list::{items_view, sep_list, spec_sep_list};
use crate::param_map::{ParamMap};
use crate::parsed::{Parsed, SpecParsed};

verus! {

pub type ParamsView = Map<Seq<u8>, Seq<u8>>;

/// A keyed parameter: `name <len>\n` followed by exactly `len` bytes.
pub open spec fn spec_param_kv(s: Seq<u8>) -> SpecParsed<ParamsView> {
    match spec_ident_alphanum(s) {
        SpecParsed::Done(n1, key) => {
            let s1 = skip(s, n1);
            match spec_tag(s1, seq![32u8]) {
                SpecParsed::Done(n2, _) => {
                    let s2 = skip(s1, n2);
                    match spec_integer(s2) {
                        SpecParsed::Done(n3, len) => {
                            let s3 = skip(s2, n3);
                            match spec_tag(s3, seq![10u8]) {
                                SpecParsed::Done(n4, _) => {
                                    let s4 = skip(s3, n4);
                                    match spec_take(s4, len as nat) {
                                        SpecParsed::Done(n5, val) => SpecParsed::Done(
                                            n1 + n2 + n3 + n4 + n5,
                                            map![key => val],
                                        ),
                                        SpecParsed::Incomplete => SpecParsed::Incomplete,
                                        SpecParsed::Error => SpecParsed::Error,
                                    }
                                },
                                SpecParsed::Incomplete => SpecParsed::Incomplete,
                                SpecParsed::Error => SpecParsed::Error,
                            }
                        },
                        SpecParsed::Incomplete => SpecParsed::Incomplete,
                        SpecParsed::Error => SpecParsed::Error,
                    }
                },
                SpecParsed::Incomplete => SpecParsed::Incomplete,
                SpecParsed::Error => SpecParsed::Error,
            }
        },
        SpecParsed::Incomplete => SpecParsed::Incomplete,
        SpecParsed::Error => SpecParsed::Error,
    }
}

/// A star block: `* <count>\n` followed by `count` parameters.
pub open spec fn spec_param_star(s: Seq<u8>) -> SpecParsed<ParamsView>
    decreases s.len(), 0nat,
{
    match spec_tag(s, seq![42u8, 32u8]) {
        SpecParsed::Done(n1, _) => {
            let s1 = skip(s, n1);
            match spec_integer(s1) {
                SpecParsed::Done(n2, count) => {
                    let s2 = skip(s1, n2);
                    match spec_tag(s2, seq![10u8]) {
                        SpecParsed::Done(n3, _) => {
                            let s3 = skip(s2, n3);
                            match spec_params(s3, count as nat) {
                                SpecParsed::Done(n4, m) => SpecParsed::Done(n1 + n2 + n3 + n4, m),
                                SpecParsed::Incomplete => SpecParsed::Incomplete,
                                SpecParsed::Error => SpecParsed::Error,
                            }
                        },
                        SpecParsed::Incomplete => SpecParsed::Incomplete,
                        SpecParsed::Error => SpecParsed::Error,
                    }
                },
                SpecParsed::Incomplete => SpecParsed::Incomplete,
                SpecParsed::Error => SpecParsed::Error,
            }
        },
        SpecParsed::Incomplete => SpecParsed::Incomplete,
        SpecParsed::Error => SpecParsed::Error,
    }
}

/// One parameter: a star block where one starts, else a keyed parameter.
pub open spec fn spec_param_one(s: Seq<u8>) -> SpecParsed<ParamsView>
    decreases s.len(), 1nat,
{
    match spec_param_star(s) {
        SpecParsed::Error => spec_param_kv(s),
        other => other,
    }
}

/// `left` more parameters, each a star block or a keyed parameter; a star
/// block counts as one whatever it holds. Later values win.
pub open spec fn spec_params(s: Seq<u8>, left: nat) -> SpecParsed<ParamsView>
    decreases s.len(), left + 2,
{
    if left == 0 {
        SpecParsed::Done(0, Map::empty())
    } else {
        match spec_param_one(s) {
            SpecParsed::Done(n, m) => match spec_params(skip(s, n), (left - 1) as nat) {
                SpecParsed::Done(k, m2) => SpecParsed::Done(n + k, m.union_prefer_right(m2)),
                SpecParsed::Incomplete => SpecParsed::Incomplete,
                SpecParsed::Error => SpecParsed::Error,
            },
            SpecParsed::Incomplete => SpecParsed::Incomplete,
            SpecParsed::Error => SpecParsed::Error,
        }
    }
}

/// What `r` becomes once `pos` bytes, that gave the parameters `acc`, are
/// put in front of it.
pub open spec fn after(pos: nat, acc: ParamsView, r: SpecParsed<ParamsView>) -> SpecParsed<
    ParamsView,
> {
    match r {
        SpecParsed::Done(k, m) => SpecParsed::Done(pos + k, acc.union_prefer_right(m)),
        SpecParsed::Incomplete => SpecParsed::Incomplete,
        SpecParsed::Error => SpecParsed::Error,
    }
}

/// A keyed parameter; see `spec_param_kv`.
pub fn param_kv(s: &[u8]) -> (r: Parsed<ParamMap>)
    ensures
        r@ == spec_param_kv(s@),
        consumed_within(r, s@.len()),
{
    let (n1, key) = match ident_alphanum(s) {
        Parsed::Done(n, k) => (n, k),
        Parsed::Incomplete => return Parsed::Incomplete,
        Parsed::Error => return Parsed::Error,
    };
    let s1 = slice_subrange(s, n1, s.len());
    let n2 = match byte_tag(s1, 32) {
        Parsed::Done(n, _) => n,
        Parsed::Incomplete => return Parsed::Incomplete,
        Parsed::Error => return Parsed::Error,
    };
    let s2 = slice_subrange(s1, n2, s1.len());
    let (n3, len) = match integer(s2) {
        Parsed::Done(n, l) => (n, l),
        Parsed::Incomplete => return Parsed::Incomplete,
        Parsed::Error => return Parsed::Error,
    };
    let s3 = slice_subrange(s2, n3, s2.len());
    let n4 = match byte_tag(s3, 10) {
        Parsed::Done(n, _) => n,
        Parsed::Incomplete => return Parsed::Incomplete,
        Parsed::Error => return Parsed::Error,
    };
    let s4 = slice_subrange(s3, n4, s3.len());
    let (n5, val) = match take(s4, len) {
        Parsed::Done(n, v) => (n, v),
        Parsed::Incomplete => return Parsed::Incomplete,
        Parsed::Error => return Parsed::Error,
    };
    let mut m = ParamMap::new();
    let ghost kv = key@;
    let ghost vv = val@;
    m.insert(key, val);
    assert(m@ =~= map![kv => vv]);
    Parsed::Done(n1 + n2 + n3 + n4 + n5, m)
}

/// A star block; see `spec_param_star`.
pub fn param_star(s: &[u8]) -> (r: Parsed<ParamMap>)
    ensures
        r@ == spec_param_star(s@),
        consumed_within(r, s@.len()),
    decreases s@.len(), 0nat,
{
    let star: [u8; 2] = [42u8, 32u8];
    let n1 = match tag(s, star.as_slice()) {
        Parsed::Done(n, _) => n,
        Parsed::Incomplete => return Parsed::Incomplete,
        Parsed::Error => return Parsed::Error,
    };
    assert(star@ == seq![42u8, 32u8]);
    let s1 = slice_subrange(s, n1, s.len());
    let (n2, count) = match integer(s1) {
        Parsed::Done(n, c) => (n, c),
        Parsed::Incomplete => return Parsed::Incomplete,
        Parsed::Error => return Parsed::Error,
    };
    let s2 = slice_subrange(s1, n2, s1.len());
    let n3 = match byte_tag(s2, 10) {
        Parsed::Done(n, _) => n,
        Parsed::Incomplete => return Parsed::Incomplete,
        Parsed::Error => return Parsed::Error,
    };
    let s3 = slice_subrange(s2, n3, s2.len());
    match params(s3, count) {
        Parsed::Done(n4, m) => Parsed::Done(n1 + n2 + n3 + n4, m),
        Parsed::Incomplete => Parsed::Incomplete,
        Parsed::Error => Parsed::Error,
    }
}

/// One parameter; see `spec_param_one`.
pub fn param_one(s: &[u8]) -> (r: Parsed<ParamMap>)
    ensures
        r@ == spec_param_one(s@),
        consumed_within(r, s@.len()),
    decreases s@.len(), 1nat,
{
    match param_star(s) {
        Parsed::Error => param_kv(s),
        other => other,
    }
}

/// `count` parameters in the keyed encoding; see `spec_params`.
pub fn params(s: &[u8], count: usize) -> (r: Parsed<ParamMap>)
    ensures
        r@ == spec_params(s@, count as nat),
        consumed_within(r, s@.len()),
    decreases s@.len(), 2nat,
{
    let mut ret = ParamMap::new();
    let mut pos: usize = 0;
    let mut have: usize = 0;
    assert(skip(s@, 0) =~= s@);
    proof {
        match spec_params(s@, count as nat) {
            SpecParsed::Done(k, m) => {
                assert(Map::<Seq<u8>, Seq<u8>>::empty().union_prefer_right(m) =~= m);
            },
            _ => {},
        }
    }
    while have < count
        invariant
            have <= count,
            pos <= s@.len(),
            spec_params(s@, count as nat) == after(
                pos as nat,
                ret@,
                spec_params(skip(s@, pos as nat), (count - have) as nat),
            ),
        decreases count - have,
    {
        let rest = slice_subrange(s, pos, s.len());
        assert(rest@ == skip(s@, pos as nat));
        match param_one(rest) {
            Parsed::Done(n, m) => {
                let ghost old_ret = ret@;
                let ghost mv = m@;
                ret.extend(m);
                proof {
                    assert(skip(rest@, n as nat) =~= skip(s@, (pos + n) as nat));
                    let r2 = spec_params(skip(s@, (pos + n) as nat), (count - have - 1) as nat);
                    match r2 {
                        SpecParsed::Done(k, m2) => {
                            assert(old_ret.union_prefer_right(mv.union_prefer_right(m2))
                                =~= old_ret.union_prefer_right(mv).union_prefer_right(m2));
                        },
                        _ => {},
                    }
                }
                pos = pos + n;
                have = have + 1;
            },
            Parsed::Incomplete => return Parsed::Incomplete,
            Parsed::Error => return Parsed::Error,
        }
    }
    proof {
        assert(ret@.union_prefer_right(Map::empty()) =~= ret@);
    }
    Parsed::Done(pos, ret)
}

/// The byte that an escape `:c` stands for: `:c`, `:o`, `:s` and `:e` are
/// `:`, `,`, `;` and `=`.
pub open spec fn escaped_byte(c: u8) -> Option<u8> {
    if c == 99 {
        Some(58u8)
    } else if c == 111 {
        Some(44u8)
    } else if c == 115 {
        Some(59u8)
    } else if c == 101 {
        Some(61u8)
    } else {
        None
    }
}

/// Undoes the batch escaping of `s` from `i` on, after `acc` was decoded
/// from the bytes before `i`. A `:` that starts no known escape is an error.
pub open spec fn spec_unescape_from(s: Seq<u8>, i: nat, acc: Seq<u8>) -> Option<Seq<u8>>
    decreases s.len() - i,
{
    if i >= s.len() {
        Some(acc)
    } else if s[i as int] == 58 {
        if i + 1 >= s.len() {
            None
        } else {
            match escaped_byte(s[i + 1 as int]) {
                Some(b) => spec_unescape_from(s, i + 2, acc.push(b)),
                None => None,
            }
        }
    } else {
        spec_unescape_from(s, i + 1, acc.push(s[i as int]))
    }
}

pub open spec fn spec_unescape(s: Seq<u8>) -> Option<Seq<u8>> {
    spec_unescape_from(s, 0, Seq::empty())
}

fn escaped_byte_exec(c: u8) -> (r: Option<u8>)
    ensures
        r == escaped_byte(c),
{
    if c == 99 {
        Some(58u8)
    } else if c == 111 {
        Some(44u8)
    } else if c == 115 {
        Some(59u8)
    } else if c == 101 {
        Some(61u8)
    } else {
        None
    }
}

/// Undoes the batch escaping; see `spec_unescape`.
pub fn unescape(s: &[u8]) -> (r: Option<Vec<u8>>)
    ensures
        match r {
            Some(v) => spec_unescape(s@) == Some(v@),
            None => spec_unescape(s@) is None,
        },
{
    let mut out: Vec<u8> = Vec::new();
    let mut i: usize = 0;
    while i < s.len()
        invariant
            i <= s@.len(),
            spec_unescape(s@) == spec_unescape_from(s@, i as nat, out@),
        decreases s@.len() - i,
    {
        if s[i] == 58 {
            if i + 1 >= s.len() {
                return None;
            }
            match escaped_byte_exec(s[i + 1]) {
                Some(b) => {
                    out.push(b);
                    i = i + 2;
                },
                None => return None,
            }
        } else {
            out.push(s[i]);
            i = i + 1;
        }
    }
    Some(out)
}

/// One batch parameter `key=value`, both escaped; the value ends at a `,`
/// or at the end of the input.
pub open spec fn spec_batch_param_escaped(s: Seq<u8>) -> SpecParsed<(Seq<u8>, Seq<u8>)> {
    match spec_take_until_and_consume1(s, 61) {
        SpecParsed::Done(n1, k) => {
            let rest = skip(s, n1);
            let n2 = run_end(rest, 0, ByteClass::Not(44));
            match (spec_unescape(k), spec_unescape(rest.take(n2))) {
                (Some(key), Some(val)) => SpecParsed::Done(n1 + n2 as nat, (key, val)),
                _ => SpecParsed::Error,
            }
        },
        SpecParsed::Incomplete => SpecParsed::Incomplete,
        SpecParsed::Error => SpecParsed::Error,
    }
}

/// Batch-escaped parameters `k=v,k=v`: any number of them, later values
/// winning. The count that the keyed encoding uses plays no part.
pub open spec fn spec_batch_params(s: Seq<u8>) -> SpecParsed<ParamsView> {
    spec_sep_list(s, 44, |x: Seq<u8>| spec_batch_param_escaped(x), true).map_value(
        |l: Seq<(Seq<u8>, Seq<u8>)>| assoc_map(l),
    )
}

/// One batch parameter; see `spec_batch_param_escaped`.
pub fn batch_param_escaped(s: &[u8]) -> (r: Parsed<(Vec<u8>, Vec<u8>)>)
    ensures
        r@ == spec_batch_param_escaped(s@),
        consumed_within(r, s@.len()),
{
    let (n1, k) = match take_until_and_consume1(s, 61) {
        Parsed::Done(n, k) => (n, k),
        Parsed::Incomplete => return Parsed::Incomplete,
        Parsed::Error => return Parsed::Error,
    };
    let rest = slice_subrange(s, n1, s.len());
    let n2 = scan(rest, 0, ByteClass::Not(44));
    let key = unescape(k.as_slice());
    let val = unescape(slice_subrange(rest, 0, n2));
    match (key, val) {
        (Some(key), Some(val)) => Parsed::Done(n1 + n2, (key, val)),
        _ => Parsed::Error,
    }
}

/// Batch-escaped parameters; see `spec_batch_params`. `_count` is unused:
/// it makes the signature that of `params`.
pub fn batch_params(s: &[u8], _count: usize) -> (r: Parsed<ParamMap>)
    ensures
        r@ == spec_batch_params(s@),
        consumed_within(r, s@.len()),
{
    let ghost item = |x: Seq<u8>| spec_batch_param_escaped(x);
    let l = sep_list(s, 44, batch_param_escaped, true, Ghost(item));
    match l {
        Parsed::Done(n, list) => {
            let ghost ps = items_view(list@);
            let mut m = ParamMap::new();
            let mut i: usize = 0;
            while i < list.len()
                invariant
                    i <= list@.len(),
                    ps == items_view(list@),
                    m@ == assoc_map(ps.take(i as int)),
                decreases list@.len() - i,
            {
                let k = list[i].0.clone();
                let v = list[i].1.clone();
                m.insert(k, v);
                assert(ps.take(i + 1).drop_last() =~= ps.take(i as int));
                i = i + 1;
            }
            assert(ps.take(i as int) =~= ps);
            Parsed::Done(n, m)
        },
        Parsed::Incomplete => Parsed::Incomplete,
        Parsed::Error => Parsed::Error,
    }
}

} // verus!
