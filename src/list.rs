//! Lists of items separated by a single byte.
use vstd::prelude::*;
use vstd::slice::slice_subrange;
use crate::kernel::{consumed_within, skip};
use crate::parsed::{Parsed, SpecParsed};

verus! {

/// An item's outcome, where `complete` says that no more input will come.
pub open spec fn item_outcome<T>(r: SpecParsed<T>, complete: bool) -> SpecParsed<T> {
    if complete {
        r.complete()
    } else {
        r
    }
}

/// Zero or more items separated by the byte `sep`. A first item that fails
/// gives an empty list; a first item that consumes nothing is an error; the
/// list ends before a separator that is not followed by an item.
pub open spec fn spec_sep_list<T>(
    s: Seq<u8>,
    sep: u8,
    item: spec_fn(Seq<u8>) -> SpecParsed<T>,
    complete: bool,
) -> SpecParsed<Seq<T>> {
    match item_outcome(item(s), complete) {
        SpecParsed::Error => SpecParsed::Done(0, Seq::empty()),
        SpecParsed::Incomplete => SpecParsed::Incomplete,
        SpecParsed::Done(n, v) => if n == 0 || n > s.len() {
            SpecParsed::Error
        } else {
            spec_sep_list_rest(s, n, seq![v], sep, item, complete)
        },
    }
}

/// The rest of a list whose items so far are `acc`, ending at `pos`.
pub open spec fn spec_sep_list_rest<T>(
    s: Seq<u8>,
    pos: nat,
    acc: Seq<T>,
    sep: u8,
    item: spec_fn(Seq<u8>) -> SpecParsed<T>,
    complete: bool,
) -> SpecParsed<Seq<T>>
    decreases s.len() - pos,
{
    if pos < s.len() && s[pos as int] == sep {
        match item_outcome(item(skip(s, pos + 1)), complete) {
            SpecParsed::Error => SpecParsed::Done(pos, acc),
            SpecParsed::Incomplete => SpecParsed::Incomplete,
            SpecParsed::Done(k, v) => if k == 0 || pos + 1 + k > s.len() {
                SpecParsed::Done(pos, acc)
            } else {
                spec_sep_list_rest(s, pos + 1 + k, acc.push(v), sep, item, complete)
            },
        }
    } else {
        SpecParsed::Done(pos, acc)
    }
}

/// The values of a list of items, each seen through its view.
pub open spec fn items_view<T: View>(v: Seq<T>) -> Seq<T::V> {
    v.map_values(|t: T| t@)
}

/// The outcome of a list parser, each item seen through its view.
pub open spec fn list_view<T: View>(r: Parsed<Vec<T>>) -> SpecParsed<Seq<T::V>> {
    match r {
        Parsed::Done(n, v) => SpecParsed::Done(n as nat, items_view(v@)),
        Parsed::Incomplete => SpecParsed::Incomplete,
        Parsed::Error => SpecParsed::Error,
    }
}

/// Parses a list of items with `item`; see `spec_sep_list`.
pub fn sep_list<T: View, F: Fn(&[u8]) -> Parsed<T>>(
    s: &[u8],
    sep: u8,
    item: F,
    complete: bool,
    Ghost(spec_item): Ghost<spec_fn(Seq<u8>) -> SpecParsed<T::V>>,
) -> (r: Parsed<Vec<T>>)
    requires
        forall|x: &[u8]| #[trigger] item.requires((x,)),
        forall|x: &[u8], o: Parsed<T>| #[trigger] item.ensures((x,), o) ==> o@ == spec_item(x@)
            && consumed_within(o, x@.len()),
    ensures
        list_view(r) == spec_sep_list(s@, sep, spec_item, complete),
        consumed_within(r, s@.len()),
{
    let first = item(s);
    let (n, v) = match first {
        Parsed::Done(n, v) => (n, v),
        Parsed::Incomplete => {
            if complete {
                let e: Vec<T> = Vec::new();
                assert(items_view(e@) =~= Seq::empty());
                return Parsed::Done(0, e);
            } else {
                return Parsed::Incomplete;
            }
        },
        Parsed::Error => {
            let e: Vec<T> = Vec::new();
            assert(items_view(e@) =~= Seq::empty());
            return Parsed::Done(0, e);
        },
    };
    if n == 0 {
        return Parsed::Error;
    }
    let mut acc: Vec<T> = Vec::new();
    acc.push(v);
    assert(items_view(acc@) =~= seq![v@]);
    let mut pos: usize = n;
    while pos < s.len() && s[pos] == sep
        invariant
            0 < pos <= s@.len(),
            forall|x: &[u8]| #[trigger] item.requires((x,)),
            forall|x: &[u8], o: Parsed<T>| #[trigger] item.ensures((x,), o) ==> o@ == spec_item(x@)
                && consumed_within(o, x@.len()),
            spec_sep_list(s@, sep, spec_item, complete)
                == spec_sep_list_rest(s@, pos as nat, items_view(acc@), sep, spec_item, complete),
        decreases s@.len() - pos,
    {
        let rest = slice_subrange(s, pos + 1, s.len());
        assert(rest@ == skip(s@, (pos + 1) as nat));
        match item(rest) {
            Parsed::Done(k, v) => {
                if k == 0 {
                    return Parsed::Done(pos, acc);
                }
                let ghost before = items_view(acc@);
                acc.push(v);
                assert(items_view(acc@) =~= before.push(v@));
                pos = pos + 1 + k;
            },
            Parsed::Incomplete => {
                if complete {
                    return Parsed::Done(pos, acc);
                } else {
                    return Parsed::Incomplete;
                }
            },
            Parsed::Error => {
                return Parsed::Done(pos, acc);
            },
        }
    }
    Parsed::Done(pos, acc)
}

} // verus!
