//! Parsers for the values of parameters, and the lookup of a parameter by
//! name. A value is complete: a parser must consume all of it.
use vstd::prelude::*;
use vstd::slice::{slice_subrange, slice_to_vec};
use vstd::utf8::{decode_utf8, valid_utf8};
use crate::external::string_from_utf8;
use crate::kernel::{
    byte_tag, consumed_within, decimal_value, ident_alphanum_complete, ident_complete, run_end,
    scan, skip, spec_ident_alphanum_complete, spec_ident_complete, spec_tag,
    spec_take_until_and_consume1, take_until_and_consume1, ByteClass,
};
use crate::list::{items_view, list_view, sep_list, spec_sep_list};
use crate::nodehash::{nodehash, spec_nodehash, HgNodeHash};
use crate::params::{spec_unescape, unescape};
use crate::parsed::{Parsed, SpecParsed};

verus! {

/// Two node hashes joined by `-`.
pub open spec fn spec_pair(s: Seq<u8>) -> SpecParsed<(Seq<u8>, Seq<u8>)> {
    match spec_nodehash(s) {
        SpecParsed::Done(n1, a) => {
            let s1 = skip(s, n1);
            match spec_tag(s1, seq![45u8]) {
                SpecParsed::Done(n2, _) => {
                    let s2 = skip(s1, n2);
                    match spec_nodehash(s2) {
                        SpecParsed::Done(n3, b) => SpecParsed::Done(n1 + n2 + n3, (a, b)),
                        SpecParsed::Incomplete => SpecParsed::Incomplete,
                        SpecParsed::Error => SpecParsed::Error,
                    }
                },
                SpecParsed::Incomplete => SpecParsed::Incomplete,
                SpecParsed::Error => SpecParsed::Error,
            }
        },
        SpecParsed::Incomplete => SpecParsed::Incomplete,
        SpecParsed::Error => SpecParsed::Error,
    }
}

/// Pairs of node hashes separated by spaces.
pub open spec fn spec_pairlist(s: Seq<u8>) -> SpecParsed<Seq<(Seq<u8>, Seq<u8>)>> {
    spec_sep_list(s, 32, |x: Seq<u8>| spec_pair(x), true)
}

/// Node hashes separated by spaces.
pub open spec fn spec_hashlist(s: Seq<u8>) -> SpecParsed<Seq<Seq<u8>>> {
    spec_sep_list(s, 32, |x: Seq<u8>| spec_nodehash(x), true)
}

/// ASCII letters and digits, as in the words of a string list.
pub open spec fn is_ascii_alphanumeric(b: u8) -> bool {
    (48 <= b <= 57) || (65 <= b <= 90) || (97 <= b <= 122)
}

/// A run of ASCII letters and digits, possibly empty, as a string.
pub open spec fn spec_alnum_word(s: Seq<u8>) -> SpecParsed<Seq<char>> {
    let k = alnum_run(s);
    if valid_utf8(s.take(k)) {
        SpecParsed::Done(k as nat, decode_utf8(s.take(k)))
    } else {
        SpecParsed::Error
    }
}

pub open spec fn alnum_run(s: Seq<u8>) -> int {
    alnum_run_from(s, 0)
}

/// The end of the run of ASCII letters and digits that starts at `i`.
pub open spec fn alnum_run_from(s: Seq<u8>, i: int) -> int
    decreases s.len() - i,
{
    if 0 <= i < s.len() && is_ascii_alphanumeric(s[i]) {
        alnum_run_from(s, i + 1)
    } else {
        i
    }
}

/// Words of ASCII letters and digits separated by spaces.
pub open spec fn spec_stringlist(s: Seq<u8>) -> SpecParsed<Seq<Seq<char>>> {
    spec_sep_list(s, 32, |x: Seq<u8>| spec_alnum_word(x), false)
}

/// The pieces of `s` between commas.
pub open spec fn split_commas(s: Seq<u8>) -> Seq<Seq<u8>>
    decreases s.len(),
{
    let j = run_end(s, 0, ByteClass::Not(44));
    if j < 0 || j >= s.len() {
        seq![s]
    } else {
        seq![s.take(j)] + split_commas(skip(s, (j + 1) as nat))
    }
}

/// Comma-separated values: none for an empty input.
pub open spec fn spec_commavalues(s: Seq<u8>) -> SpecParsed<Seq<Seq<u8>>> {
    if s.len() == 0 {
        SpecParsed::Done(0, Seq::empty())
    } else {
        SpecParsed::Done(s.len(), split_commas(s))
    }
}

/// A non-empty run of digits whose value is at most `bound`.
pub open spec fn spec_bounded_digits(s: Seq<u8>, bound: nat) -> SpecParsed<nat> {
    let k = run_end(s, 0, ByteClass::Digit);
    if s.len() == 0 {
        SpecParsed::Incomplete
    } else if k == 0 || decimal_value(s.take(k)) > bound {
        SpecParsed::Error
    } else {
        SpecParsed::Done(k as nat, decimal_value(s.take(k)))
    }
}

/// A flag written as a decimal number that fits in 32 bits: true unless 0.
pub open spec fn spec_boolean(s: Seq<u8>) -> SpecParsed<bool> {
    spec_bounded_digits(s, u32::MAX as nat).map_value(|v: nat| v != 0)
}

/// A depth written as a decimal number.
pub open spec fn spec_depth(s: Seq<u8>) -> SpecParsed<usize> {
    spec_bounded_digits(s, usize::MAX as nat).map_value(|v: nat| v as usize)
}

/// A non-empty run of bytes up to a comma, batch-escaped.
pub open spec fn spec_escaped_item(s: Seq<u8>) -> SpecParsed<Seq<u8>> {
    let k = run_end(s, 0, ByteClass::Not(44));
    if k == 0 {
        SpecParsed::Error
    } else {
        match spec_unescape(s.take(k)) {
            Some(v) => SpecParsed::Done(k as nat, v),
            None => SpecParsed::Error,
        }
    }
}

/// Comma-separated batch-escaped byte strings.
pub open spec fn spec_escaped_list(s: Seq<u8>) -> SpecParsed<Seq<Seq<u8>>> {
    spec_sep_list(s, 44, |x: Seq<u8>| spec_escaped_item(x), true)
}

/// A command of a batch: its name up to a space, then its arguments up to
/// a `;` or the end.
pub open spec fn spec_cmd(s: Seq<u8>) -> SpecParsed<(Seq<u8>, Seq<u8>)> {
    match spec_take_until_and_consume1(s, 32) {
        SpecParsed::Done(n, name) => {
            let rest = skip(s, n);
            let k = run_end(rest, 0, ByteClass::Not(59));
            SpecParsed::Done(n + k as nat, (name, rest.take(k)))
        },
        SpecParsed::Incomplete => SpecParsed::Incomplete,
        SpecParsed::Error => SpecParsed::Error,
    }
}

/// The commands of a batch, separated by `;`.
pub open spec fn spec_cmdlist(s: Seq<u8>) -> SpecParsed<Seq<(Seq<u8>, Seq<u8>)>> {
    spec_sep_list(s, 59, |x: Seq<u8>| spec_cmd(x), false)
}

/// Text that must be well-formed UTF-8.
pub open spec fn spec_utf8_string(s: Seq<u8>) -> SpecParsed<Seq<char>> {
    if valid_utf8(s) {
        SpecParsed::Done(s.len(), decode_utf8(s))
    } else {
        SpecParsed::Error
    }
}

/// The value of `r` turned into text, which must be well-formed UTF-8.
pub open spec fn as_text(r: SpecParsed<Seq<u8>>) -> SpecParsed<Seq<char>> {
    match r {
        SpecParsed::Done(n, v) => if valid_utf8(v) {
            SpecParsed::Done(n, decode_utf8(v))
        } else {
            SpecParsed::Error
        },
        SpecParsed::Incomplete => SpecParsed::Incomplete,
        SpecParsed::Error => SpecParsed::Error,
    }
}

/// A loose identifier as a string; see `spec_ident_complete`.
pub open spec fn spec_ident_string(s: Seq<u8>) -> SpecParsed<Seq<char>> {
    as_text(spec_ident_complete(s))
}

/// An alphanumeric identifier as a string.
pub open spec fn spec_ident_string_alphanum(s: Seq<u8>) -> SpecParsed<Seq<char>> {
    as_text(spec_ident_alphanum_complete(s))
}

/// Turns the value of a parser's outcome into text.
pub fn text_of(r: Parsed<Vec<u8>>) -> (t: Parsed<String>)
    ensures
        t@ == as_text(r@),
{
    match r {
        Parsed::Done(n, v) => match string_from_utf8(v) {
            Some(s) => Parsed::Done(n, s),
            None => Parsed::Error,
        },
        Parsed::Incomplete => Parsed::Incomplete,
        Parsed::Error => Parsed::Error,
    }
}

/// Two node hashes joined by `-`.
pub fn pair(s: &[u8]) -> (r: Parsed<(HgNodeHash, HgNodeHash)>)
    ensures
        r@ == spec_pair(s@),
        consumed_within(r, s@.len()),
{
    let (n1, a) = match nodehash(s) {
        Parsed::Done(n, a) => (n, a),
        Parsed::Incomplete => return Parsed::Incomplete,
        Parsed::Error => return Parsed::Error,
    };
    let s1 = slice_subrange(s, n1, s.len());
    let n2 = match byte_tag(s1, 45) {
        Parsed::Done(n, _) => n,
        Parsed::Incomplete => return Parsed::Incomplete,
        Parsed::Error => return Parsed::Error,
    };
    let s2 = slice_subrange(s1, n2, s1.len());
    match nodehash(s2) {
        Parsed::Done(n3, b) => Parsed::Done(n1 + n2 + n3, (a, b)),
        Parsed::Incomplete => Parsed::Incomplete,
        Parsed::Error => Parsed::Error,
    }
}

pub fn pairlist(s: &[u8]) -> (r: Parsed<Vec<(HgNodeHash, HgNodeHash)>>)
    ensures
        list_view(r) == spec_pairlist(s@),
        consumed_within(r, s@.len()),
{
    sep_list(s, 32, pair, true, Ghost(|x: Seq<u8>| spec_pair(x)))
}

pub fn hashlist(s: &[u8]) -> (r: Parsed<Vec<HgNodeHash>>)
    ensures
        list_view(r) == spec_hashlist(s@),
        consumed_within(r, s@.len()),
{
    sep_list(s, 32, nodehash, true, Ghost(|x: Seq<u8>| spec_nodehash(x)))
}

fn is_ascii_alphanumeric_exec(b: u8) -> (r: bool)
    ensures
        r == is_ascii_alphanumeric(b),
{
    (48 <= b && b <= 57) || (65 <= b && b <= 90) || (97 <= b && b <= 122)
}

/// A word of ASCII letters and digits; see `spec_alnum_word`.
pub fn alnum_word(s: &[u8]) -> (r: Parsed<String>)
    ensures
        r@ == spec_alnum_word(s@),
        consumed_within(r, s@.len()),
{
    let mut i: usize = 0;
    while i < s.len()
        invariant
            i <= s@.len(),
            alnum_run_from(s@, i as int) == alnum_run_from(s@, 0),
        ensures
            alnum_run_from(s@, i as int) == i,
        decreases s@.len() - i,
    {
        if !is_ascii_alphanumeric_exec(s[i]) {
            break;
        }
        i = i + 1;
    }
    text_of(Parsed::Done(i, slice_to_vec(slice_subrange(s, 0, i))))
}

pub fn stringlist(s: &[u8]) -> (r: Parsed<Vec<String>>)
    ensures
        list_view(r) == spec_stringlist(s@),
        consumed_within(r, s@.len()),
{
    sep_list(s, 32, alnum_word, false, Ghost(|x: Seq<u8>| spec_alnum_word(x)))
}

/// Comma-separated values; see `spec_commavalues`.
pub fn commavalues(s: &[u8]) -> (r: Parsed<Vec<Vec<u8>>>)
    ensures
        list_view(r) == spec_commavalues(s@),
        consumed_within(r, s@.len()),
{
    let mut out: Vec<Vec<u8>> = Vec::new();
    if s.len() == 0 {
        assert(items_view(out@) =~= Seq::empty());
        return Parsed::Done(0, out);
    }
    let mut start: usize = 0;
    assert(skip(s@, 0) =~= s@);
    assert(items_view(out@) + split_commas(s@) =~= split_commas(s@));
    loop
        invariant_except_break
            start <= s@.len(),
            split_commas(s@) == items_view(out@) + split_commas(skip(s@, start as nat)),
        ensures
            split_commas(s@) == items_view(out@),
        decreases s@.len() - start,
    {
        let rest = slice_subrange(s, start, s.len());
        assert(rest@ == skip(s@, start as nat));
        let j = scan(rest, 0, ByteClass::Not(44));
        proof {
            crate::kernel::lemma_run_end(rest@, 0, ByteClass::Not(44));
        }
        let ghost before = items_view(out@);
        out.push(slice_to_vec(slice_subrange(rest, 0, j)));
        assert(items_view(out@) =~= before.push(rest@.take(j as int)));
        if j >= rest.len() {
            assert(rest@.take(j as int) =~= rest@);
            assert(split_commas(rest@) == seq![rest@]);
            assert(split_commas(s@) =~= items_view(out@));
            break;
        }
        assert(skip(rest@, (j + 1) as nat) =~= skip(s@, (start + j + 1) as nat));
        assert(split_commas(s@) =~= items_view(out@) + split_commas(skip(s@, (start + j + 1) as nat)));
        start = start + j + 1;
    }
    Parsed::Done(s.len(), out)
}

/// A non-empty run of digits whose value is at most `bound`.
pub fn bounded_digits(s: &[u8], bound: usize) -> (r: Parsed<usize>)
    ensures
        r@ == spec_bounded_digits(s@, bound as nat).map_value(|v: nat| v as usize),
        consumed_within(r, s@.len()),
{
    if s.len() == 0 {
        return Parsed::Incomplete;
    }
    let k = scan(s, 0, ByteClass::Digit);
    if k == 0 {
        return Parsed::Error;
    }
    proof {
        crate::kernel::lemma_run_end(s@, 0, ByteClass::Digit);
    }
    let mut acc: usize = 0;
    let mut i: usize = 0;
    while i < k
        invariant
            k <= s@.len(),
            s@.len() > 0,
            k == run_end(s@, 0, ByteClass::Digit),
            i <= k,
            forall|j: int| 0 <= j < k ==> crate::kernel::in_class(ByteClass::Digit, #[trigger] s@[j]),
            acc == decimal_value(s@.take(i as int)),
            acc <= bound,
        decreases k - i,
    {
        let d = (s[i] - 48) as usize;
        assert(s@.take(i + 1).drop_last() == s@.take(i as int));
        if (acc as u128) * 10 + (d as u128) > (bound as u128) {
            proof {
                assert(s@.take(i + 1).last() == s@[i as int]);
                assert(decimal_value(s@.take(i + 1)) == acc * 10 + d);
                lemma_decimal_prefix_grows(s@, (i + 1) as int, k as int);
                assert(decimal_value(s@.take(k as int)) > bound);
                assert(spec_bounded_digits(s@, bound as nat) is Error);
            }
            return Parsed::Error;
        }
        acc = acc * 10 + d;
        i = i + 1;
    }
    Parsed::Done(k, acc)
}

/// A longer run of digits is worth at least as much.
pub proof fn lemma_decimal_prefix_grows(s: Seq<u8>, i: int, k: int)
    requires
        0 <= i <= k <= s.len(),
        forall|j: int| 0 <= j < k ==> crate::kernel::in_class(ByteClass::Digit, #[trigger] s[j]),
    ensures
        decimal_value(s.take(i)) <= decimal_value(s.take(k)),
    decreases k - i,
{
    if i < k {
        lemma_decimal_prefix_grows(s, i + 1, k);
        assert(s.take(i + 1).drop_last() == s.take(i));
    }
}

pub fn boolean(s: &[u8]) -> (r: Parsed<bool>)
    ensures
        r@ == spec_boolean(s@),
        consumed_within(r, s@.len()),
{
    match bounded_digits(s, 4294967295usize) {
        Parsed::Done(n, v) => Parsed::Done(n, v != 0),
        Parsed::Incomplete => Parsed::Incomplete,
        Parsed::Error => Parsed::Error,
    }
}

pub fn depth(s: &[u8]) -> (r: Parsed<usize>)
    ensures
        r@ == spec_depth(s@),
        consumed_within(r, s@.len()),
{
    bounded_digits(s, usize::MAX)
}

/// A batch-escaped byte string up to a comma; see `spec_escaped_item`.
pub fn escaped_item(s: &[u8]) -> (r: Parsed<Vec<u8>>)
    ensures
        r@ == spec_escaped_item(s@),
        consumed_within(r, s@.len()),
{
    let k = scan(s, 0, ByteClass::Not(44));
    if k == 0 {
        return Parsed::Error;
    }
    match unescape(slice_subrange(s, 0, k)) {
        Some(v) => Parsed::Done(k, v),
        None => Parsed::Error,
    }
}

pub fn escaped_list(s: &[u8]) -> (r: Parsed<Vec<Vec<u8>>>)
    ensures
        list_view(r) == spec_escaped_list(s@),
        consumed_within(r, s@.len()),
{
    sep_list(s, 44, escaped_item, true, Ghost(|x: Seq<u8>| spec_escaped_item(x)))
}

/// A command of a batch; see `spec_cmd`.
pub fn cmd(s: &[u8]) -> (r: Parsed<(Vec<u8>, Vec<u8>)>)
    ensures
        r@ == spec_cmd(s@),
        consumed_within(r, s@.len()),
{
    match take_until_and_consume1(s, 32) {
        Parsed::Done(n, name) => {
            let rest = slice_subrange(s, n, s.len());
            let k = scan(rest, 0, ByteClass::Not(59));
            Parsed::Done(n + k, (name, slice_to_vec(slice_subrange(rest, 0, k))))
        },
        Parsed::Incomplete => Parsed::Incomplete,
        Parsed::Error => Parsed::Error,
    }
}

pub fn cmdlist(s: &[u8]) -> (r: Parsed<Vec<(Vec<u8>, Vec<u8>)>>)
    ensures
        list_view(r) == spec_cmdlist(s@),
        consumed_within(r, s@.len()),
{
    sep_list(s, 59, cmd, false, Ghost(|x: Seq<u8>| spec_cmd(x)))
}

pub fn utf8_string_complete(s: &[u8]) -> (r: Parsed<String>)
    ensures
        r@ == spec_utf8_string(s@),
        consumed_within(r, s@.len()),
{
    text_of(Parsed::Done(s.len(), slice_to_vec(s)))
}

pub fn ident_string(s: &[u8]) -> (r: Parsed<String>)
    ensures
        r@ == spec_ident_string(s@),
        consumed_within(r, s@.len()),
{
    text_of(ident_complete(s))
}

pub fn ident_string_alphanum(s: &[u8]) -> (r: Parsed<String>)
    ensures
        r@ == spec_ident_string_alphanum(s@),
        consumed_within(r, s@.len()),
{
    text_of(ident_alphanum_complete(s))
}

} // verus!
