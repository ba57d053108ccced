//! Primitive parsers on byte strings: literal tags, fixed-length takes,
//! decimal integers and identifiers.
use vstd::prelude::*;
use vstd::slice::{slice_subrange, slice_to_vec};
use crate::parsed::{Parsed, SpecParsed};

verus! {

pub open spec fn is_digit(b: u8) -> bool {
    48 <= b <= 57
}

pub open spec fn is_alpha(b: u8) -> bool {
    (65 <= b <= 90) || (97 <= b <= 122)
}

/// A byte that may start an alphanumeric identifier: a letter or `_`.
pub open spec fn is_ident_start(b: u8) -> bool {
    is_alpha(b) || b == 95
}

/// A byte that may continue an alphanumeric identifier.
pub open spec fn is_ident_alphanum(b: u8) -> bool {
    is_ident_start(b) || is_digit(b)
}

/// A byte of a loose identifier: a letter, a digit, `_`, `-` or `%`.
pub open spec fn is_ident_byte(b: u8) -> bool {
    is_ident_alphanum(b) || b == 45 || b == 37
}

/// The classes of bytes that make up the runs the parsers read.
#[derive(Clone, Copy)]
pub enum ByteClass {
    Digit,
    IdentAlphanum,
    IdentByte,
    /// Any byte but the given one.
    Not(u8),
}

pub open spec fn in_class(c: ByteClass, b: u8) -> bool {
    match c {
        ByteClass::Digit => is_digit(b),
        ByteClass::IdentAlphanum => is_ident_alphanum(b),
        ByteClass::IdentByte => is_ident_byte(b),
        ByteClass::Not(x) => b != x,
    }
}

/// The end of the run of bytes of class `p` that starts at `i`.
pub open spec fn run_end(s: Seq<u8>, i: int, p: ByteClass) -> int
    decreases s.len() - i,
{
    if 0 <= i < s.len() && in_class(p, s[i]) {
        run_end(s, i + 1, p)
    } else {
        i
    }
}

pub proof fn lemma_run_end(s: Seq<u8>, i: int, p: ByteClass)
    requires
        0 <= i <= s.len(),
    ensures
        i <= run_end(s, i, p) <= s.len(),
        forall|j: int| i <= j < run_end(s, i, p) ==> in_class(p, #[trigger] s[j]),
        run_end(s, i, p) < s.len() ==> !in_class(p, s[run_end(s, i, p)]),
    decreases s.len() - i,
{
    if i < s.len() && in_class(p, s[i]) {
        lemma_run_end(s, i + 1, p);
    }
}

/// The value of a string of decimal digits.
pub open spec fn decimal_value(s: Seq<u8>) -> nat
    decreases s.len(),
{
    if s.len() == 0 {
        0
    } else {
        decimal_value(s.drop_last()) * 10 + (s.last() - 48) as nat
    }
}

/// `s` without its first `n` bytes (empty where `s` is shorter).
pub open spec fn skip<T>(s: Seq<T>, n: nat) -> Seq<T> {
    if n <= s.len() {
        s.subrange(n as int, s.len() as int)
    } else {
        Seq::empty()
    }
}

/// An outcome that consumed no more than the `len` bytes it was given.
pub open spec fn consumed_within<T>(r: Parsed<T>, len: nat) -> bool {
    r matches Parsed::Done(n, _) ==> n <= len
}

/// A literal tag `t` at the start of `s`. A prefix of the tag is
/// `Incomplete`; any byte that differs is an `Error`.
pub open spec fn spec_tag(s: Seq<u8>, t: Seq<u8>) -> SpecParsed<()> {
    if s.len() >= t.len() {
        if s.take(t.len() as int) == t {
            SpecParsed::Done(t.len(), ())
        } else {
            SpecParsed::Error
        }
    } else if s == t.take(s.len() as int) {
        SpecParsed::Incomplete
    } else {
        SpecParsed::Error
    }
}

/// Exactly `n` bytes.
pub open spec fn spec_take(s: Seq<u8>, n: nat) -> SpecParsed<Seq<u8>> {
    if s.len() < n {
        SpecParsed::Incomplete
    } else {
        SpecParsed::Done(n, s.take(n as int))
    }
}

/// An unsigned decimal integer that fits in `usize`. A run of digits that
/// reaches the end of the input is `Incomplete`: more digits may follow.
pub open spec fn spec_integer(s: Seq<u8>) -> SpecParsed<usize> {
    let k = run_end(s, 0, ByteClass::Digit);
    if k == s.len() {
        SpecParsed::Incomplete
    } else if k == 0 {
        SpecParsed::Error
    } else if decimal_value(s.take(k)) > usize::MAX {
        SpecParsed::Error
    } else {
        SpecParsed::Done(k as nat, decimal_value(s.take(k)) as usize)
    }
}

/// An identifier `[A-Za-z_][A-Za-z0-9_]*`. Reaching the end of the input
/// is `Incomplete`: the identifier may go on.
pub open spec fn spec_ident_alphanum(s: Seq<u8>) -> SpecParsed<Seq<u8>> {
    if s.len() == 0 {
        SpecParsed::Incomplete
    } else if !is_ident_start(s[0]) {
        SpecParsed::Error
    } else {
        let k = run_end(s, 1, ByteClass::IdentAlphanum);
        if k == s.len() {
            SpecParsed::Incomplete
        } else {
            SpecParsed::Done(k as nat, s.take(k))
        }
    }
}

/// As `spec_ident_alphanum`, on an input known to be complete: an
/// identifier that reaches the end is the whole input.
pub open spec fn spec_ident_alphanum_complete(s: Seq<u8>) -> SpecParsed<Seq<u8>> {
    match spec_ident_alphanum(s) {
        SpecParsed::Incomplete => SpecParsed::Done(s.len(), s),
        other => other,
    }
}

/// A non-empty run of `[A-Za-z0-9_%-]`. Only an empty input is
/// `Incomplete`.
pub open spec fn spec_ident(s: Seq<u8>) -> SpecParsed<Seq<u8>> {
    if s.len() == 0 {
        SpecParsed::Incomplete
    } else {
        let k = run_end(s, 0, ByteClass::IdentByte);
        if k == 0 {
            SpecParsed::Error
        } else {
            SpecParsed::Done(k as nat, s.take(k))
        }
    }
}

/// As `spec_ident`, on an input known to be complete: an empty input is
/// an empty identifier.
pub open spec fn spec_ident_complete(s: Seq<u8>) -> SpecParsed<Seq<u8>> {
    match spec_ident(s) {
        SpecParsed::Incomplete => SpecParsed::Done(s.len(), s),
        other => other,
    }
}

pub fn is_digit_byte(b: u8) -> (r: bool)
    ensures
        r == is_digit(b),
{
    48 <= b && b <= 57
}

pub fn is_ident_start_byte(b: u8) -> (r: bool)
    ensures
        r == is_ident_start(b),
{
    (65 <= b && b <= 90) || (97 <= b && b <= 122) || b == 95
}

pub fn is_ident_alphanum_byte(b: u8) -> (r: bool)
    ensures
        r == is_ident_alphanum(b),
{
    is_ident_start_byte(b) || is_digit_byte(b)
}

pub fn is_ident_any_byte(b: u8) -> (r: bool)
    ensures
        r == is_ident_byte(b),
{
    is_ident_alphanum_byte(b) || b == 45 || b == 37
}

/// Matches the literal `t` at the start of `s`.
pub fn tag(s: &[u8], t: &[u8]) -> (r: Parsed<()>)
    ensures
        r@ == spec_tag(s@, t@),
        consumed_within(r, s@.len()),
{
    let mut i: usize = 0;
    while i < s.len() && i < t.len()
        invariant
            i <= s@.len(),
            i <= t@.len(),
            s@.take(i as int) == t@.take(i as int),
        decreases t@.len() - i,
    {
        if s[i] != t[i] {
            proof {
                if s@.len() >= t@.len() {
                    assert(s@.take(t@.len() as int)[i as int] != t@[i as int]);
                } else {
                    assert(t@.take(s@.len() as int)[i as int] != s@[i as int]);
                }
            }
            return Parsed::Error;
        }
        assert(s@.take(i + 1) == s@.take(i as int).push(s@[i as int]));
        assert(t@.take(i + 1) == t@.take(i as int).push(t@[i as int]));
        i = i + 1;
    }
    if i < t.len() {
        assert(s@.take(i as int) == s@);
        Parsed::Incomplete
    } else {
        assert(t@.take(i as int) == t@);
        Parsed::Done(t.len(), ())
    }
}

/// Exactly `n` bytes.
pub fn take(s: &[u8], n: usize) -> (r: Parsed<Vec<u8>>)
    ensures
        r@ == spec_take(s@, n as nat),
        consumed_within(r, s@.len()),
{
    if s.len() < n {
        Parsed::Incomplete
    } else {
        let v = slice_to_vec(slice_subrange(s, 0, n));
        Parsed::Done(n, v)
    }
}

/// An unsigned decimal integer; see `spec_integer`.
pub fn integer(s: &[u8]) -> (r: Parsed<usize>)
    ensures
        r@ == spec_integer(s@),
        consumed_within(r, s@.len()),
{
    let mut i: usize = 0;
    let mut acc: usize = 0;
    let mut overflow = false;
    while i < s.len() && is_digit_byte(s[i])
        invariant
            i <= s@.len(),
            run_end(s@, i as int, ByteClass::Digit) == run_end(s@, 0, ByteClass::Digit),
            overflow ==> decimal_value(s@.take(i as int)) > usize::MAX,
            !overflow ==> acc == decimal_value(s@.take(i as int)),
        decreases s@.len() - i,
    {
        let d = (s[i] - 48) as usize;
        assert(s@.take(i + 1).drop_last() == s@.take(i as int));
        if !overflow {
            if acc > (usize::MAX - d) / 10 {
                overflow = true;
            } else {
                acc = acc * 10 + d;
            }
        }
        i = i + 1;
    }
    proof {
        lemma_run_end(s@, 0, ByteClass::Digit);
    }
    if i == s.len() {
        Parsed::Incomplete
    } else if i == 0 {
        Parsed::Error
    } else if overflow {
        Parsed::Error
    } else {
        Parsed::Done(i, acc)
    }
}

/// An identifier `[A-Za-z_][A-Za-z0-9_]*`; see `spec_ident_alphanum`.
pub fn ident_alphanum(s: &[u8]) -> (r: Parsed<Vec<u8>>)
    ensures
        r@ == spec_ident_alphanum(s@),
        consumed_within(r, s@.len()),
{
    if s.len() == 0 {
        return Parsed::Incomplete;
    }
    if !is_ident_start_byte(s[0]) {
        return Parsed::Error;
    }
    let mut i: usize = 1;
    while i < s.len()
        invariant
            1 <= i <= s@.len(),
            run_end(s@, i as int, ByteClass::IdentAlphanum) == run_end(s@, 1, ByteClass::IdentAlphanum),
        ensures
            run_end(s@, i as int, ByteClass::IdentAlphanum) == i,
        decreases s@.len() - i,
    {
        if !is_ident_alphanum_byte(s[i]) {
            break;
        }
        i = i + 1;
    }
    if i == s.len() {
        Parsed::Incomplete
    } else {
        Parsed::Done(i, slice_to_vec(slice_subrange(s, 0, i)))
    }
}

/// An alphanumeric identifier in a complete input; see
/// `spec_ident_alphanum_complete`.
pub fn ident_alphanum_complete(s: &[u8]) -> (r: Parsed<Vec<u8>>)
    ensures
        r@ == spec_ident_alphanum_complete(s@),
        consumed_within(r, s@.len()),
{
    match ident_alphanum(s) {
        Parsed::Incomplete => Parsed::Done(s.len(), slice_to_vec(s)),
        other => other,
    }
}

/// A loose identifier `[A-Za-z0-9_%-]+`; see `spec_ident`.
pub fn ident(s: &[u8]) -> (r: Parsed<Vec<u8>>)
    ensures
        r@ == spec_ident(s@),
        consumed_within(r, s@.len()),
{
    if s.len() == 0 {
        return Parsed::Incomplete;
    }
    let mut i: usize = 0;
    while i < s.len()
        invariant
            i <= s@.len(),
            run_end(s@, i as int, ByteClass::IdentByte) == run_end(s@, 0, ByteClass::IdentByte),
        ensures
            run_end(s@, i as int, ByteClass::IdentByte) == i,
        decreases s@.len() - i,
    {
        if !is_ident_any_byte(s[i]) {
            break;
        }
        i = i + 1;
    }
    if i == 0 {
        Parsed::Error
    } else {
        Parsed::Done(i, slice_to_vec(slice_subrange(s, 0, i)))
    }
}

/// A loose identifier in a complete input; see `spec_ident_complete`.
pub fn ident_complete(s: &[u8]) -> (r: Parsed<Vec<u8>>)
    ensures
        r@ == spec_ident_complete(s@),
        consumed_within(r, s@.len()),
{
    match ident(s) {
        Parsed::Incomplete => Parsed::Done(s.len(), slice_to_vec(s)),
        other => other,
    }
}

} // verus!

verus! {

/// Whether two byte strings are equal.
pub fn bytes_eq(a: &[u8], b: &[u8]) -> (r: bool)
    ensures
        r == (a@ == b@),
{
    if a.len() != b.len() {
        return false;
    }
    let mut i: usize = 0;
    while i < a.len()
        invariant
            a@.len() == b@.len(),
            i <= a@.len(),
            a@.take(i as int) == b@.take(i as int),
        decreases a@.len() - i,
    {
        if a[i] != b[i] {
            return false;
        }
        assert(a@.take(i + 1) == a@.take(i as int).push(a@[i as int]));
        assert(b@.take(i + 1) == b@.take(i as int).push(b@[i as int]));
        i = i + 1;
    }
    assert(a@.take(i as int) == a@);
    assert(b@.take(i as int) == b@);
    true
}

} // verus!

verus! {

pub fn in_class_exec(c: ByteClass, b: u8) -> (r: bool)
    ensures
        r == in_class(c, b),
{
    match c {
        ByteClass::Digit => is_digit_byte(b),
        ByteClass::IdentAlphanum => is_ident_alphanum_byte(b),
        ByteClass::IdentByte => is_ident_any_byte(b),
        ByteClass::Not(x) => b != x,
    }
}

/// The end of the run of bytes of class `c` that starts at `start`.
pub fn scan(s: &[u8], start: usize, c: ByteClass) -> (r: usize)
    requires
        start <= s@.len(),
    ensures
        r == run_end(s@, start as int, c),
        start <= r <= s@.len(),
{
    let mut i: usize = start;
    while i < s.len()
        invariant
            start <= i <= s@.len(),
            run_end(s@, i as int, c) == run_end(s@, start as int, c),
        ensures
            run_end(s@, i as int, c) == i,
        decreases s@.len() - i,
    {
        if !in_class_exec(c, s[i]) {
            break;
        }
        i = i + 1;
    }
    i
}

/// A single literal byte.
pub fn byte_tag(s: &[u8], b: u8) -> (r: Parsed<()>)
    ensures
        r@ == spec_tag(s@, seq![b]),
        consumed_within(r, s@.len()),
{
    if s.len() == 0 {
        assert(seq![b].take(0) =~= s@);
        Parsed::Incomplete
    } else if s[0] == b {
        assert(s@.take(1) =~= seq![b]);
        Parsed::Done(1, ())
    } else {
        assert(s@.take(1)[0] != seq![b][0]);
        Parsed::Error
    }
}

/// The bytes up to the first `b`, which is consumed too. Where `b` is not
/// found, or the input is shorter than two bytes, more may come; where it
/// comes first, the result would be empty, which is an error.
pub open spec fn spec_take_until_and_consume1(s: Seq<u8>, b: u8) -> SpecParsed<Seq<u8>> {
    let j = run_end(s, 0, ByteClass::Not(b));
    if s.len() < 2 || j == s.len() {
        SpecParsed::Incomplete
    } else if j == 0 {
        SpecParsed::Error
    } else {
        SpecParsed::Done((j + 1) as nat, s.take(j))
    }
}

pub fn take_until_and_consume1(s: &[u8], b: u8) -> (r: Parsed<Vec<u8>>)
    ensures
        r@ == spec_take_until_and_consume1(s@, b),
        consumed_within(r, s@.len()),
{
    let j = scan(s, 0, ByteClass::Not(b));
    if s.len() < 2 || j == s.len() {
        Parsed::Incomplete
    } else if j == 0 {
        Parsed::Error
    } else {
        Parsed::Done(j + 1, slice_to_vec(slice_subrange(s, 0, j)))
    }
}

} // verus!
