//! Node hashes: 20-byte identifiers, written on the wire as 40 lowercase
//! hexadecimal digits.
use vstd::prelude::*;
use crate::kernel::{consumed_within, spec_take};
use crate::parsed::{Parsed, SpecParsed};

verus! {

/// The value of a lowercase hexadecimal digit.
pub open spec fn hex_value(b: u8) -> Option<u8> {
    if 48 <= b <= 57 {
        Some((b - 48) as u8)
    } else if 97 <= b <= 102 {
        Some((b - 87) as u8)
    } else {
        None
    }
}

/// Forty lowercase hexadecimal digits.
pub open spec fn is_hash_hex(s: Seq<u8>) -> bool {
    s.len() == 40 && forall|i: int| 0 <= i < 40 ==> (#[trigger] hex_value(s[i])) is Some
}

/// The bytes that the digit pairs of `s` stand for, high digit first.
pub open spec fn hex_bytes(s: Seq<u8>) -> Seq<u8> {
    Seq::new(
        s.len() / 2,
        |i: int| (hex_value(s[2 * i]).unwrap() * 16 + hex_value(s[2 * i + 1]).unwrap()) as u8,
    )
}

/// A node hash at the start of `s`: 40 digits, `Incomplete` while fewer
/// bytes are there.
pub open spec fn spec_nodehash(s: Seq<u8>) -> SpecParsed<Seq<u8>> {
    match spec_take(s, 40) {
        SpecParsed::Done(n, h) => if is_hash_hex(h) {
            SpecParsed::Done(n, hex_bytes(h))
        } else {
            SpecParsed::Error
        },
        other => other.map_value(|h: Seq<u8>| hex_bytes(h)),
    }
}

/// A 20-byte node identifier.
#[derive(Debug, Clone, PartialEq, Eq, Hash)]
pub struct HgNodeHash {
    bytes: Vec<u8>,
}

impl View for HgNodeHash {
    type V = Seq<u8>;

    closed spec fn view(&self) -> Seq<u8> {
        self.bytes@
    }
}

fn hex_value_exec(b: u8) -> (r: Option<u8>)
    ensures
        r == hex_value(b),
{
    if 48 <= b && b <= 57 {
        Some(b - 48)
    } else if 97 <= b && b <= 102 {
        Some(b - 87)
    } else {
        None
    }
}

impl HgNodeHash {
    /// The hash that 40 lowercase hexadecimal digits write, if `s` is that.
    pub fn from_hex(s: &[u8]) -> (r: Option<HgNodeHash>)
        ensures
            r is Some <==> is_hash_hex(s@),
            r matches Some(h) ==> h@ == hex_bytes(s@),
    {
        if s.len() != 40 {
            return None;
        }
        let mut bytes: Vec<u8> = Vec::new();
        let mut i: usize = 0;
        while i < 20
            invariant
                s@.len() == 40,
                i <= 20,
                bytes@ == hex_bytes(s@).take(i as int),
                forall|j: int| 0 <= j < 2 * i ==> (#[trigger] hex_value(s@[j])) is Some,
            decreases 20 - i,
        {
            let hi = hex_value_exec(s[2 * i]);
            let lo = hex_value_exec(s[2 * i + 1]);
            match (hi, lo) {
                (Some(h), Some(l)) => {
                    proof {
                        assert forall|j: int| 0 <= j < 2 * (i + 1) implies (#[trigger] hex_value(s@[j])) is Some by {
                            if j == 2 * i || j == 2 * i + 1 {
                            }
                        }
                    }
                    bytes.push(h * 16 + l);
                    assert(bytes@ =~= hex_bytes(s@).take(i + 1));
                    i = i + 1;
                },
                _ => {
                    return None;
                },
            }
        }
        assert(bytes@ =~= hex_bytes(s@));
        Some(HgNodeHash { bytes })
    }

    /// The 20 bytes of the hash.
    pub fn as_bytes(&self) -> (r: &[u8])
        ensures
            r@ == self@,
    {
        self.bytes.as_slice()
    }
}

/// A node hash; see `spec_nodehash`.
pub fn nodehash(s: &[u8]) -> (r: Parsed<HgNodeHash>)
    ensures
        r@ == spec_nodehash(s@),
        consumed_within(r, s@.len()),
{
    if s.len() < 40 {
        return Parsed::Incomplete;
    }
    let h = vstd::slice::slice_subrange(s, 0, 40);
    match HgNodeHash::from_hex(h) {
        Some(hash) => Parsed::Done(40, hash),
        None => Parsed::Error,
    }
}

} // verus!
