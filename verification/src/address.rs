//! 160-bit addresses and 256-bit hashes held as plain bytes, with the text
//! forms that `primitive_types::H160` prints.

use crate::text::{
    all_hex_digits, byte_hex, bytes_hex, hex_pairs, is_hex_digit, push_byte_hex, string_of, strip_0x,
};
use vstd::prelude::*;

verus! {

/// A 20-byte account or contract address, big-endian, the layout of
/// `primitive_types::H160`.
#[derive(Clone, Copy, Debug, PartialEq, Eq, Hash)]
pub struct Address {
    pub bytes: [u8; 20],
}

impl View for Address {
    type V = Seq<u8>;

    open spec fn view(&self) -> Seq<u8> {
        self.bytes@
    }
}

/// A 32-byte hash, the layout of `primitive_types::H256`.
#[derive(Clone, Copy, Debug, PartialEq, Eq, Hash)]
pub struct H256 {
    pub bytes: [u8; 32],
}

impl View for H256 {
    type V = Seq<u8>;

    open spec fn view(&self) -> Seq<u8> {
        self.bytes@
    }
}

/// The bytes of `from_low_u64_be(v)`: twelve zero bytes, then `v` big-endian.
pub open spec fn low_u64_be_bytes(v: u64) -> Seq<u8> {
    Seq::new(20, |i: int| if i < 12 { 0u8 } else { (v >> ((19 - i) * 8) as u64) as u8 })
}

/// The text of `{:#x}`: "0x" then two lower-case hexadecimal digits a byte.
pub open spec fn address_lower_hex(a: Seq<u8>) -> Seq<char> {
    seq!['0', 'x'] + bytes_hex(a)
}

impl Address {
    /// The zero address.
    pub fn zero() -> (r: Address)
        ensures
            r@ == Seq::new(20, |i: int| 0u8),
    {
        let r = Address { bytes: [0u8; 20] };
        proof {
            assert(r@ =~= Seq::new(20, |i: int| 0u8));
        }
        r
    }

    /// The address whose last eight bytes hold `v` big-endian.
    pub fn from_low_u64_be(v: u64) -> (r: Address)
        ensures
            r@ == low_u64_be_bytes(v),
    {
        let r = Address {
            bytes: [
                0u8, 0u8, 0u8, 0u8, 0u8, 0u8, 0u8, 0u8, 0u8, 0u8, 0u8, 0u8,
                (v >> 56u64) as u8, (v >> 48u64) as u8, (v >> 40u64) as u8, (v >> 32u64) as u8,
                (v >> 24u64) as u8, (v >> 16u64) as u8, (v >> 8u64) as u8, (v >> 0u64) as u8,
            ],
        };
        proof {
            assert(r@ =~= low_u64_be_bytes(v));
        }
        r
    }

    /// The address made of exactly twenty bytes; `H160::from_slice` panics on
    /// any other length.
    pub fn from_slice(src: &[u8]) -> (r: Address)
        requires
            src@.len() == 20,
        ensures
            r@ == src@,
    {
        let mut bytes = [0u8; 20];
        let mut i: usize = 0;
        while i < 20
            invariant
                src@.len() == 20,
                i <= 20,
                forall|j: int| 0 <= j < i ==> bytes@[j] == src@[j],
            decreases 20 - i,
        {
            bytes[i] = src[i];
            i = i + 1;
        }
        let r = Address { bytes };
        proof {
            assert(r@ =~= src@);
        }
        r
    }

    /// Whether both addresses hold the same bytes.
    pub fn same(&self, other: &Address) -> (r: bool)
        ensures
            r == (self@ == other@),
    {
        let mut i: usize = 0;
        while i < 20
            invariant
                i <= 20,
                forall|j: int| 0 <= j < i ==> self.bytes@[j] == other.bytes@[j],
            decreases 20 - i,
        {
            if self.bytes[i] != other.bytes[i] {
                return false;
            }
            i = i + 1;
        }
        proof {
            assert(self@ =~= other@);
        }
        true
    }

    /// The address as `{:#x}` prints it: "0x" and forty lower-case digits.
    pub fn to_lower_hex(&self) -> (r: String)
        ensures
            r@ == address_lower_hex(self@),
    {
        let mut out: Vec<char> = Vec::new();
        out.push('0');
        out.push('x');
        let mut i: usize = 0;
        while i < 20
            invariant
                i <= 20,
                out@ == seq!['0', 'x'] + bytes_hex(self@.subrange(0, i as int)),
            decreases 20 - i,
        {
            push_byte_hex(self.bytes[i], &mut out);
            proof {
                let p = self@.subrange(0, i + 1);
                assert(p.drop_last() =~= self@.subrange(0, i as int));
                assert(out@ =~= seq!['0', 'x'] + bytes_hex(p));
            }
            i = i + 1;
        }
        proof {
            assert(self@.subrange(0, 20) =~= self@);
        }
        string_of(out.as_slice())
    }
}

impl H256 {
    /// The zero hash.
    pub fn zero() -> (r: H256)
        ensures
            r@ == Seq::new(32, |i: int| 0u8),
    {
        let r = H256 { bytes: [0u8; 32] };
        proof {
            assert(r@ =~= Seq::new(32, |i: int| 0u8));
        }
        r
    }
}

/// The whitespace that hexadecimal address text may hold anywhere.
pub open spec fn is_hex_space(c: char) -> bool {
    c == ' ' || c == '\r' || c == '\n' || c == '\t'
}

/// Reading an address as `H160`'s `FromStr` does: after an optional "0x",
/// hexadecimal digits and whitespace only, with exactly forty digits, read
/// in pairs as the twenty bytes.
pub open spec fn h160_parse(s: Seq<char>) -> Option<Seq<u8>> {
    let t = strip_0x(s);
    let d = t.filter(|c: char| !is_hex_space(c));
    if (forall|i: int| 0 <= i < t.len() ==> is_hex_digit(#[trigger] t[i]) || is_hex_space(t[i]))
        && d.len() == 40 {
        Some(hex_pairs(d))
    } else {
        None
    }
}

/// `H160`'s `FromStr`: the address that hexadecimal text names (see
/// `h160_parse`), or `None`.
#[verifier::external_body]
pub(crate) fn parse_h160(s: &str) -> (r: Option<Address>)
    ensures
        match r {
            Some(a) => h160_parse(s@) == Some(a@),
            None => h160_parse(s@) is None,
        },
{
    match <primitive_types::H160 as std::str::FromStr>::from_str(s) {
        Ok(h) => Some(Address { bytes: h.0 }),
        Err(_) => None,
    }
}

/// A sequence whose every element passes the predicate is its own filter.
proof fn lemma_filter_keeps_all(t: Seq<char>, pred: spec_fn(char) -> bool)
    requires
        forall|i: int| 0 <= i < t.len() ==> pred(#[trigger] t[i]),
    ensures
        t.filter(pred) == t,
    decreases t.len(),
{
    reveal(Seq::filter);
    if t.len() > 0 {
        let u = t.drop_last();
        assert forall|i: int| 0 <= i < u.len() implies pred(#[trigger] u[i]) by {
            assert(u[i] == t[i]);
        }
        lemma_filter_keeps_all(u, pred);
        assert(u.push(t.last()) =~= t);
    }
}

/// Text of "0x" and forty hexadecimal digits names the address whose bytes
/// are the digit pairs.
pub proof fn lemma_h160_plain(s: Seq<char>)
    requires
        s.len() == 42,
        s[0] == '0',
        s[1] == 'x',
        all_hex_digits(s.skip(2)),
    ensures
        h160_parse(s) == Some(hex_pairs(s.skip(2))),
{
    let t = s.skip(2);
    assert(strip_0x(s) == t);
    assert forall|i: int| 0 <= i < t.len() implies (|c: char| !is_hex_space(c))(#[trigger] t[i]) by {
        assert(is_hex_digit(t[i]));
    }
    lemma_filter_keeps_all(t, |c: char| !is_hex_space(c));
}

} // verus!
