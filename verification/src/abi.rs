//! Ethereum ABI encoding of contract calls: 32-byte words, dynamic byte
//! strings, arrays of byte strings, and parameter lists with their offsets.

use crate::address::Address;
use crate::uint::{limbs_value, U256};
use vstd::arithmetic::div_mod::{
    lemma_div_denominator, lemma_div_multiples_vanish_fancy, lemma_mod_multiples_vanish,
};
use vstd::prelude::*;
use vstd::string::StringSliceAdditionalSpecFns;

verus! {

/// 256 to the power `n`.
pub open spec fn pow256(n: nat) -> nat
    decreases n,
{
    if n == 0 {
        1
    } else {
        256 * pow256((n - 1) as nat)
    }
}

/// The big-endian value of a byte string.
pub open spec fn be_value(s: Seq<u8>) -> nat
    decreases s.len(),
{
    if s.len() == 0 {
        0
    } else {
        be_value(s.drop_last()) * 256 + s.last() as nat
    }
}

/// The 32-byte big-endian word of a value below 2^256.
pub open spec fn word(v: nat) -> Seq<u8> {
    Seq::new(32, |i: int| ((v / pow256((31 - i) as nat)) % 256) as u8)
}

proof fn lemma_pow256_pos(n: nat)
    ensures
        pow256(n) > 0,
    decreases n,
{
    if n > 0 {
        lemma_pow256_pos((n - 1) as nat);
    }
}

/// Each byte of a string is read back from its big-endian value.
pub proof fn lemma_be_bytes(s: Seq<u8>)
    ensures
        forall|i: int|
            0 <= i < s.len() ==> #[trigger] s[i] == ((be_value(s) / pow256((s.len() - 1 - i) as nat))
                % 256) as u8,
    decreases s.len(),
{
    if s.len() > 0 {
        let t = s.drop_last();
        lemma_be_bytes(t);
        let v = be_value(s);
        let vt = be_value(t);
        assert(v == 256 * vt + s.last() as nat);
        lemma_div_multiples_vanish_fancy(vt as int, s.last() as int, 256);
        lemma_mod_multiples_vanish(vt as int, s.last() as int, 256);
        assert(v / 256 == vt);
        assert(v % 256 == s.last() as nat);
        assert forall|i: int| 0 <= i < s.len() implies #[trigger] s[i] == ((be_value(s) / pow256(
            (s.len() - 1 - i) as nat,
        )) % 256) as u8 by {
            if i == s.len() - 1 {
                assert(pow256(0) == 1);
                assert(v / 1 == v);
            } else {
                let k = (s.len() - 2 - i) as nat;
                assert(t[i] == s[i]);
                assert(t[i] == ((vt / pow256(k)) % 256) as u8);
                lemma_pow256_pos(k);
                lemma_div_denominator(v as int, 256, pow256(k) as int);
                assert(pow256(k + 1) == 256 * pow256(k));
                assert((k + 1) as nat == (s.len() - 1 - i) as nat);
            }
        }
    }
}

/// A 32-byte string is the word of its big-endian value.
pub proof fn lemma_word_of_bytes(s: Seq<u8>)
    requires
        s.len() == 32,
    ensures
        s == word(be_value(s)),
{
    lemma_be_bytes(s);
    assert(s =~= word(be_value(s)));
}

/// The big-endian value of a concatenation.
pub proof fn lemma_be_value_append(a: Seq<u8>, b: Seq<u8>)
    ensures
        be_value(a + b) == be_value(a) * pow256(b.len()) + be_value(b),
    decreases b.len(),
{
    if b.len() == 0 {
        assert(a + b =~= a);
        assert(pow256(0) == 1);
        assert(be_value(b) == 0);
        assert(be_value(a) * 1 == be_value(a));
    } else {
        let c = a + b;
        assert(c.drop_last() =~= a + b.drop_last());
        lemma_be_value_append(a, b.drop_last());
        let p = pow256((b.len() - 1) as nat);
        assert(pow256(b.len()) == 256 * p);
        assert(c.last() == b.last());
        let x = be_value(a);
        let y = be_value(b.drop_last());
        assert(be_value(c) == (x * p + y) * 256 + b.last() as nat);
        assert(be_value(b) == y * 256 + b.last() as nat);
        assert((x * p + y) * 256 == x * (256 * p) + y * 256) by (nonlinear_arith);
        assert(be_value(c) == x * pow256(b.len()) + be_value(b));
    }
}

/// The eight big-endian bytes of a 64-bit value.
pub open spec fn be8(x: u64) -> Seq<u8> {
    seq![
        (x >> 56u64) as u8,
        (x >> 48u64) as u8,
        (x >> 40u64) as u8,
        (x >> 32u64) as u8,
        (x >> 24u64) as u8,
        (x >> 16u64) as u8,
        (x >> 8u64) as u8,
        x as u8,
    ]
}

proof fn lemma_be8(x: u64)
    ensures
        be_value(be8(x)) == x,
{
    let s = be8(x);
    reveal_with_fuel(be_value, 9);
    let s1 = s.drop_last();
    let s2 = s1.drop_last();
    let s3 = s2.drop_last();
    let s4 = s3.drop_last();
    let s5 = s4.drop_last();
    let s6 = s5.drop_last();
    let s7 = s6.drop_last();
    let s8 = s7.drop_last();
    assert(s8.len() == 0);
    assert(be_value(s) == be_value(s1) * 256 + s[7] as nat);
    assert(be_value(s1) == be_value(s2) * 256 + s[6] as nat);
    assert(be_value(s2) == be_value(s3) * 256 + s[5] as nat);
    assert(be_value(s3) == be_value(s4) * 256 + s[4] as nat);
    assert(be_value(s4) == be_value(s5) * 256 + s[3] as nat);
    assert(be_value(s5) == be_value(s6) * 256 + s[2] as nat);
    assert(be_value(s6) == be_value(s7) * 256 + s[1] as nat);
    assert(be_value(s7) == be_value(s8) * 256 + s[0] as nat);
    assert(x == (((((((((x >> 56u64) as u8) as u64 * 256 + ((x >> 48u64) as u8) as u64) * 256 + ((x
        >> 40u64) as u8) as u64) * 256 + ((x >> 32u64) as u8) as u64) * 256 + ((x >> 24u64) as u8)
        as u64) * 256 + ((x >> 16u64) as u8) as u64) * 256 + ((x >> 8u64) as u8) as u64) * 256 + (x
        as u8) as u64)) by (bit_vector);
}

/// Appends the eight big-endian bytes of a 64-bit value.
fn push_be8(x: u64, out: &mut Vec<u8>)
    ensures
        final(out)@ == old(out)@ + be8(x),
{
    out.push((x >> 56u64) as u8);
    out.push((x >> 48u64) as u8);
    out.push((x >> 40u64) as u8);
    out.push((x >> 32u64) as u8);
    out.push((x >> 24u64) as u8);
    out.push((x >> 16u64) as u8);
    out.push((x >> 8u64) as u8);
    out.push(x as u8);
    proof {
        assert(final(out)@ =~= old(out)@ + be8(x));
    }
}

/// Appends the ABI word of a 256-bit value.
pub fn push_u256_word(v: U256, out: &mut Vec<u8>)
    ensures
        final(out)@ == old(out)@ + word(v@),
{
    let ghost start = out@;
    push_be8(v.limbs[3], out);
    push_be8(v.limbs[2], out);
    push_be8(v.limbs[1], out);
    push_be8(v.limbs[0], out);
    proof {
        let l = v.limbs@;
        let w = be8(l[3]) + be8(l[2]) + be8(l[1]) + be8(l[0]);
        assert(final(out)@ =~= start + w);
        lemma_be8(l[0]);
        lemma_be8(l[1]);
        lemma_be8(l[2]);
        lemma_be8(l[3]);
        reveal_with_fuel(pow256, 9);
        assert(pow256(8) == 0x1_0000_0000_0000_0000nat);
        lemma_be_value_append(be8(l[3]), be8(l[2]));
        lemma_be_value_append(be8(l[3]) + be8(l[2]), be8(l[1]));
        lemma_be_value_append(be8(l[3]) + be8(l[2]) + be8(l[1]), be8(l[0]));
        let b: nat = 0x1_0000_0000_0000_0000nat;
        let x3 = l[3] as nat;
        let x2 = l[2] as nat;
        let x1 = l[1] as nat;
        let x0 = l[0] as nat;
        assert(be8(l[2]).len() == 8 && be8(l[1]).len() == 8 && be8(l[0]).len() == 8);
        assert(be_value(be8(l[3]) + be8(l[2])) == x3 * b + x2);
        assert(be_value(be8(l[3]) + be8(l[2]) + be8(l[1])) == (x3 * b + x2) * b + x1);
        assert(be_value(w) == ((x3 * b + x2) * b + x1) * b + x0);
        assert(((x3 * b + x2) * b + x1) * b + x0 == x0 + b * (x1 + b * (x2 + b * x3)))
            by (nonlinear_arith);
        assert(be_value(w) == limbs_value(l));
        lemma_word_of_bytes(w);
    }
}

/// An ABI word is 32 bytes long.
pub proof fn lemma_word_len(v: nat)
    ensures
        word(v).len() == 32,
{
}

/// `n` zero bytes.
pub open spec fn zeros(n: nat) -> Seq<u8> {
    Seq::new(n, |i: int| 0u8)
}

/// The ABI word of an address: twelve zero bytes, then the address.
pub open spec fn address_word(a: Seq<u8>) -> Seq<u8> {
    zeros(12) + a
}

/// The zero bytes that pad `n` bytes to a multiple of 32.
pub open spec fn pad_len(n: nat) -> nat {
    ((32 - (n % 32) as int) % 32) as nat
}

/// The ABI encoding of a dynamic byte string: its length as a word, the
/// bytes, and zero padding to a multiple of 32.
pub open spec fn encode_bytes(d: Seq<u8>) -> Seq<u8> {
    word(d.len()) + d + zeros(pad_len(d.len()))
}

/// The encodings of a list of byte strings, one after the other.
pub open spec fn bytes_tails(es: Seq<Seq<u8>>) -> Seq<u8>
    decreases es.len(),
{
    if es.len() == 0 {
        Seq::empty()
    } else {
        bytes_tails(es.drop_last()) + encode_bytes(es.last())
    }
}

/// The offset words of a list of byte strings, counted from `base`.
pub open spec fn bytes_heads(es: Seq<Seq<u8>>, base: nat) -> Seq<u8>
    decreases es.len(),
{
    if es.len() == 0 {
        Seq::empty()
    } else {
        bytes_heads(es.drop_last(), base) + word(base + bytes_tails(es.drop_last()).len())
    }
}

/// The ABI encoding of `bytes[]`: the element count, an offset word for
/// each element (counted from the first offset word), then the elements.
pub open spec fn encode_bytes_array(es: Seq<Seq<u8>>) -> Seq<u8> {
    word(es.len()) + bytes_heads(es, 32 * es.len()) + bytes_tails(es)
}

/// A value to encode, as plain bytes.
pub enum AbiValue {
    /// A static value, already as its 32-byte word.
    Word(Seq<u8>),
    /// `bytes`.
    Bytes(Seq<u8>),
    /// `bytes[]`.
    BytesArray(Seq<Seq<u8>>),
}

/// A value to encode.
#[derive(Clone, Debug, PartialEq, Eq)]
pub enum AbiToken {
    /// A static value, already as its 32-byte word.
    Word(Vec<u8>),
    /// `bytes`.
    Bytes(Vec<u8>),
    /// `bytes[]`.
    BytesArray(Vec<Vec<u8>>),
}

/// The byte strings of a list, as plain sequences.
pub open spec fn vecs_view(v: Seq<Vec<u8>>) -> Seq<Seq<u8>> {
    v.map_values(|x: Vec<u8>| x@)
}

impl View for AbiToken {
    type V = AbiValue;

    open spec fn view(&self) -> AbiValue {
        match self {
            AbiToken::Word(w) => AbiValue::Word(w@),
            AbiToken::Bytes(d) => AbiValue::Bytes(d@),
            AbiToken::BytesArray(es) => AbiValue::BytesArray(vecs_view(es@)),
        }
    }
}

/// The tokens of a list, as plain values.
pub open spec fn tokens_view(v: Seq<AbiToken>) -> Seq<AbiValue> {
    v.map_values(|t: AbiToken| t@)
}

/// Whether every static value is a 32-byte word.
pub open spec fn well_formed_values(ts: Seq<AbiValue>) -> bool {
    forall|i: int| 0 <= i < ts.len() ==> (#[trigger] ts[i] matches AbiValue::Word(w) ==> w.len() == 32)
}

/// The part of a value that follows the heads: nothing for a static value,
/// the encoding of a dynamic one.
pub open spec fn tail_of(t: AbiValue) -> Seq<u8> {
    match t {
        AbiValue::Word(_) => Seq::empty(),
        AbiValue::Bytes(d) => encode_bytes(d),
        AbiValue::BytesArray(es) => encode_bytes_array(es),
    }
}

/// The tails of a parameter list, one after the other.
pub open spec fn params_tails(ts: Seq<AbiValue>) -> Seq<u8>
    decreases ts.len(),
{
    if ts.len() == 0 {
        Seq::empty()
    } else {
        params_tails(ts.drop_last()) + tail_of(ts.last())
    }
}

/// The heads of a parameter list: a static value's word, or the offset of
/// a dynamic value's tail counted from the start of the list.
pub open spec fn params_heads(ts: Seq<AbiValue>, base: nat) -> Seq<u8>
    decreases ts.len(),
{
    if ts.len() == 0 {
        Seq::empty()
    } else {
        params_heads(ts.drop_last(), base) + match ts.last() {
            AbiValue::Word(w) => w,
            _ => word(base + params_tails(ts.drop_last()).len()),
        }
    }
}

/// The ABI encoding of a parameter list: all heads, then all tails.
pub open spec fn encode_params(ts: Seq<AbiValue>) -> Seq<u8> {
    params_heads(ts, 32 * ts.len()) + params_tails(ts)
}

/// The `i`-th 32-byte parameter word of calldata that starts with
/// `selector`: the head of the `i`-th parameter.
pub open spec fn call_word(data: Seq<u8>, selector: Seq<u8>, i: int) -> Seq<u8> {
    data.subrange(selector.len() + 32 * i, selector.len() + 32 * i + 32)
}

/// The heads of well-formed values take 32 bytes each, and the head of a
/// static value is its word.
pub proof fn lemma_params_heads(ts: Seq<AbiValue>, base: nat)
    requires
        well_formed_values(ts),
    ensures
        params_heads(ts, base).len() == 32 * ts.len(),
        forall|i: int|
            0 <= i < ts.len() ==> (#[trigger] ts[i] matches AbiValue::Word(w) ==> params_heads(
                ts,
                base,
            ).subrange(32 * i, 32 * i + 32) == w),
    decreases ts.len(),
{
    if ts.len() > 0 {
        let u = ts.drop_last();
        assert(well_formed_values(u)) by {
            assert forall|i: int| 0 <= i < u.len() implies (#[trigger] u[i] matches AbiValue::Word(w)
                ==> w.len() == 32) by {
                assert(u[i] == ts[i]);
            }
        }
        lemma_params_heads(u, base);
        let h = params_heads(u, base);
        let last = match ts.last() {
            AbiValue::Word(w) => w,
            _ => word(base + params_tails(u).len()),
        };
        assert(ts[ts.len() - 1] == ts.last());
        assert(last.len() == 32);
        assert(params_heads(ts, base) == h + last);
        assert forall|i: int| 0 <= i < ts.len() implies (#[trigger] ts[i] matches AbiValue::Word(w)
            ==> params_heads(ts, base).subrange(32 * i, 32 * i + 32) == w) by {
            if i < u.len() {
                assert(u[i] == ts[i]);
                assert((h + last).subrange(32 * i, 32 * i + 32) =~= h.subrange(32 * i, 32 * i + 32));
            } else {
                assert((h + last).subrange(32 * i, 32 * i + 32) =~= last);
            }
        }
    }
}

/// In calldata made of a selector and well-formed parameters, the word of
/// a static parameter stands at its place among the heads.
pub proof fn lemma_static_param(selector: Seq<u8>, ts: Seq<AbiValue>, i: int)
    requires
        well_formed_values(ts),
        0 <= i < ts.len(),
    ensures
        ts[i] matches AbiValue::Word(w) ==> call_word(selector + encode_params(ts), selector, i) == w,
{
    lemma_params_heads(ts, 32 * ts.len());
    let h = params_heads(ts, 32 * ts.len());
    let d = selector + encode_params(ts);
    assert(d =~= selector + (h + params_tails(ts)));
    assert(d.subrange(selector.len() + 32 * i, selector.len() + 32 * i + 32) =~= h.subrange(
        32 * i,
        32 * i + 32,
    ));
}

/// Appends bytes.
pub fn push_bytes(out: &mut Vec<u8>, data: &[u8])
    ensures
        final(out)@ == old(out)@ + data@,
{
    out.extend_from_slice(data);
    proof {
        assert(final(out)@ =~= old(out)@ + data@);
    }
}

/// Appends the ABI word of a value that fits in 128 bits.
pub fn push_word(v: u128, out: &mut Vec<u8>)
    ensures
        final(out)@ == old(out)@ + word(v as nat),
{
    push_u256_word(U256::from_u128(v), out);
}

/// The ABI word of a 256-bit value.
pub fn u256_word(v: U256) -> (r: Vec<u8>)
    ensures
        r@ == word(v@),
{
    let mut out: Vec<u8> = Vec::new();
    push_u256_word(v, &mut out);
    proof {
        assert(out@ =~= word(v@));
    }
    out
}

/// The ABI word of an address.
pub fn address_word_of(a: Address) -> (r: Vec<u8>)
    ensures
        r@ == address_word(a@),
{
    let mut out: Vec<u8> = Vec::new();
    let mut i: usize = 0;
    while i < 12
        invariant
            i <= 12,
            out@ == zeros(i as nat),
        decreases 12 - i,
    {
        out.push(0u8);
        proof {
            assert(out@ =~= zeros((i + 1) as nat));
        }
        i = i + 1;
    }
    push_bytes(&mut out, &a.bytes);
    proof {
        assert(out@ =~= address_word(a@));
    }
    out
}

/// Appends the ABI encoding of a dynamic byte string.
pub fn push_encoded_bytes(d: &[u8], out: &mut Vec<u8>)
    ensures
        final(out)@ == old(out)@ + encode_bytes(d@),
{
    let ghost start = out@;
    push_word(d.len() as u128, out);
    push_bytes(out, d);
    let pad: usize = (32 - d.len() % 32) % 32;
    let mut i: usize = 0;
    let ghost mid = out@;
    while i < pad
        invariant
            i <= pad,
            out@ == mid + zeros(i as nat),
        decreases pad - i,
    {
        out.push(0u8);
        proof {
            assert(out@ =~= mid + zeros((i + 1) as nat));
        }
        i = i + 1;
    }
    proof {
        assert(pad as nat == pad_len(d@.len()));
        assert(out@ =~= start + encode_bytes(d@));
    }
}

/// Appends the ABI encoding of `bytes[]`.
pub fn push_encoded_bytes_array(es: &Vec<Vec<u8>>, out: &mut Vec<u8>)
    ensures
        final(out)@ == old(out)@ + encode_bytes_array(vecs_view(es@)),
{
    let ghost start = out@;
    let ghost ev = vecs_view(es@);
    let n = es.len();
    let base: u128 = 32 * (n as u128);
    let mut heads: Vec<u8> = Vec::new();
    let mut tails: Vec<u8> = Vec::new();
    let mut i: usize = 0;
    while i < n
        invariant
            n == es@.len(),
            ev == vecs_view(es@),
            base == 32 * n,
            i <= n,
            heads@ == bytes_heads(ev.take(i as int), base as nat),
            tails@ == bytes_tails(ev.take(i as int)),
        decreases n - i,
    {
        proof {
            let p = ev.take(i + 1);
            assert(p.drop_last() =~= ev.take(i as int));
            assert(p.last() == es@[i as int]@);
        }
        push_word(base + tails.len() as u128, &mut heads);
        push_encoded_bytes(es[i].as_slice(), &mut tails);
        i = i + 1;
    }
    proof {
        assert(ev.take(n as int) =~= ev);
    }
    push_word(n as u128, out);
    push_bytes(out, heads.as_slice());
    push_bytes(out, tails.as_slice());
    proof {
        assert(out@ =~= start + encode_bytes_array(ev));
    }
}

/// The ABI encoding of a parameter list: the heads of all values, then the
/// tails of the dynamic ones.
pub fn encode_params_exec(tokens: &Vec<AbiToken>) -> (r: Vec<u8>)
    requires
        well_formed_values(tokens_view(tokens@)),
    ensures
        r@ == encode_params(tokens_view(tokens@)),
{
    let ghost tv = tokens_view(tokens@);
    let n = tokens.len();
    let base: u128 = 32 * (n as u128);
    let mut heads: Vec<u8> = Vec::new();
    let mut tails: Vec<u8> = Vec::new();
    let mut i: usize = 0;
    while i < n
        invariant
            n == tokens@.len(),
            tv == tokens_view(tokens@),
            well_formed_values(tv),
            base == 32 * n,
            i <= n,
            heads@ == params_heads(tv.take(i as int), base as nat),
            tails@ == params_tails(tv.take(i as int)),
        decreases n - i,
    {
        proof {
            let p = tv.take(i + 1);
            assert(p.drop_last() =~= tv.take(i as int));
            assert(p.last() == tokens@[i as int]@);
        }
        match &tokens[i] {
            AbiToken::Word(w) => {
                push_bytes(&mut heads, w.as_slice());
            },
            AbiToken::Bytes(d) => {
                push_word(base + tails.len() as u128, &mut heads);
                push_encoded_bytes(d.as_slice(), &mut tails);
            },
            AbiToken::BytesArray(es) => {
                push_word(base + tails.len() as u128, &mut heads);
                push_encoded_bytes_array(es, &mut tails);
            },
        }
        i = i + 1;
    }
    proof {
        assert(tv.take(n as int) =~= tv);
    }
    let mut out: Vec<u8> = Vec::new();
    push_bytes(&mut out, heads.as_slice());
    push_bytes(&mut out, tails.as_slice());
    proof {
        assert(out@ =~= encode_params(tv));
    }
    out
}

/// A name for the Keccak-256 hash of a byte string.
pub uninterp spec fn keccak256_spec(data: Seq<u8>) -> Seq<u8>;

/// `alloy::primitives::keccak256`: the 32-byte Keccak-256 hash of the bytes.
/// The contract only names the result; it says nothing of its bytes.
#[verifier::external_body]
pub(crate) fn keccak256(data: &[u8]) -> (r: [u8; 32])
    ensures
        r@ == keccak256_spec(data@),
{
    alloy::primitives::keccak256(data).0
}

/// The four-byte selector of a function: the start of the Keccak-256 hash
/// of its canonical signature.
pub open spec fn selector_of(signature: Seq<u8>) -> Seq<u8> {
    keccak256_spec(signature).take(4)
}

/// The selector of the function with the given canonical signature.
pub fn function_selector(signature: &str) -> (r: Vec<u8>)
    ensures
        r@ == selector_of(signature.spec_bytes()),
{
    let h = keccak256(signature.as_bytes());
    let mut out: Vec<u8> = Vec::new();
    let mut i: usize = 0;
    while i < 4
        invariant
            i <= 4,
            h@.len() == 32,
            out@ == h@.take(i as int),
        decreases 4 - i,
    {
        out.push(h[i]);
        proof {
            assert(out@ =~= h@.take(i + 1));
        }
        i = i + 1;
    }
    out
}

/// The calldata of a call: the selector, then the encoded parameters.
pub fn encode_call(selector: &[u8], tokens: &Vec<AbiToken>) -> (r: Vec<u8>)
    requires
        well_formed_values(tokens_view(tokens@)),
    ensures
        r@ == selector@ + encode_params(tokens_view(tokens@)),
{
    let mut out: Vec<u8> = Vec::new();
    push_bytes(&mut out, selector);
    let params = encode_params_exec(tokens);
    push_bytes(&mut out, params.as_slice());
    proof {
        assert(out@ =~= selector@ + encode_params(tokens_view(tokens@)));
    }
    out
}

} // verus!
