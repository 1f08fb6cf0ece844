//! Specifications of decimal and hexadecimal text, and verified helpers that
//! produce and compare such text.

use vstd::prelude::*;

verus! {

/// The character of a decimal or lower-case hexadecimal digit `d < 16`.
pub open spec fn digit_char(d: nat) -> char {
    if d < 10 {
        (48 + d) as char
    } else {
        (87 + d) as char
    }
}

/// Whether `c` is one of `0`..`9`.
pub open spec fn is_dec_digit(c: char) -> bool {
    '0' <= c && c <= '9'
}

/// The value of a decimal digit character.
pub open spec fn dec_digit_value(c: char) -> nat {
    (c as int - 48) as nat
}

/// Whether every character of `s` is a decimal digit.
pub open spec fn all_dec_digits(s: Seq<char>) -> bool {
    forall|i: int| 0 <= i < s.len() ==> is_dec_digit(#[trigger] s[i])
}

/// The value of a string of decimal digits, most significant first; the
/// empty string is zero.
pub open spec fn dec_value(s: Seq<char>) -> nat
    decreases s.len(),
{
    if s.len() == 0 {
        0
    } else {
        dec_value(s.drop_last()) * 10 + dec_digit_value(s.last())
    }
}

/// Whether `c` is a hexadecimal digit of either case.
pub open spec fn is_hex_digit(c: char) -> bool {
    ('0' <= c && c <= '9') || ('a' <= c && c <= 'f') || ('A' <= c && c <= 'F')
}

/// The value of a hexadecimal digit character of either case.
pub open spec fn hex_digit_value(c: char) -> nat {
    if '0' <= c && c <= '9' {
        (c as int - 48) as nat
    } else if 'a' <= c && c <= 'f' {
        (c as int - 87) as nat
    } else {
        (c as int - 55) as nat
    }
}

/// Whether every character of `s` is a hexadecimal digit.
pub open spec fn all_hex_digits(s: Seq<char>) -> bool {
    forall|i: int| 0 <= i < s.len() ==> is_hex_digit(#[trigger] s[i])
}

/// The value of a string of hexadecimal digits, most significant first; the
/// empty string is zero.
pub open spec fn hex_value(s: Seq<char>) -> nat
    decreases s.len(),
{
    if s.len() == 0 {
        0
    } else {
        hex_value(s.drop_last()) * 16 + hex_digit_value(s.last())
    }
}

/// The decimal representation of `n`, without leading zeros ("0" for zero).
pub open spec fn nat_to_decimal(n: nat) -> Seq<char>
    decreases n,
{
    if n < 10 {
        seq![digit_char(n)]
    } else {
        nat_to_decimal(n / 10) + seq![digit_char(n % 10)]
    }
}

/// The two lower-case hexadecimal characters of a byte.
pub open spec fn byte_hex(b: u8) -> Seq<char> {
    seq![digit_char((b / 16) as nat), digit_char((b % 16) as nat)]
}

/// The lower-case hexadecimal text of a byte string, two characters a byte.
pub open spec fn bytes_hex(bs: Seq<u8>) -> Seq<char>
    decreases bs.len(),
{
    if bs.len() == 0 {
        Seq::empty()
    } else {
        bytes_hex(bs.drop_last()) + byte_hex(bs.last())
    }
}

/// `s` without a leading "0x", if it has one.
pub open spec fn strip_0x(s: Seq<char>) -> Seq<char> {
    if s.len() >= 2 && s[0] == '0' && s[1] == 'x' {
        s.skip(2)
    } else {
        s
    }
}

/// `s` without a leading "0x" or "0X", if it has one.
pub open spec fn strip_hex_prefix(s: Seq<char>) -> Seq<char> {
    if s.len() >= 2 && s[0] == '0' && (s[1] == 'x' || s[1] == 'X') {
        s.skip(2)
    } else {
        s
    }
}

/// The bytes that pairs of hexadecimal digits stand for.
pub open spec fn hex_pairs(t: Seq<char>) -> Seq<u8> {
    Seq::new(
        t.len() / 2,
        |i: int| (hex_digit_value(t[2 * i]) * 16 + hex_digit_value(t[2 * i + 1])) as u8,
    )
}

/// Hex decoding as `const_hex::decode` does it: the whole input must have an
/// even length; after an optional "0x"/"0X" prefix every character must be a
/// hexadecimal digit; each pair of digits gives one byte.
pub open spec fn hex_decode(s: Seq<char>) -> Option<Seq<u8>> {
    let t = strip_hex_prefix(s);
    if s.len() % 2 == 0 && all_hex_digits(t) {
        Some(hex_pairs(t))
    } else {
        None
    }
}

/// `str::chars`, collected into a vector: the characters of the string, in
/// order.
#[verifier::external_body]
pub(crate) fn chars_of(s: &str) -> (r: Vec<char>)
    ensures
        r@ == s@,
{
    s.chars().collect()
}

/// `String`'s `FromIterator<char>`: the string made of the given
/// characters, in order.
#[verifier::external_body]
pub(crate) fn string_of(v: &[char]) -> (r: String)
    ensures
        r@ == v@,
{
    v.iter().collect()
}

/// The lower-case hexadecimal character of a digit below 16.
pub fn digit_to_char(d: u8) -> (c: char)
    requires
        d < 16,
    ensures
        c == digit_char(d as nat),
{
    if d < 10 {
        (48u8 + d) as char
    } else {
        (87u8 + d) as char
    }
}

/// Appends the decimal representation of `n`.
pub fn push_decimal(n: u128, out: &mut Vec<char>)
    ensures
        final(out)@ == old(out)@ + nat_to_decimal(n as nat),
    decreases n,
{
    if n >= 10 {
        push_decimal(n / 10, out);
    }
    let d = (n % 10) as u8;
    out.push(digit_to_char(d));
    proof {
        if n >= 10 {
            assert(nat_to_decimal(n as nat) == nat_to_decimal((n / 10) as nat) + seq![
                digit_char((n % 10) as nat),
            ]);
        }
    }
}

/// The decimal representation of an unsigned integer.
pub fn format_u128(n: u128) -> (r: String)
    ensures
        r@ == nat_to_decimal(n as nat),
{
    let mut v: Vec<char> = Vec::new();
    push_decimal(n, &mut v);
    proof {
        assert(v@ =~= nat_to_decimal(n as nat));
    }
    string_of(v.as_slice())
}

/// The decimal representation of a signed integer, with a leading '-' for
/// negative values.
pub open spec fn int_to_decimal(x: int) -> Seq<char> {
    if x < 0 {
        seq!['-'] + nat_to_decimal((-x) as nat)
    } else {
        nat_to_decimal(x as nat)
    }
}

/// The decimal representation of a signed integer, as `{}` formats it.
pub fn format_i64(x: i64) -> (r: String)
    ensures
        r@ == int_to_decimal(x as int),
{
    let mut v: Vec<char> = Vec::new();
    if x < 0 {
        v.push('-');
        let m: u128 = (0i128 - (x as i128)) as u128;
        push_decimal(m, &mut v);
    } else {
        push_decimal(x as u128, &mut v);
    }
    proof {
        assert(v@ =~= int_to_decimal(x as int));
    }
    string_of(v.as_slice())
}

/// Appends the two lower-case hexadecimal characters of a byte.
pub fn push_byte_hex(b: u8, out: &mut Vec<char>)
    ensures
        final(out)@ == old(out)@ + byte_hex(b),
{
    out.push(digit_to_char(b / 16));
    out.push(digit_to_char(b % 16));
    proof {
        assert(final(out)@ =~= old(out)@ + byte_hex(b));
    }
}

/// Whether two strings hold the same characters.
pub fn str_eq(a: &str, b: &str) -> (r: bool)
    ensures
        r == (a@ == b@),
{
    let x = chars_of(a);
    let y = chars_of(b);
    if x.len() != y.len() {
        return false;
    }
    let mut i: usize = 0;
    while i < x.len()
        invariant
            x@ == a@,
            y@ == b@,
            x.len() == y.len(),
            i <= x.len(),
            forall|j: int| 0 <= j < i ==> x@[j] == y@[j],
        decreases x.len() - i,
    {
        if x[i] != y[i] {
            return false;
        }
        i = i + 1;
    }
    proof {
        assert(x@ =~= y@);
    }
    true
}


/// `s` with every leading "0x" removed, as `str::trim_start_matches("0x")`
/// does it.
pub open spec fn trim_all_0x(s: Seq<char>) -> Seq<char>
    decreases s.len(),
{
    if s.len() >= 2 && s[0] == '0' && s[1] == 'x' {
        trim_all_0x(s.skip(2))
    } else {
        s
    }
}

/// Removes every leading "0x" from a string.
pub fn trim_start_0x(s: &str) -> (r: String)
    ensures
        r@ == trim_all_0x(s@),
{
    let v = chars_of(s);
    let mut i: usize = 0;
    proof {
        assert(v@.skip(0) =~= v@);
    }
    while i + 1 < v.len() && v[i] == '0' && v[i + 1] == 'x'
        invariant
            v@ == s@,
            i <= v.len(),
            i % 2 == 0,
            trim_all_0x(s@) == trim_all_0x(v@.skip(i as int)),
        decreases v.len() - i,
    {
        proof {
            assert(v@.skip(i as int).skip(2) =~= v@.skip(i + 2));
        }
        i = i + 2;
    }
    let mut out: Vec<char> = Vec::new();
    let mut j: usize = i;
    while j < v.len()
        invariant
            i <= j <= v.len(),
            out@ == v@.subrange(i as int, j as int),
        decreases v.len() - j,
    {
        out.push(v[j]);
        proof {
            assert(out@ =~= v@.subrange(i as int, j + 1));
        }
        j = j + 1;
    }
    proof {
        assert(out@ =~= v@.skip(i as int));
        let t = v@.skip(i as int);
        if t.len() >= 2 {
            assert(t[0] == v@[i as int] && t[1] == v@[i + 1]);
        }
    }
    string_of(out.as_slice())
}

/// `s` without one leading "0x", as `str::strip_prefix("0x").unwrap_or(s)`
/// gives it.
pub fn strip_0x_str(s: &str) -> (r: String)
    ensures
        r@ == strip_0x(s@),
{
    let v = chars_of(s);
    let start: usize = if v.len() >= 2 && v[0] == '0' && v[1] == 'x' { 2 } else { 0 };
    let mut out: Vec<char> = Vec::new();
    let mut j: usize = start;
    while j < v.len()
        invariant
            start <= j <= v.len(),
            out@ == v@.subrange(start as int, j as int),
        decreases v.len() - j,
    {
        out.push(v[j]);
        proof {
            assert(out@ =~= v@.subrange(start as int, j + 1));
        }
        j = j + 1;
    }
    proof {
        assert(out@ =~= v@.skip(start as int));
        assert(v@.skip(0) =~= v@);
    }
    string_of(out.as_slice())
}

/// `const_hex::decode`: the bytes that a hexadecimal string stands for (see
/// `hex_decode`), or the text of the decoding error. What the error text
/// says is not stated.
#[verifier::external_body]
pub(crate) fn decode_hex(s: &str) -> (r: Result<Vec<u8>, String>)
    ensures
        match r {
            Ok(v) => hex_decode(s@) == Some(v@),
            Err(_) => hex_decode(s@) is None,
        },
{
    match const_hex::decode(s) {
        Ok(v) => Ok(v),
        Err(e) => Err(e.to_string()),
    }
}

/// Reading a `u64` as `str::parse::<u64>` does: an optional '+', then at
/// least one decimal digit and nothing else, with a value that fits.
pub open spec fn parse_u64_spec(s: Seq<char>) -> Option<u64> {
    let d = if s.len() >= 1 && s[0] == '+' {
        s.skip(1)
    } else {
        s
    };
    if d.len() > 0 && all_dec_digits(d) && dec_value(d) <= u64::MAX {
        Some(dec_value(d) as u64)
    } else {
        None
    }
}

/// A prefix of a decimal string never has a larger value than the string.
pub proof fn lemma_dec_value_prefix(d: Seq<char>, i: int)
    requires
        0 <= i <= d.len(),
    ensures
        dec_value(d.subrange(0, i)) <= dec_value(d),
    decreases d.len() - i,
{
    if i < d.len() {
        lemma_dec_value_prefix(d, i + 1);
        let p = d.subrange(0, i + 1);
        assert(p.drop_last() =~= d.subrange(0, i));
    } else {
        assert(d.subrange(0, i) =~= d);
    }
}

/// Reads an unsigned 64-bit integer as `str::parse::<u64>` does.
pub fn parse_u64(s: &str) -> (r: Option<u64>)
    ensures
        r == parse_u64_spec(s@),
{
    let v = chars_of(s);
    let start: usize = if v.len() >= 1 && v[0] == '+' { 1 } else { 0 };
    let ghost d = if s@.len() >= 1 && s@[0] == '+' {
        s@.skip(1)
    } else {
        s@
    };
    proof {
        assert(d =~= v@.skip(start as int));
    }
    if start >= v.len() {
        return None;
    }
    let mut acc: u64 = 0;
    let mut i: usize = start;
    while i < v.len()
        invariant
            v@ == s@,
            start <= i <= v.len(),
            d == v@.skip(start as int),
            d == (if s@.len() >= 1 && s@[0] == '+' {
                s@.skip(1)
            } else {
                s@
            }),
            all_dec_digits(v@.subrange(start as int, i as int)),
            acc == dec_value(v@.subrange(start as int, i as int)),
        decreases v.len() - i,
    {
        let c = v[i];
        if !('0' <= c && c <= '9') {
            proof {
                assert(d[i - start] == c);
                assert(!is_dec_digit(d[i - start]));
                assert(!all_dec_digits(d));
            }
            return None;
        }
        let digit = (c as u32 - 48) as u64;
        let ghost p = v@.subrange(start as int, i + 1);
        proof {
            assert(p.drop_last() =~= v@.subrange(start as int, i as int));
            assert(p =~= d.subrange(0, i + 1 - start));
        }
        if acc > (u64::MAX - digit) / 10 {
            proof {
                assert(dec_value(p) == acc * 10 + digit);
                assert(acc * 10 + digit > u64::MAX) by (nonlinear_arith)
                    requires
                        acc > (u64::MAX - digit) / 10,
                        digit <= 9,
                ;
                assert(dec_value(p) > u64::MAX);
                if all_dec_digits(d) {
                    lemma_dec_value_prefix(d, i + 1 - start);
                }
            }
            return None;
        }
        acc = acc * 10 + digit;
        i = i + 1;
    }
    proof {
        assert(v@.subrange(start as int, v@.len() as int) =~= d);
    }
    Some(acc)
}

/// Different digits below 16 have different characters.
pub proof fn lemma_digit_char_injective(a: nat, b: nat)
    requires
        a < 16,
        b < 16,
        digit_char(a) == digit_char(b),
    ensures
        a == b,
{
    let ca = if a < 10 { 48 + a } else { 87 + a };
    let cb = if b < 10 { 48 + b } else { 87 + b };
    assert(digit_char(a) as int == ca);
    assert(digit_char(b) as int == cb);
}

/// Reading the decimal text of a number gives the number back.
pub proof fn lemma_nat_to_decimal_value(n: nat)
    ensures
        all_dec_digits(nat_to_decimal(n)),
        dec_value(nat_to_decimal(n)) == n,
    decreases n,
{
    if n < 10 {
        assert(digit_char(n) as int == 48 + n);
        let t = nat_to_decimal(n);
        assert(t.drop_last() =~= Seq::<char>::empty());
        assert(dec_value(t.drop_last()) == 0);
        assert(dec_digit_value(t.last()) == n);
    } else {
        lemma_nat_to_decimal_value(n / 10);
        let d = n % 10;
        assert(digit_char(d) as int == 48 + d);
        let t = nat_to_decimal(n);
        assert(t.drop_last() =~= nat_to_decimal(n / 10));
        assert(t.last() == digit_char(d));
        assert(dec_digit_value(t.last()) == d);
        assert(dec_value(t) == dec_value(t.drop_last()) * 10 + d);
        assert((n / 10) * 10 + d == n);
        assert forall|i: int| 0 <= i < t.len() implies is_dec_digit(#[trigger] t[i]) by {
            if i < t.len() - 1 {
                assert(t[i] == nat_to_decimal(n / 10)[i]);
            }
        }
    }
}

/// Different numbers have different decimal texts.
pub proof fn lemma_nat_to_decimal_injective(a: nat, b: nat)
    requires
        nat_to_decimal(a) == nat_to_decimal(b),
    ensures
        a == b,
{
    lemma_nat_to_decimal_value(a);
    lemma_nat_to_decimal_value(b);
}

/// The hexadecimal text of a byte string has two characters a byte.
pub proof fn lemma_bytes_hex_len(bs: Seq<u8>)
    ensures
        bytes_hex(bs).len() == 2 * bs.len(),
    decreases bs.len(),
{
    if bs.len() > 0 {
        lemma_bytes_hex_len(bs.drop_last());
    }
}

/// Byte strings of one length with the same hexadecimal text are equal.
pub proof fn lemma_bytes_hex_injective(a: Seq<u8>, b: Seq<u8>)
    requires
        a.len() == b.len(),
        bytes_hex(a) == bytes_hex(b),
    ensures
        a == b,
    decreases a.len(),
{
    if a.len() > 0 {
        let ta = bytes_hex(a.drop_last());
        let tb = bytes_hex(b.drop_last());
        lemma_bytes_hex_len(a.drop_last());
        lemma_bytes_hex_len(b.drop_last());
        let n = ta.len() as int;
        assert(bytes_hex(a).subrange(0, n) =~= ta);
        assert(bytes_hex(b).subrange(0, n) =~= tb);
        lemma_bytes_hex_injective(a.drop_last(), b.drop_last());
        let x = a.last();
        let y = b.last();
        assert(bytes_hex(a)[n] == digit_char((x / 16) as nat));
        assert(bytes_hex(b)[n] == digit_char((y / 16) as nat));
        assert(bytes_hex(a)[n + 1] == digit_char((x % 16) as nat));
        assert(bytes_hex(b)[n + 1] == digit_char((y % 16) as nat));
        lemma_digit_char_injective((x / 16) as nat, (y / 16) as nat);
        lemma_digit_char_injective((x % 16) as nat, (y % 16) as nat);
        assert(x == y);
        assert(a =~= a.drop_last().push(x));
        assert(b =~= b.drop_last().push(y));
    }
}

} // verus!
