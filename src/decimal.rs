use vstd::prelude::*;
use vstd::utf8::{encode_scalar, encode_utf8};
use crate::text::utf8_string;

verus! {

/// The character of a decimal digit.
pub open spec fn digit_char(d: nat) -> char {
    (d + 48) as char
}

/// The decimal form of `n`, without sign or leading zeros.
pub open spec fn decimal(n: nat) -> Seq<char>
    decreases n,
{
    if n < 10 {
        seq![digit_char(n)]
    } else {
        decimal(n / 10).push(digit_char(n % 10))
    }
}

/// The bytes of the decimal form of `n`.
pub open spec fn decimal_bytes(n: nat) -> Seq<u8>
    decreases n,
{
    if n < 10 {
        seq![(n + 48) as u8]
    } else {
        decimal_bytes(n / 10).push((n % 10 + 48) as u8)
    }
}

proof fn lemma_utf8_push(s: Seq<char>, c: char)
    ensures
        encode_utf8(s.push(c)) == encode_utf8(s) + encode_scalar(c as u32),
    decreases s.len(),
{
    if s.len() > 0 {
        lemma_utf8_push(s.drop_first(), c);
        assert(s.push(c).drop_first() =~= s.drop_first().push(c));
        assert(s.push(c)[0] == s[0]);
        let h = encode_scalar(s[0] as u32);
        assert(encode_utf8(s.push(c)) == h + encode_utf8(s.drop_first().push(c)));
        assert(encode_utf8(s) == h + encode_utf8(s.drop_first()));
        assert(h + (encode_utf8(s.drop_first()) + encode_scalar(c as u32)) =~= (h + encode_utf8(
            s.drop_first(),
        )) + encode_scalar(c as u32));
    } else {
        assert(s =~= Seq::<char>::empty());
        assert(s.push(c).drop_first() =~= Seq::<char>::empty());
        assert(encode_utf8(Seq::<char>::empty()) =~= Seq::<u8>::empty());
        assert(encode_utf8(s.push(c)) == encode_scalar(c as u32) + encode_utf8(Seq::<char>::empty()));
        assert(encode_utf8(s.push(c)) =~= encode_utf8(s) + encode_scalar(c as u32));
    }
}

proof fn lemma_digit_scalar(d: nat)
    requires
        d < 10,
    ensures
        encode_scalar(digit_char(d) as u32) == seq![(d + 48) as u8],
{
    let v: u32 = (d + 48) as u32;
    assert(digit_char(d) as u32 == v);
    assert(v & 0x7F == v) by (bit_vector)
        requires
            v <= 0x7F,
    ;
}

/// The decimal form's UTF-8 bytes are its digit bytes.
pub proof fn lemma_decimal_utf8(n: nat)
    ensures
        encode_utf8(decimal(n)) == decimal_bytes(n),
    decreases n,
{
    if n < 10 {
        lemma_utf8_push(Seq::<char>::empty(), digit_char(n));
        assert(seq![digit_char(n)] =~= Seq::<char>::empty().push(digit_char(n)));
        lemma_digit_scalar(n);
        assert(encode_utf8(Seq::<char>::empty()) =~= Seq::<u8>::empty());
        assert(encode_utf8(decimal(n)) =~= decimal_bytes(n));
    } else {
        lemma_decimal_utf8(n / 10);
        lemma_utf8_push(decimal(n / 10), digit_char(n % 10));
        lemma_digit_scalar(n % 10);
        assert(encode_utf8(decimal(n)) =~= decimal_bytes(n));
    }
}

fn push_decimal(out: &mut Vec<u8>, n: u64)
    ensures
        final(out)@ == old(out)@ + decimal_bytes(n as nat),
    decreases n,
{
    if n >= 10 {
        push_decimal(out, n / 10);
    }
    out.push((n % 10) as u8 + 48);
    assert(final(out)@ =~= old(out)@ + decimal_bytes(n as nat)) by {
        if n >= 10 {
            assert(decimal_bytes(n as nat) == decimal_bytes((n / 10) as nat).push((n % 10 + 48) as u8));
        }
    }
}

/// The decimal form of `n`, without sign or leading zeros.
pub fn decimal_string(n: u64) -> (r: String)
    ensures
        r@ == decimal(n as nat),
{
    let mut digits: Vec<u8> = Vec::new();
    push_decimal(&mut digits, n);
    proof {
        lemma_decimal_utf8(n as nat);
        assert(digits@ =~= decimal_bytes(n as nat));
        vstd::utf8::encode_utf8_valid_utf8(decimal(n as nat));
    }
    match utf8_string(digits) {
        Some(s) => {
            proof {
                vstd::utf8::encode_utf8_decode_utf8(s@);
                vstd::utf8::encode_utf8_decode_utf8(decimal(n as nat));
            }
            s
        },
        None => String::new(),
    }
}

pub open spec fn is_digit_byte(b: u8) -> bool {
    48 <= b <= 57
}

/// The number that a sequence of decimal digit bytes spells.
pub open spec fn digits_value(b: Seq<u8>) -> nat
    decreases b.len(),
{
    if b.len() == 0 {
        0
    } else {
        digits_value(b.drop_last()) * 10 + (b.last() - 48) as nat
    }
}

/// Reading an unsigned 64-bit number from its decimal digits: at least one
/// digit, nothing else, and a value that fits.
pub open spec fn parse_decimal(b: Seq<u8>) -> Option<u64> {
    if b.len() > 0 && (forall|i: int| 0 <= i < b.len() ==> is_digit_byte(#[trigger] b[i]))
        && digits_value(b) <= u64::MAX {
        Some(digits_value(b) as u64)
    } else {
        None
    }
}

proof fn lemma_decimal_len(n: nat, k: nat)
    requires
        1 <= k,
        n < pow10(k),
    ensures
        decimal(n).len() <= k,
    decreases n,
{
    if n >= 10 {
        assert(pow10(k) == 10 * pow10((k - 1) as nat));
        assert(k >= 2) by {
            if k == 1 {
                assert(pow10(0) == 1);
            }
        }
        lemma_decimal_len(n / 10, (k - 1) as nat);
    }
}

spec fn pow10(k: nat) -> nat
    decreases k,
{
    if k == 0 {
        1
    } else {
        10 * pow10((k - 1) as nat)
    }
}

/// The decimal form of a 64-bit number takes at most 80 bytes of UTF-8.
pub proof fn lemma_decimal_bytes(n: u64)
    ensures
        encode_utf8(decimal(n as nat)).len() <= 80,
{
    reveal_with_fuel(pow10, 21);
    assert(pow10(20) == 100000000000000000000nat);
    lemma_decimal_len(n as nat, 20);
    crate::codec::lemma_utf8_len(decimal(n as nat));
}

proof fn lemma_digits_value_prefix(b: Seq<u8>, j: int)
    requires
        0 <= j <= b.len(),
    ensures
        digits_value(b.subrange(0, j)) <= digits_value(b),
    decreases b.len() - j,
{
    if j < b.len() {
        lemma_digits_value_prefix(b, j + 1);
        assert(b.subrange(0, j + 1).drop_last() == b.subrange(0, j));
    } else {
        assert(b.subrange(0, j) == b);
    }
}

/// Reads an unsigned 64-bit number from decimal digit bytes.
pub fn read_decimal(b: &[u8]) -> (r: Option<u64>)
    ensures
        r == parse_decimal(b@),
{
    if b.len() == 0 {
        return None;
    }
    let mut acc: u64 = 0;
    let mut i: usize = 0;
    while i < b.len()
        invariant
            i <= b@.len(),
            forall|j: int| 0 <= j < i ==> is_digit_byte(#[trigger] b@[j]),
            acc as nat == digits_value(b@.subrange(0, i as int)),
        decreases b@.len() - i,
    {
        let c = b[i];
        if c < 48 || c > 57 {
            return None;
        }
        let d = (c - 48) as u64;
        assert(b@.subrange(0, i + 1).drop_last() == b@.subrange(0, i as int));
        if acc > (u64::MAX - d) / 10 {
            proof {
                lemma_digits_value_prefix(b@, i + 1);
            }
            return None;
        }
        acc = acc * 10 + d;
        i += 1;
    }
    assert(b@.subrange(0, b@.len() as int) == b@);
    Some(acc)
}

} // verus!
