use vstd::prelude::*;

use crate::errors::TranslationError;

verus! {

// Lowercase hexadecimal text is the canonical encoding for every byte-backed
// identifier that crosses the facade boundary. This module gives the
// encoding a full specification and proves that encoding and decoding are
// mutually inverse.

/// The lowercase hexadecimal digit for a value below 16.
pub open spec fn hex_digit(v: int) -> char {
    if v == 0 {
        '0'
    } else if v == 1 {
        '1'
    } else if v == 2 {
        '2'
    } else if v == 3 {
        '3'
    } else if v == 4 {
        '4'
    } else if v == 5 {
        '5'
    } else if v == 6 {
        '6'
    } else if v == 7 {
        '7'
    } else if v == 8 {
        '8'
    } else if v == 9 {
        '9'
    } else if v == 10 {
        'a'
    } else if v == 11 {
        'b'
    } else if v == 12 {
        'c'
    } else if v == 13 {
        'd'
    } else if v == 14 {
        'e'
    } else {
        'f'
    }
}

/// The value of a lowercase hexadecimal digit, or -1 for any other character.
pub open spec fn hex_val(c: char) -> int {
    if c == '0' {
        0
    } else if c == '1' {
        1
    } else if c == '2' {
        2
    } else if c == '3' {
        3
    } else if c == '4' {
        4
    } else if c == '5' {
        5
    } else if c == '6' {
        6
    } else if c == '7' {
        7
    } else if c == '8' {
        8
    } else if c == '9' {
        9
    } else if c == 'a' {
        10
    } else if c == 'b' {
        11
    } else if c == 'c' {
        12
    } else if c == 'd' {
        13
    } else if c == 'e' {
        14
    } else if c == 'f' {
        15
    } else {
        -1
    }
}

/// Whether `c` is a lowercase hexadecimal digit.
pub open spec fn is_hex_digit(c: char) -> bool {
    hex_val(c) >= 0
}

/// Whether every character of `s` is a lowercase hexadecimal digit.
pub open spec fn is_hex_seq(s: Seq<char>) -> bool {
    forall|i: int| 0 <= i < s.len() ==> is_hex_digit(#[trigger] s[i])
}

/// The lowercase hex encoding of a byte sequence: two digits per byte, high
/// nibble first.
pub open spec fn hex_of(bytes: Seq<u8>) -> Seq<char> {
    Seq::new(
        bytes.len() * 2,
        |i: int|
            if i % 2 == 0 {
                hex_digit(bytes[i / 2] as int / 16)
            } else {
                hex_digit(bytes[i / 2] as int % 16)
            },
    )
}

/// Encoding then reading a digit back is the identity on values below 16,
/// and every encoded digit is a hex digit.
pub proof fn lemma_hex_digit_of_val(v: int)
    requires
        0 <= v < 16,
    ensures
        hex_val(hex_digit(v)) == v,
        is_hex_digit(hex_digit(v)),
{
}

/// Reading then re-encoding a hex digit is the identity.
pub proof fn lemma_hex_val_of_digit(c: char)
    requires
        is_hex_digit(c),
    ensures
        hex_digit(hex_val(c)) == c,
        hex_val(c) < 16,
{
}

/// A hex encoding of bytes is hex text of even length.
pub proof fn lemma_hex_of_is_hex(bytes: Seq<u8>)
    ensures
        is_hex_seq(hex_of(bytes)),
        hex_of(bytes).len() == bytes.len() * 2,
        hex_of(bytes).len() % 2 == 0,
{
    assert forall|i: int| 0 <= i < hex_of(bytes).len() implies is_hex_digit(
        #[trigger] hex_of(bytes)[i],
    ) by {
        let b = bytes[i / 2] as int;
        assert(0 <= b < 256);
        assert(0 <= b / 16 < 16);
        assert(0 <= b % 16 < 16);
    }
}

/// Hex encoding never conflates two byte sequences: equal encodings come
/// from equal bytes, so decoding canonical text recovers the bytes in
/// full, never a truncation or a padding.
pub proof fn lemma_hex_of_injective(a: Seq<u8>, b: Seq<u8>)
    requires
        hex_of(a) == hex_of(b),
    ensures
        a == b,
{
    assert(hex_of(a).len() == a.len() * 2);
    assert(hex_of(b).len() == b.len() * 2);
    assert(a.len() == b.len());
    assert forall|i: int| 0 <= i < a.len() implies a[i] == b[i] by {
        assert((2 * i) % 2 == 0 && (2 * i) / 2 == i && (2 * i + 1) % 2 == 1 && (2 * i + 1) / 2
            == i);
        assert(hex_of(a)[2 * i] == hex_digit(a[i] as int / 16));
        assert(hex_of(b)[2 * i] == hex_digit(b[i] as int / 16));
        assert(hex_of(a)[2 * i + 1] == hex_digit(a[i] as int % 16));
        assert(hex_of(b)[2 * i + 1] == hex_digit(b[i] as int % 16));
        assert(hex_of(a)[2 * i] == hex_of(b)[2 * i]);
        assert(hex_of(a)[2 * i + 1] == hex_of(b)[2 * i + 1]);
        lemma_hex_digit_of_val(a[i] as int / 16);
        lemma_hex_digit_of_val(a[i] as int % 16);
        lemma_hex_digit_of_val(b[i] as int / 16);
        lemma_hex_digit_of_val(b[i] as int % 16);
        assert(a[i] as int / 16 == b[i] as int / 16);
        assert(a[i] as int % 16 == b[i] as int % 16);
        vstd::arithmetic::div_mod::lemma_fundamental_div_mod(a[i] as int, 16);
        vstd::arithmetic::div_mod::lemma_fundamental_div_mod(b[i] as int, 16);
    }
    assert(a =~= b);
}

/// Append the lowercase hex digit for `v` to `out`.
fn push_hex_digit(out: &mut String, v: u8)
    requires
        v < 16,
    ensures
        final(out)@ == old(out)@.push(hex_digit(v as int)),
{
    let d: &str = if v == 0 {
        proof { reveal_strlit("0"); }
        "0"
    } else if v == 1 {
        proof { reveal_strlit("1"); }
        "1"
    } else if v == 2 {
        proof { reveal_strlit("2"); }
        "2"
    } else if v == 3 {
        proof { reveal_strlit("3"); }
        "3"
    } else if v == 4 {
        proof { reveal_strlit("4"); }
        "4"
    } else if v == 5 {
        proof { reveal_strlit("5"); }
        "5"
    } else if v == 6 {
        proof { reveal_strlit("6"); }
        "6"
    } else if v == 7 {
        proof { reveal_strlit("7"); }
        "7"
    } else if v == 8 {
        proof { reveal_strlit("8"); }
        "8"
    } else if v == 9 {
        proof { reveal_strlit("9"); }
        "9"
    } else if v == 10 {
        proof { reveal_strlit("a"); }
        "a"
    } else if v == 11 {
        proof { reveal_strlit("b"); }
        "b"
    } else if v == 12 {
        proof { reveal_strlit("c"); }
        "c"
    } else if v == 13 {
        proof { reveal_strlit("d"); }
        "d"
    } else if v == 14 {
        proof { reveal_strlit("e"); }
        "e"
    } else {
        proof { reveal_strlit("f"); }
        "f"
    };
    proof {
        assert(d@ =~= seq![hex_digit(v as int)]);
        assert(old(out)@ + d@ =~= old(out)@.push(hex_digit(v as int)));
    }
    out.append(d);
}

/// Encode bytes as lowercase hex text, two digits per byte, high nibble
/// first.
pub fn bytes_to_hex(bytes: &Vec<u8>) -> (r: String)
    ensures
        r@ == hex_of(bytes@),
{
    let mut out = String::new();
    let mut i: usize = 0;
    while i < bytes.len()
        invariant
            i <= bytes.len(),
            out@ == hex_of(bytes@.take(i as int)),
        decreases bytes.len() - i,
    {
        let b = bytes[i];
        push_hex_digit(&mut out, b / 16);
        push_hex_digit(&mut out, b % 16);
        proof {
            assert(out@ =~= hex_of(bytes@.take(i as int + 1)));
        }
        i += 1;
    }
    proof {
        assert(bytes@.take(bytes@.len() as int) =~= bytes@);
    }
    out
}

/// The value of the lowercase hex digit `c`, or `None` when `c` is no such
/// digit.
pub fn hex_val_of(c: char) -> (r: Option<u8>)
    ensures
        match r {
            Some(v) => v < 16 && hex_val(c) == v as int,
            None => !is_hex_digit(c),
        },
{
    if c == '0' {
        Some(0)
    } else if c == '1' {
        Some(1)
    } else if c == '2' {
        Some(2)
    } else if c == '3' {
        Some(3)
    } else if c == '4' {
        Some(4)
    } else if c == '5' {
        Some(5)
    } else if c == '6' {
        Some(6)
    } else if c == '7' {
        Some(7)
    } else if c == '8' {
        Some(8)
    } else if c == '9' {
        Some(9)
    } else if c == 'a' {
        Some(10)
    } else if c == 'b' {
        Some(11)
    } else if c == 'c' {
        Some(12)
    } else if c == 'd' {
        Some(13)
    } else if c == 'e' {
        Some(14)
    } else if c == 'f' {
        Some(15)
    } else {
        None
    }
}

/// Decode lowercase hex text into bytes. Rejects text of odd length or with
/// any character that is not a lowercase hex digit.
pub fn hex_to_bytes(s: &str) -> (r: Result<Vec<u8>, TranslationError>)
    ensures
        match r {
            Ok(v) => is_hex_seq(s@) && s@.len() % 2 == 0 && hex_of(v@) == s@,
            Err(e) => (!is_hex_seq(s@) || s@.len() % 2 != 0) && e == TranslationError::ParseError,
        },
{
    let n = s.unicode_len();
    if n % 2 != 0 {
        return Err(TranslationError::ParseError);
    }
    let mut out: Vec<u8> = Vec::new();
    let mut i: usize = 0;
    while i < n
        invariant
            i <= n,
            i % 2 == 0,
            n % 2 == 0,
            n == s@.len(),
            out@.len() * 2 == i,
            hex_of(out@) == s@.take(i as int),
        decreases n - i,
    {
        let c_hi = s.get_char(i);
        let c_lo = s.get_char(i + 1);
        let hi = hex_val_of(c_hi);
        let lo = hex_val_of(c_lo);
        match (hi, lo) {
            (Some(h), Some(l)) => {
                out.push(h * 16 + l);
                proof {
                    lemma_hex_val_of_digit(c_hi);
                    lemma_hex_val_of_digit(c_lo);
                    assert((h as int * 16 + l as int) / 16 == h as int && (h as int * 16
                        + l as int) % 16 == l as int) by (nonlinear_arith)
                        requires
                            h < 16,
                            l < 16,
                    ;
                    assert(hex_of(out@) =~= s@.take(i as int + 2));
                }
            },
            _ => {
                proof {
                    if hi is None {
                        assert(!is_hex_digit(s@[i as int]));
                    } else {
                        assert(!is_hex_digit(s@[i as int + 1]));
                    }
                }
                return Err(TranslationError::ParseError);
            },
        }
        i += 2;
    }
    proof {
        assert(s@.take(n as int) =~= s@);
        lemma_hex_of_is_hex(out@);
    }
    Ok(out)
}

/// Sixteen to the power `n`.
pub open spec fn pow16(n: nat) -> nat
    decreases n,
{
    if n == 0 {
        1
    } else {
        16 * pow16((n - 1) as nat)
    }
}

/// The `n`-digit hex encoding of `v`, least significant digit first.
pub open spec fn hex_seq_le(v: nat, n: nat) -> Seq<char>
    decreases n,
{
    if n == 0 {
        Seq::empty()
    } else {
        seq![hex_digit(v as int % 16)] + hex_seq_le(v / 16, (n - 1) as nat)
    }
}

/// The value of hex text read least significant digit first.
pub open spec fn hex_le_val(s: Seq<char>) -> int
    decreases s.len(),
{
    if s.len() == 0 {
        0
    } else {
        hex_val(s[0]) + 16 * hex_le_val(s.drop_first())
    }
}

/// The values of `pow16` up to the width of a 64-bit word.
pub proof fn lemma_pow16_values()
    ensures
        pow16(15) == 0x1000000000000000,
        pow16(16) == 0x10000000000000000,
        forall|a: nat, b: nat| a <= b ==> #[trigger] pow16(a) <= #[trigger] pow16(b),
{
    assert(pow16(0) == 1);
    assert(pow16(1) == 16);
    assert(pow16(2) == 0x100);
    assert(pow16(3) == 0x1000);
    assert(pow16(4) == 0x10000);
    assert(pow16(5) == 0x100000);
    assert(pow16(6) == 0x1000000);
    assert(pow16(7) == 0x10000000);
    assert(pow16(8) == 0x100000000);
    assert(pow16(9) == 0x1000000000);
    assert(pow16(10) == 0x10000000000);
    assert(pow16(11) == 0x100000000000);
    assert(pow16(12) == 0x1000000000000);
    assert(pow16(13) == 0x10000000000000);
    assert(pow16(14) == 0x100000000000000);
    assert(pow16(15) == 0x1000000000000000);
    assert(pow16(16) == 0x10000000000000000);
    assert forall|a: nat, b: nat| a <= b implies #[trigger] pow16(a) <= #[trigger] pow16(b) by {
        lemma_pow16_monotonic(a, b);
    }
}

/// `pow16` grows with its argument.
pub proof fn lemma_pow16_monotonic(a: nat, b: nat)
    requires
        a <= b,
    ensures
        pow16(a) <= pow16(b),
        pow16(a) >= 1,
    decreases b,
{
    if a == b {
        lemma_pow16_pos(a);
    } else {
        lemma_pow16_monotonic(a, (b - 1) as nat);
        assert(pow16(b) == 16 * pow16((b - 1) as nat));
    }
}

/// `pow16` is at least one.
pub proof fn lemma_pow16_pos(n: nat)
    ensures
        pow16(n) >= 1,
    decreases n,
{
    if n > 0 {
        lemma_pow16_pos((n - 1) as nat);
    }
}

/// A fixed-width encoding has the stated width and holds hex digits only.
pub proof fn lemma_hex_seq_le_props(v: nat, n: nat)
    ensures
        hex_seq_le(v, n).len() == n,
        is_hex_seq(hex_seq_le(v, n)),
    decreases n,
{
    if n > 0 {
        lemma_hex_seq_le_props(v / 16, (n - 1) as nat);
        let s = hex_seq_le(v, n);
        let rest = hex_seq_le(v / 16, (n - 1) as nat);
        assert forall|i: int| 0 <= i < s.len() implies is_hex_digit(#[trigger] s[i]) by {
            if i == 0 {
                lemma_hex_digit_of_val(v as int % 16);
            } else {
                assert(s[i] == rest[i - 1]);
            }
        }
    }
}

/// The value a hex sequence reads back to is bounded by the width.
pub proof fn lemma_hex_le_val_bound(s: Seq<char>)
    requires
        is_hex_seq(s),
    ensures
        0 <= hex_le_val(s) < pow16(s.len()),
    decreases s.len(),
{
    if s.len() > 0 {
        assert(is_hex_seq(s.drop_first())) by {
            assert forall|i: int| 0 <= i < s.drop_first().len() implies is_hex_digit(
                #[trigger] s.drop_first()[i],
            ) by {
                assert(s.drop_first()[i] == s[i + 1]);
            }
        }
        lemma_hex_le_val_bound(s.drop_first());
        lemma_hex_val_of_digit(s[0]);
        let rest = hex_le_val(s.drop_first());
        let m = pow16((s.len() - 1) as nat);
        assert(rest <= m - 1);
        assert(16 * rest <= 16 * (m - 1)) by (nonlinear_arith)
            requires
                rest <= m - 1,
        ;
        assert(pow16(s.len()) == 16 * m);
    }
}

/// Reading a fixed-width encoding back gives the value, reduced to the
/// width.
pub proof fn lemma_hex_le_val_of_seq(v: nat, n: nat)
    ensures
        hex_le_val(hex_seq_le(v, n)) == v % pow16(n),
    decreases n,
{
    if n == 0 {
        assert(pow16(0) == 1);
    } else {
        let m = pow16((n - 1) as nat);
        lemma_hex_le_val_of_seq(v / 16, (n - 1) as nat);
        lemma_pow16_monotonic((n - 1) as nat, (n - 1) as nat);
        let s = hex_seq_le(v, n);
        assert(s.drop_first() =~= hex_seq_le(v / 16, (n - 1) as nat));
        lemma_hex_digit_of_val(v as int % 16);
        vstd::arithmetic::div_mod::lemma_mod_breakdown(v as int, 16, m as int);
        assert(pow16(n) == 16 * m);
    }
}

/// Re-encoding the value a hex sequence reads back to gives the sequence.
pub proof fn lemma_hex_seq_le_of_val(s: Seq<char>)
    requires
        is_hex_seq(s),
    ensures
        hex_seq_le(hex_le_val(s) as nat, s.len()) == s,
    decreases s.len(),
{
    if s.len() > 0 {
        assert(is_hex_seq(s.drop_first())) by {
            assert forall|i: int| 0 <= i < s.drop_first().len() implies is_hex_digit(
                #[trigger] s.drop_first()[i],
            ) by {
                assert(s.drop_first()[i] == s[i + 1]);
            }
        }
        lemma_hex_val_of_digit(s[0]);
        lemma_hex_le_val_bound(s.drop_first());
        let a = hex_val(s[0]);
        let b = hex_le_val(s.drop_first());
        let v = a + 16 * b;
        vstd::arithmetic::div_mod::lemma_fundamental_div_mod_converse(v, 16, b, a);
        assert(v % 16 == a);
        assert(v / 16 == b);
        lemma_hex_seq_le_of_val(s.drop_first());
        assert(hex_seq_le(v as nat, s.len()) =~= s);
    }
}

/// Encode `v` as exactly 16 lowercase hex digits, least significant digit
/// first.
pub fn u64_to_hex_le(v: u64) -> (r: String)
    ensures
        r@ == hex_seq_le(v as nat, 16),
        r@.len() == 16,
        is_hex_seq(r@),
        hex_le_val(r@) == v as int,
{
    let mut out = String::new();
    let mut cur: u64 = v;
    let mut k: usize = 0;
    while k < 16
        invariant
            k <= 16,
            out@.len() == k,
            out@ + hex_seq_le(cur as nat, (16 - k) as nat) == hex_seq_le(v as nat, 16),
        decreases 16 - k,
    {
        let ghost pre = out@;
        let ghost precur = cur as nat;
        push_hex_digit(&mut out, (cur % 16) as u8);
        cur = cur / 16;
        k += 1;
        proof {
            assert(hex_seq_le(precur, (16 - (k - 1)) as nat) =~= seq![
                hex_digit(precur as int % 16),
            ] + hex_seq_le(precur / 16, (16 - k) as nat));
            assert(out@ + hex_seq_le(cur as nat, (16 - k) as nat) =~= pre + hex_seq_le(
                precur,
                (16 - (k - 1)) as nat,
            ));
        }
    }
    proof {
        assert(hex_seq_le(cur as nat, 0) =~= Seq::<char>::empty());
        assert(out@ =~= hex_seq_le(v as nat, 16));
        lemma_hex_seq_le_props(v as nat, 16);
        lemma_hex_le_val_of_seq(v as nat, 16);
        lemma_pow16_values();
        assert(v as nat % pow16(16) == v as nat) by {
            assert((v as nat) < pow16(16));
        }
    }
    out
}

/// Read a value back from exactly 16 lowercase hex digits, least
/// significant digit first. Rejects any other text.
pub fn hex_le_to_u64(s: &str) -> (r: Option<u64>)
    ensures
        match r {
            Some(v) => s@.len() == 16 && is_hex_seq(s@) && v as int == hex_le_val(s@)
                && hex_seq_le(v as nat, 16) == s@,
            None => !(s@.len() == 16 && is_hex_seq(s@)),
        },
{
    let n = s.unicode_len();
    if n != 16 {
        return None;
    }
    let mut acc: u64 = 0;
    let mut i: usize = 16;
    while i > 0
        invariant
            i <= 16,
            n == 16,
            n == s@.len(),
            is_hex_seq(s@.skip(i as int)),
            acc as int == hex_le_val(s@.skip(i as int)),
        decreases i,
    {
        let c = s.get_char(i - 1);
        match hex_val_of(c) {
            Some(d) => {
                proof {
                    lemma_hex_le_val_bound(s@.skip(i as int));
                    lemma_pow16_values();
                    lemma_pow16_monotonic((16 - i) as nat, 15);
                    assert(acc as int <= pow16(15) - 1);
                    assert(acc as int * 16 <= (pow16(15) - 1) * 16) by (nonlinear_arith)
                        requires
                            acc as int <= pow16(15) - 1,
                    ;
                }
                acc = acc * 16 + (d as u64);
                proof {
                    assert(s@.skip(i as int - 1).drop_first() =~= s@.skip(i as int));
                    assert(s@.skip(i as int - 1)[0] == s@[i as int - 1]);
                    assert(is_hex_seq(s@.skip(i as int - 1))) by {
                        assert forall|j: int| 0 <= j < s@.skip(i as int - 1).len()
                            implies is_hex_digit(#[trigger] s@.skip(i as int - 1)[j]) by {
                            if j == 0 {
                                assert(s@.skip(i as int - 1)[0] == c);
                            } else {
                                assert(s@.skip(i as int - 1)[j] == s@.skip(i as int)[j - 1]);
                            }
                        }
                    }
                }
                i -= 1;
            },
            None => {
                proof {
                    assert(s@[i as int - 1] == c);
                }
                return None;
            },
        }
    }
    proof {
        assert(s@.skip(0) =~= s@);
        lemma_hex_seq_le_of_val(s@);
    }
    Some(acc)
}

} // verus!
