//! Base58 text (the Bitcoin alphabet), as `rust_base58` writes and reads it:
//! one `'1'` for each leading zero byte, then the base-58 digits of the
//! number that the bytes denote, most significant first.
use vstd::prelude::*;
use rust_base58::{FromBase58, ToBase58};
use crate::rlp::model::be_value;

verus! {

/// The character of a base-58 digit: `123456789`, then the capital letters
/// but `I` and `O`, then the small letters but `l`.
pub open spec fn digit_char(d: nat) -> char {
    if d < 9 {
        (49 + d) as char
    } else if d < 17 {
        (65 + d - 9) as char
    } else if d < 22 {
        (74 + d - 17) as char
    } else if d < 33 {
        (80 + d - 22) as char
    } else if d < 44 {
        (97 + d - 33) as char
    } else {
        (109 + d - 44) as char
    }
}

/// The base-58 digit of a character of the alphabet.
pub open spec fn char_digit(c: char) -> Option<nat> {
    let n = c as int;
    if 49 <= n <= 57 {
        Some((n - 49) as nat)
    } else if 65 <= n <= 72 {
        Some((n - 65 + 9) as nat)
    } else if 74 <= n <= 78 {
        Some((n - 74 + 17) as nat)
    } else if 80 <= n <= 90 {
        Some((n - 80 + 22) as nat)
    } else if 97 <= n <= 107 {
        Some((n - 97 + 33) as nat)
    } else if 109 <= n <= 122 {
        Some((n - 109 + 44) as nat)
    } else {
        None
    }
}

/// The number of elements equal to `x` at the start of the sequence.
pub open spec fn leading<A>(s: Seq<A>, x: A) -> nat
    decreases s.len(),
{
    if s.len() > 0 && s[0] == x {
        1 + leading(s.subrange(1, s.len() as int), x)
    } else {
        0
    }
}

/// The base-58 digits of `n`, most significant first; none for zero.
pub open spec fn digits_text(n: nat) -> Seq<char>
    decreases n,
{
    if n == 0 {
        Seq::empty()
    } else {
        digits_text(n / 58).push(digit_char(n % 58))
    }
}

/// The base58 text of a byte string.
pub open spec fn base58_text(bytes: Seq<u8>) -> Seq<char> {
    Seq::new(leading(bytes, 0u8), |i: int| '1') + digits_text(be_value(bytes))
}

/// Every character is in the alphabet.
pub open spec fn all_digits(text: Seq<char>) -> bool {
    forall|i: int| 0 <= i < text.len() ==> #[trigger] char_digit(text[i]) is Some
}

/// The number that base-58 digits denote, most significant first.
pub open spec fn digits_value(text: Seq<char>) -> nat
    decreases text.len(),
{
    if text.len() == 0 {
        0
    } else {
        digits_value(text.drop_last()) * 58 + char_digit(text.last()).unwrap_or(0)
    }
}

/// The shortest big-endian byte string of `n`: none for zero.
pub open spec fn min_be(n: nat) -> Seq<u8>
    decreases n,
{
    if n == 0 {
        Seq::empty()
    } else {
        min_be(n / 256).push((n % 256) as u8)
    }
}

/// The bytes that a base58 text stands for: a zero byte for each leading
/// `'1'`, then the big-endian bytes of the number that the text denotes;
/// `None` when a character is outside the alphabet.
pub open spec fn base58_bytes(text: Seq<char>) -> Option<Seq<u8>> {
    if all_digits(text) {
        Some(Seq::new(leading(text, '1'), |i: int| 0u8) + min_be(digits_value(text)))
    } else {
        None
    }
}

/// Calls `ToBase58::to_base58` on the bytes.
#[verifier::external_body]
pub(crate) fn to_base58(bytes: &[u8]) -> (r: String)
    ensures
        r@ == base58_text(bytes@),
{
    bytes.to_base58()
}

/// Calls `FromBase58::from_base58` on the text; the error (a byte outside
/// the alphabet) is mapped to `None`.
#[verifier::external_body]
pub(crate) fn from_base58(text: &str) -> (r: Option<Vec<u8>>)
    ensures
        r is None <==> base58_bytes(text@) is None,
        r matches Some(v) ==> base58_bytes(text@) == Some(v@),
{
    text.from_base58().ok()
}

/// A digit is read back from its character.
proof fn lemma_digit_char(d: nat)
    requires
        d < 58,
    ensures
        char_digit(digit_char(d)) == Some(d),
        d > 0 ==> digit_char(d) != '1',
{
}

/// The leading elements are `x`, and the next one is not.
proof fn lemma_leading<A>(s: Seq<A>, x: A)
    ensures
        leading(s, x) <= s.len(),
        forall|i: int| 0 <= i < leading(s, x) ==> #[trigger] s[i] == x,
        leading(s, x) < s.len() ==> s[leading(s, x) as int] != x,
    decreases s.len(),
{
    if s.len() > 0 && s[0] == x {
        let t = s.subrange(1, s.len() as int);
        lemma_leading(t, x);
        assert forall|i: int| 0 <= i < leading(s, x) implies #[trigger] s[i] == x by {
            if i > 0 {
                assert(s[i] == t[i - 1]);
            }
        }
    }
}

/// `z` copies of `x` in front add `z` to the count.
proof fn lemma_leading_prefix<A>(z: nat, x: A, s: Seq<A>)
    ensures
        leading(Seq::new(z, |i: int| x) + s, x) == z + leading(s, x),
    decreases z,
{
    if z > 0 {
        let u = Seq::new(z, |i: int| x) + s;
        lemma_leading_prefix((z - 1) as nat, x, s);
        assert(u.subrange(1, u.len() as int) =~= Seq::new((z - 1) as nat, |i: int| x) + s);
    }
}

/// Zero bytes in front do not change the number.
proof fn lemma_be_value_zeros(z: nat, s: Seq<u8>)
    ensures
        be_value(Seq::new(z, |i: int| 0u8) + s) == be_value(s),
    decreases s.len(), z,
{
    let u = Seq::new(z, |i: int| 0u8) + s;
    if s.len() == 0 {
        if z > 0 {
            lemma_be_value_zeros((z - 1) as nat, s);
            assert(u.subrange(0, u.len() - 1) =~= Seq::new((z - 1) as nat, |i: int| 0u8) + s);
        }
        assert(s.subrange(0, 0) =~= s);
    } else {
        lemma_be_value_zeros(z, s.subrange(0, s.len() - 1));
        assert(u.subrange(0, u.len() - 1) =~= Seq::new(z, |i: int| 0u8) + s.subrange(0, s.len() - 1));
    }
}

/// A byte string that does not start with a zero byte is the shortest one
/// of its number.
proof fn lemma_min_be(s: Seq<u8>)
    requires
        s.len() == 0 || s[0] != 0,
    ensures
        min_be(be_value(s)) == s,
        s.len() > 0 ==> be_value(s) > 0,
    decreases s.len(),
{
    if s.len() > 0 {
        let p = s.subrange(0, s.len() - 1);
        let l = s[s.len() - 1];
        lemma_min_be(p);
        if p.len() == 0 {
            assert(be_value(p) == 0);
        }
        let v = be_value(s);
        assert(v == be_value(p) * 256 + l);
        assert(v / 256 == be_value(p) && v % 256 == l) by (nonlinear_arith)
            requires
                v == be_value(p) * 256 + l,
                l < 256,
        ;
        assert(s =~= p.push(l));
    }
}

/// The digits of a number denote it, and the first is not `'1'`.
proof fn lemma_digits_text(n: nat)
    ensures
        all_digits(digits_text(n)),
        digits_value(digits_text(n)) == n,
        n > 0 ==> digits_text(n).len() > 0 && digits_text(n)[0] != '1',
    decreases n,
{
    if n > 0 {
        let t = digits_text(n);
        let p = digits_text(n / 58);
        lemma_digits_text(n / 58);
        lemma_digit_char(n % 58);
        assert(t.drop_last() =~= p);
        assert forall|i: int| 0 <= i < t.len() implies #[trigger] char_digit(t[i]) is Some by {
            if i < p.len() {
                assert(t[i] == p[i]);
            }
        }
        assert((n / 58) * 58 + n % 58 == n) by (nonlinear_arith);
        if n / 58 > 0 {
            assert(t[0] == p[0]);
        }
    }
}

/// Leading `'1'`s do not change the number.
proof fn lemma_digits_value_ones(z: nat, s: Seq<char>)
    ensures
        digits_value(Seq::new(z, |i: int| '1') + s) == digits_value(s),
    decreases s.len(), z,
{
    let u = Seq::new(z, |i: int| '1') + s;
    if s.len() == 0 {
        if z > 0 {
            lemma_digits_value_ones((z - 1) as nat, s);
            assert(u.drop_last() =~= Seq::new((z - 1) as nat, |i: int| '1') + s);
        }
    } else {
        lemma_digits_value_ones(z, s.drop_last());
        assert(u.drop_last() =~= Seq::new(z, |i: int| '1') + s.drop_last());
    }
}

/// A base58 text that `rust_base58` wrote reads back as the bytes it was
/// written from.
pub proof fn law_base58_round_trip(bytes: Seq<u8>)
    ensures
        base58_bytes(base58_text(bytes)) == Some(bytes),
{
    let z = leading(bytes, 0u8);
    lemma_leading(bytes, 0u8);
    let rest = bytes.subrange(z as int, bytes.len() as int);
    assert(bytes =~= Seq::new(z, |i: int| 0u8) + rest);
    lemma_be_value_zeros(z, rest);
    let n = be_value(bytes);
    let d = digits_text(n);
    let t = base58_text(bytes);
    lemma_digits_text(n);
    lemma_min_be(rest);
    assert(all_digits(t)) by {
        assert forall|i: int| 0 <= i < t.len() implies #[trigger] char_digit(t[i]) is Some by {
            if i >= z {
                assert(t[i] == d[i - z]);
            }
        }
    }
    lemma_leading_prefix(z, '1', d);
    if n > 0 {
        assert(leading(d, '1') == 0);
    } else {
        assert(d =~= Seq::<char>::empty());
    }
    lemma_digits_value_ones(z, d);
    assert(Seq::new(leading(t, '1'), |i: int| 0u8) + min_be(digits_value(t)) =~= bytes);
}

} // verus!
