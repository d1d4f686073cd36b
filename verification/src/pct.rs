//! Percent-encoding and -decoding of bytes as used in URL query components.
//!
//! Encoding keeps the RFC 3986 unreserved bytes and writes every other byte
//! as `%XX` with upper-case hex digits; a space therefore becomes `%20`.
//! Decoding additionally maps a literal `+` to a space, as form-urlencoded
//! query strings use it, and leaves malformed `%` sequences untouched.

use vstd::prelude::*;

verus! {

/// The RFC 3986 unreserved bytes: ASCII letters, digits, `-`, `.`, `_`, `~`.
pub open spec fn is_unreserved_byte(b: u8) -> bool {
    (0x41 <= b <= 0x5a)  // 'A'..='Z'
    || (0x61 <= b <= 0x7a)  // 'a'..='z'
    || (0x30 <= b <= 0x39)  // '0'..='9'
    || b == 0x2d  // '-'
    || b == 0x2e  // '.'
    || b == 0x5f  // '_'
    || b == 0x7e  // '~'
}

/// The upper-case hex digit for a value below 16.
pub open spec fn hex_digit(n: u8) -> u8
    recommends
        n < 16,
{
    if n < 10 {
        (0x30 + n) as u8  // '0'..='9'
    } else {
        (0x41 + (n - 10)) as u8  // 'A'..='F'
    }
}

pub open spec fn is_hex_byte(b: u8) -> bool {
    (0x30 <= b <= 0x39) || (0x41 <= b <= 0x46) || (0x61 <= b <= 0x66)
}

/// The value of a hex digit byte (either case).
pub open spec fn hex_value(b: u8) -> u8
    recommends
        is_hex_byte(b),
{
    if 0x30 <= b <= 0x39 {
        (b - 0x30) as u8
    } else if 0x41 <= b <= 0x46 {
        (b - 0x41 + 10) as u8
    } else {
        (b - 0x61 + 10) as u8
    }
}

/// How one byte is percent-encoded: unreserved bytes stand for themselves,
/// every other byte becomes `%` followed by two hex digits.
pub open spec fn pct_encode_byte(b: u8) -> Seq<u8> {
    if is_unreserved_byte(b) {
        seq![b]
    } else {
        seq![0x25u8, hex_digit(b / 16), hex_digit(b % 16)]
    }
}

/// Percent-encoding of a byte sequence.
pub open spec fn pct_encode(s: Seq<u8>) -> Seq<u8>
    decreases s.len(),
{
    if s.len() == 0 {
        Seq::empty()
    } else {
        pct_encode_byte(s[0]) + pct_encode(s.drop_first())
    }
}

/// Percent-decoding of a byte sequence: `%XX` with two hex digits becomes the
/// byte it names, `+` becomes a space, and everything else (including a `%`
/// not followed by two hex digits) stands for itself.
pub open spec fn pct_decode(s: Seq<u8>) -> Seq<u8>
    decreases s.len(),
{
    if s.len() == 0 {
        Seq::empty()
    } else if s[0] == 0x25 && s.len() >= 3 && is_hex_byte(s[1]) && is_hex_byte(s[2]) {
        seq![(hex_value(s[1]) * 16 + hex_value(s[2])) as u8] + pct_decode(s.skip(3))
    } else if s[0] == 0x2b {
        seq![0x20u8] + pct_decode(s.skip(1))
    } else {
        seq![s[0]] + pct_decode(s.skip(1))
    }
}

proof fn lemma_pct_encode_snoc(s: Seq<u8>, b: u8)
    ensures
        pct_encode(s.push(b)) == pct_encode(s) + pct_encode_byte(b),
    decreases s.len(),
{
    if s.len() == 0 {
        assert(s.push(b).drop_first() =~= s);
        assert(pct_encode(s.push(b)) =~= pct_encode(s) + pct_encode_byte(b));
    } else {
        assert(s.push(b).drop_first() =~= s.drop_first().push(b));
        lemma_pct_encode_snoc(s.drop_first(), b);
        assert(pct_encode(s.push(b)) =~= pct_encode(s) + pct_encode_byte(b));
    }
}

fn hex_digit_exec(n: u8) -> (r: u8)
    requires
        n < 16,
    ensures
        r == hex_digit(n),
{
    if n < 10 {
        0x30 + n
    } else {
        0x41 + (n - 10)
    }
}

fn is_unreserved_exec(b: u8) -> (r: bool)
    ensures
        r == is_unreserved_byte(b),
{
    (0x41 <= b && b <= 0x5a) || (0x61 <= b && b <= 0x7a) || (0x30 <= b && b <= 0x39) || b == 0x2d
        || b == 0x2e || b == 0x5f || b == 0x7e
}

fn is_hex_exec(b: u8) -> (r: bool)
    ensures
        r == is_hex_byte(b),
{
    (0x30 <= b && b <= 0x39) || (0x41 <= b && b <= 0x46) || (0x61 <= b && b <= 0x66)
}

fn hex_value_exec(b: u8) -> (r: u8)
    requires
        is_hex_byte(b),
    ensures
        r == hex_value(b),
{
    if 0x30 <= b && b <= 0x39 {
        b - 0x30
    } else if 0x41 <= b && b <= 0x46 {
        b - 0x41 + 10
    } else {
        b - 0x61 + 10
    }
}

/// Percent-encodes a byte string.
pub fn percent_encode(input: &[u8]) -> (out: Vec<u8>)
    ensures
        out@ == pct_encode(input@),
{
    let mut out: Vec<u8> = Vec::new();
    let mut i: usize = 0;
    while i < input.len()
        invariant
            i <= input.len(),
            out@ == pct_encode(input@.take(i as int)),
        decreases input.len() - i,
    {
        let b = input[i];
        if is_unreserved_exec(b) {
            out.push(b);
        } else {
            out.push(0x25);
            out.push(hex_digit_exec(b / 16));
            out.push(hex_digit_exec(b % 16));
        }
        proof {
            assert(input@.take(i + 1) =~= input@.take(i as int).push(b));
            lemma_pct_encode_snoc(input@.take(i as int), b);
        }
        i = i + 1;
    }
    proof {
        assert(input@.take(input@.len() as int) =~= input@);
    }
    out
}

/// Percent-decodes a byte string.
pub fn percent_decode(input: &[u8]) -> (out: Vec<u8>)
    ensures
        out@ == pct_decode(input@),
{
    let mut out: Vec<u8> = Vec::new();
    let mut i: usize = 0;
    proof {
        assert(input@.skip(0) =~= input@);
        assert(Seq::<u8>::empty() + pct_decode(input@) =~= pct_decode(input@));
    }
    while i < input.len()
        invariant
            i <= input.len(),
            pct_decode(input@) == out@ + pct_decode(input@.skip(i as int)),
        decreases input.len() - i,
    {
        let ghost rest = input@.skip(i as int);
        let b = input[i];
        assert(rest[0] == b);
        if b == 0x25 && input.len() - i > 2 && is_hex_exec(input[i + 1]) && is_hex_exec(
            input[i + 2],
        ) {
            let v = hex_value_exec(input[i + 1]) * 16 + hex_value_exec(input[i + 2]);
            out.push(v);
            proof {
                assert(rest[1] == input@[i + 1] && rest[2] == input@[i + 2]);
                assert(rest.skip(3) =~= input@.skip(i + 3));
            }
            i = i + 3;
        } else if b == 0x2b {
            out.push(0x20);
            proof {
                assert(rest.skip(1) =~= input@.skip(i + 1));
            }
            i = i + 1;
        } else {
            out.push(b);
            proof {
                assert(i + 2 < input.len() ==> (rest.len() >= 3 && rest[1] == input@[i + 1]
                    && rest[2] == input@[i + 2]));
                assert(i + 2 >= input.len() ==> rest.len() < 3);
                assert(rest.skip(1) =~= input@.skip(i + 1));
            }
            i = i + 1;
        }
    }
    proof {
        assert(input@.skip(input@.len() as int) =~= Seq::<u8>::empty());
        assert(out@ + Seq::<u8>::empty() =~= out@);
    }
    out
}

/// Every byte of a percent-encoded string is unreserved or `%`; in
/// particular the encoding contains no `&`, `=`, `+` or space, and is ASCII.
pub proof fn lemma_pct_encode_byte_range(s: Seq<u8>)
    ensures
        forall|i: int|
            0 <= i < pct_encode(s).len() ==> (is_unreserved_byte(#[trigger] pct_encode(s)[i])
                || pct_encode(s)[i] == 0x25),
    decreases s.len(),
{
    if s.len() == 0 {
    } else {
        lemma_pct_encode_byte_range(s.drop_first());
        let head = pct_encode_byte(s[0]);
        let rest = pct_encode(s.drop_first());
        assert forall|i: int| 0 <= i < pct_encode(s).len() implies (is_unreserved_byte(
            #[trigger] pct_encode(s)[i],
        ) || pct_encode(s)[i] == 0x25) by {
            if i < head.len() {
                assert(pct_encode(s)[i] == head[i]);
            } else {
                assert(pct_encode(s)[i] == rest[i - head.len()]);
            }
        }
    }
}

/// Decoding inverts encoding: percent-encoding never loses information.
pub proof fn lemma_pct_decode_encode(s: Seq<u8>)
    ensures
        pct_decode(pct_encode(s)) == s,
    decreases s.len(),
{
    if s.len() == 0 {
        assert(pct_decode(pct_encode(s)) =~= s);
    } else {
        let b = s[0];
        let head = pct_encode_byte(b);
        let rest = pct_encode(s.drop_first());
        lemma_pct_decode_encode(s.drop_first());
        if is_unreserved_byte(b) {
            assert((head + rest).skip(1) =~= rest);
            assert(pct_decode(pct_encode(s)) =~= s);
        } else {
            assert((head + rest).skip(3) =~= rest);
            assert(hex_value(hex_digit(b / 16)) == b / 16);
            assert(hex_value(hex_digit(b % 16)) == b % 16);
            assert(b / 16 * 16 + b % 16 == b);
            assert(pct_decode(pct_encode(s)) =~= s);
        }
    }
}

} // verus!
