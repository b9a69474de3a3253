//! Standard base64 (RFC 4648 alphabet, `=` padding) over bytes.
use vstd::prelude::*;

verus! {

/// The character (as an ASCII byte) that stands for a six-bit value.
pub open spec fn alphabet(x: u8) -> u8 {
    if x < 26 {
        (65 + x) as u8
    } else if x < 52 {
        (97 + (x - 26)) as u8
    } else if x < 62 {
        (48 + (x - 52)) as u8
    } else if x == 62 {
        43u8
    } else {
        47u8
    }
}

/// The six-bit value of an alphabet character, or `None` for any other byte.
pub open spec fn sextet_value(c: u8) -> Option<u8> {
    if 65 <= c <= 90 {
        Some((c - 65) as u8)
    } else if 97 <= c <= 122 {
        Some((c - 97 + 26) as u8)
    } else if 48 <= c <= 57 {
        Some((c - 48 + 52) as u8)
    } else if c == 43 {
        Some(62u8)
    } else if c == 47 {
        Some(63u8)
    } else {
        None
    }
}

/// The padding character `=`.
pub const PAD: u8 = 61;

/// Byte `i` of `b`, or zero past its end.
pub open spec fn byte_or_zero(b: Seq<u8>, i: int) -> u8 {
    if 0 <= i < b.len() {
        b[i]
    } else {
        0u8
    }
}

/// Six-bit value `r` (0..4) of the group of three bytes starting at `3 * g`.
pub open spec fn group_sextet(b: Seq<u8>, g: int, r: int) -> u8 {
    let b0 = byte_or_zero(b, 3 * g);
    let b1 = byte_or_zero(b, 3 * g + 1);
    let b2 = byte_or_zero(b, 3 * g + 2);
    if r == 0 {
        b0 >> 2u8
    } else if r == 1 {
        ((b0 & 3u8) << 4u8) | (b1 >> 4u8)
    } else if r == 2 {
        ((b1 & 15u8) << 2u8) | (b2 >> 6u8)
    } else {
        b2 & 63u8
    }
}

/// Output character `r` of group `g`: padding where the group runs past the input.
pub open spec fn encoded_at(b: Seq<u8>, g: int, r: int) -> u8 {
    if (r == 2 && 3 * g + 1 >= b.len()) || (r == 3 && 3 * g + 2 >= b.len()) {
        PAD
    } else {
        alphabet(group_sextet(b, g, r))
    }
}

pub open spec fn encoded_len(n: int) -> int {
    4 * ((n + 2) / 3)
}

/// The base64 text of `b`, as ASCII bytes.
pub open spec fn base64_encode(b: Seq<u8>) -> Seq<u8> {
    Seq::new(encoded_len(b.len() as int) as nat, |j: int| encoded_at(b, j / 4, j % 4))
}

/// Number of `=` at the end of a text of length divisible by four.
pub open spec fn pad_count(s: Seq<u8>) -> int {
    if s.len() >= 1 && s[s.len() - 1] == PAD {
        if s.len() >= 2 && s[s.len() - 2] == PAD {
            2
        } else {
            1
        }
    } else {
        0
    }
}

/// `s` is well-formed base64: whole groups of four, alphabet characters, and
/// at most two `=` that close the text.
pub open spec fn is_base64(s: Seq<u8>) -> bool {
    &&& s.len() % 4 == 0
    &&& forall|j: int|
        0 <= j < s.len() - pad_count(s) ==> (#[trigger] sextet_value(s[j])).is_some()
}

/// Six-bit value of character `r` of group `g` (padding counts as zero).
pub open spec fn value_at(s: Seq<u8>, g: int, r: int) -> u8 {
    match sextet_value(s[4 * g + r]) {
        Some(v) => v,
        None => 0u8,
    }
}

/// Byte `r` (0..3) that group `g` of the text stands for.
pub open spec fn decoded_at(s: Seq<u8>, g: int, r: int) -> u8 {
    let v0 = value_at(s, g, 0);
    let v1 = value_at(s, g, 1);
    let v2 = value_at(s, g, 2);
    let v3 = value_at(s, g, 3);
    if r == 0 {
        (v0 << 2u8) | (v1 >> 4u8)
    } else if r == 1 {
        ((v1 & 15u8) << 4u8) | (v2 >> 2u8)
    } else {
        ((v2 & 3u8) << 6u8) | v3
    }
}

pub open spec fn decoded_len(s: Seq<u8>) -> int {
    3 * (s.len() / 4) - pad_count(s)
}

/// The bytes that a base64 text stands for, or `None` where it is not base64.
pub open spec fn base64_decode(s: Seq<u8>) -> Option<Seq<u8>> {
    if is_base64(s) {
        Some(Seq::new(decoded_len(s) as nat, |k: int| decoded_at(s, k / 3, k % 3)))
    } else {
        None
    }
}

proof fn lemma_alphabet_value(x: u8)
    requires
        x < 64,
    ensures
        sextet_value(alphabet(x)) == Some(x),
        alphabet(x) != PAD,
{
}

proof fn lemma_group_bits(b0: u8, b1: u8, b2: u8)
    ensures
        ((b0 >> 2u8) << 2u8) | ((((b0 & 3u8) << 4u8) | (b1 >> 4u8)) >> 4u8) == b0,
        (((((b0 & 3u8) << 4u8) | (b1 >> 4u8)) & 15u8) << 4u8) | ((((b1 & 15u8) << 2u8) | (b2
            >> 6u8)) >> 2u8) == b1,
        (((((b1 & 15u8) << 2u8) | (b2 >> 6u8)) & 3u8) << 6u8) | (b2 & 63u8) == b2,
        b0 >> 2u8 < 64,
        ((b0 & 3u8) << 4u8) | (b1 >> 4u8) < 64,
        ((b1 & 15u8) << 2u8) | (b2 >> 6u8) < 64,
        b2 & 63u8 < 64,
        ((0u8 & 15u8) << 2u8) | (0u8 >> 6u8) == 0,
        ((b1 & 15u8) << 2u8) | (0u8 >> 6u8) == (b1 & 15u8) << 2u8,
        0u8 & 63u8 == 0,
{
    assert(((b0 >> 2u8) << 2u8) | ((((b0 & 3u8) << 4u8) | (b1 >> 4u8)) >> 4u8) == b0)
        by (bit_vector);
    assert((((((b0 & 3u8) << 4u8) | (b1 >> 4u8)) & 15u8) << 4u8) | ((((b1 & 15u8) << 2u8) | (b2
        >> 6u8)) >> 2u8) == b1) by (bit_vector);
    assert((((((b1 & 15u8) << 2u8) | (b2 >> 6u8)) & 3u8) << 6u8) | (b2 & 63u8) == b2)
        by (bit_vector);
    assert(b0 >> 2u8 < 64) by (bit_vector);
    assert(((b0 & 3u8) << 4u8) | (b1 >> 4u8) < 64) by (bit_vector);
    assert(((b1 & 15u8) << 2u8) | (b2 >> 6u8) < 64) by (bit_vector);
    assert(b2 & 63u8 < 64) by (bit_vector);
    assert(((0u8 & 15u8) << 2u8) | (0u8 >> 6u8) == 0) by (bit_vector);
    assert(((b1 & 15u8) << 2u8) | (0u8 >> 6u8) == (b1 & 15u8) << 2u8) by (bit_vector);
    assert(0u8 & 63u8 == 0) by (bit_vector);
}

proof fn lemma_div_mod(i: int, r: int, d: int)
    requires
        0 <= i,
        0 <= r < d,
        d > 0,
    ensures
        (d * i + r) / d == i,
        (d * i + r) % d == r,
{
    assert((d * i + r) / d == i) by (nonlinear_arith)
        requires
            0 <= i,
            0 <= r < d,
            d > 0,
    ;
    assert((d * i + r) % d == r) by (nonlinear_arith)
        requires
            0 <= i,
            0 <= r < d,
            d > 0,
    ;
}

/// Decoding the encoding of any bytes gives those bytes back.
pub proof fn lemma_base64_round_trip(b: Seq<u8>)
    ensures
        base64_decode(base64_encode(b)) == Some(b),
{
    let s = base64_encode(b);
    let n = b.len() as int;
    let groups = (n + 2) / 3;
    assert(s.len() == 4 * groups);
    assert(s.len() % 4 == 0) by {
        lemma_div_mod(groups, 0, 4);
    }
    assert(s.len() / 4 == groups) by {
        lemma_div_mod(groups, 0, 4);
    }
    // the padding at the end
    let p = (3 - n % 3) % 3;
    if groups > 0 {
        let g = groups - 1;
        lemma_div_mod(g, 3, 4);
        lemma_div_mod(g, 2, 4);
        assert(3 * g < n && n <= 3 * g + 3);
        assert(s[4 * g + 3] == encoded_at(b, g, 3));
        assert(s[4 * g + 2] == encoded_at(b, g, 2));
        lemma_group_bits(byte_or_zero(b, 3 * g), byte_or_zero(b, 3 * g + 1), byte_or_zero(b, 3 * g + 2));
        lemma_alphabet_value(group_sextet(b, g, 2));
        lemma_alphabet_value(group_sextet(b, g, 3));
    }
    assert(pad_count(s) == p);
    assert forall|j: int| 0 <= j < s.len() - pad_count(s) implies (#[trigger] sextet_value(
        s[j],
    )).is_some() by {
        let g = j / 4;
        let r = j % 4;
        lemma_div_mod(g, r, 4);
        assert(4 * g + r == j);
        lemma_group_bits(byte_or_zero(b, 3 * g), byte_or_zero(b, 3 * g + 1), byte_or_zero(b, 3 * g + 2));
        lemma_alphabet_value(group_sextet(b, g, r));
    }
    assert(is_base64(s));
    let d = base64_decode(s).unwrap();
    assert(d.len() == n);
    assert forall|k: int| 0 <= k < n implies #[trigger] d[k] == b[k] by {
        let g = k / 3;
        let r = k % 3;
        lemma_div_mod(g, r, 3);
        assert(3 * g + r == k);
        let b0 = byte_or_zero(b, 3 * g);
        let b1 = byte_or_zero(b, 3 * g + 1);
        let b2 = byte_or_zero(b, 3 * g + 2);
        lemma_group_bits(b0, b1, b2);
        lemma_div_mod(g, 0, 4);
        lemma_div_mod(g, 1, 4);
        lemma_div_mod(g, 2, 4);
        lemma_div_mod(g, 3, 4);
        lemma_alphabet_value(group_sextet(b, g, 0));
        lemma_alphabet_value(group_sextet(b, g, 1));
        lemma_alphabet_value(group_sextet(b, g, 2));
        lemma_alphabet_value(group_sextet(b, g, 3));
        assert(value_at(s, g, 0) == group_sextet(b, g, 0));
        assert(value_at(s, g, 1) == group_sextet(b, g, 1));
        assert(value_at(s, g, 2) == group_sextet(b, g, 2));
        assert(value_at(s, g, 3) == group_sextet(b, g, 3));
    }
    assert(d =~= b);
}

fn encode_sextet(x: u8) -> (r: u8)
    requires
        x < 64,
    ensures
        r == alphabet(x),
{
    if x < 26 {
        65 + x
    } else if x < 52 {
        97 + (x - 26)
    } else if x < 62 {
        48 + (x - 52)
    } else if x == 62 {
        43
    } else {
        47
    }
}

fn sextet_of(c: u8) -> (r: Option<u8>)
    ensures
        r == sextet_value(c),
{
    if 65 <= c && c <= 90 {
        Some(c - 65)
    } else if 97 <= c && c <= 122 {
        Some(c - 97 + 26)
    } else if 48 <= c && c <= 57 {
        Some(c - 48 + 52)
    } else if c == 43 {
        Some(62)
    } else if c == 47 {
        Some(63)
    } else {
        None
    }
}

fn get_or_zero(b: &[u8], i: usize) -> (r: u8)
    ensures
        r == byte_or_zero(b@, i as int),
{
    if i < b.len() {
        b[i]
    } else {
        0
    }
}

/// Encodes bytes as base64 text (ASCII bytes).
pub fn encode(b: &[u8]) -> (r: Vec<u8>)
    requires
        b@.len() <= usize::MAX / 2,
    ensures
        r@ == base64_encode(b@),
{
    let n = b.len();
    let groups: usize = (n + 2) / 3;
    let mut out: Vec<u8> = Vec::with_capacity(4 * groups);
    let mut g: usize = 0;
    while g < groups
        invariant
            n == b@.len(),
            n <= usize::MAX / 2,
            groups == (n + 2) / 3,
            g <= groups,
            out@.len() == 4 * g,
            forall|j: int| 0 <= j < 4 * g ==> out@[j] == encoded_at(b@, j / 4, j % 4),
        decreases groups - g,
    {
        let b0 = get_or_zero(b, 3 * g);
        let b1 = get_or_zero(b, 3 * g + 1);
        let b2 = get_or_zero(b, 3 * g + 2);
        proof {
            lemma_group_bits(b0, b1, b2);
        }
        let c0 = encode_sextet(b0 >> 2);
        let c1 = encode_sextet(((b0 & 3) << 4) | (b1 >> 4));
        let c2 = if 3 * g + 1 >= n {
            PAD
        } else {
            encode_sextet(((b1 & 15) << 2) | (b2 >> 6))
        };
        let c3 = if 3 * g + 2 >= n {
            PAD
        } else {
            encode_sextet(b2 & 63)
        };
        let ghost before = out@;
        out.push(c0);
        out.push(c1);
        out.push(c2);
        out.push(c3);
        proof {
            assert forall|j: int| 0 <= j < 4 * (g + 1) implies out@[j] == encoded_at(
                b@,
                j / 4,
                j % 4,
            ) by {
                if j >= 4 * g {
                    lemma_div_mod(g as int, j - 4 * g, 4);
                    assert(j / 4 == g as int && j % 4 == j - 4 * g);
                } else {
                    assert(out@[j] == before[j]);
                }
            }
        }
        g = g + 1;
    }
    assert(out@ =~= base64_encode(b@));
    out
}

fn value_or_zero(c: u8) -> (r: u8)
    ensures
        r == (match sextet_value(c) {
            Some(v) => v,
            None => 0u8,
        }),
{
    match sextet_of(c) {
        Some(v) => v,
        None => 0,
    }
}

/// Decodes base64 text; `None` where the text is not base64.
pub fn decode(s: &[u8]) -> (r: Option<Vec<u8>>)
    ensures
        match r {
            Some(v) => base64_decode(s@) == Some(v@),
            None => base64_decode(s@).is_none(),
        },
{
    let n = s.len();
    if n % 4 != 0 {
        return None;
    }
    let pads: usize = if n >= 1 && s[n - 1] == PAD {
        if n >= 2 && s[n - 2] == PAD {
            2
        } else {
            1
        }
    } else {
        0
    };
    assert(pads == pad_count(s@));
    let mut j: usize = 0;
    while j < n - pads
        invariant
            n == s@.len(),
            pads == pad_count(s@),
            pads <= n,
            j <= n - pads,
            forall|k: int| 0 <= k < j ==> (#[trigger] sextet_value(s@[k])).is_some(),
        decreases n - pads - j,
    {
        if sextet_of(s[j]).is_none() {
            return None;
        }
        j = j + 1;
    }
    assert(is_base64(s@));
    let groups: usize = n / 4;
    let mut out: Vec<u8> = Vec::with_capacity(3 * groups);
    let mut g: usize = 0;
    while g < groups
        invariant
            n == s@.len(),
            groups == n / 4,
            g <= groups,
            out@.len() == 3 * g,
            forall|k: int| 0 <= k < 3 * g ==> out@[k] == decoded_at(s@, k / 3, k % 3),
        decreases groups - g,
    {
        assert(4 * g + 3 < n) by {
            lemma_div_mod(g as int, 0, 4);
        }
        let v0 = value_or_zero(s[4 * g]);
        let v1 = value_or_zero(s[4 * g + 1]);
        let v2 = value_or_zero(s[4 * g + 2]);
        let v3 = value_or_zero(s[4 * g + 3]);
        let ghost before = out@;
        out.push((v0 << 2) | (v1 >> 4));
        out.push(((v1 & 15) << 4) | (v2 >> 2));
        out.push(((v2 & 3) << 6) | v3);
        proof {
            assert forall|k: int| 0 <= k < 3 * (g + 1) implies out@[k] == decoded_at(
                s@,
                k / 3,
                k % 3,
            ) by {
                if k >= 3 * g {
                    lemma_div_mod(g as int, k - 3 * g, 3);
                } else {
                    assert(out@[k] == before[k]);
                }
            }
        }
        g = g + 1;
    }
    out.truncate(3 * groups - pads);
    assert(out@ =~= base64_decode(s@).unwrap());
    Some(out)
}

} // verus!
