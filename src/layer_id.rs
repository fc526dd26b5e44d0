use vstd::prelude::*;
use crate::text::{ascii_chars, ascii_to_string};
use vstd::string::StringSliceAdditionalSpecFns;

verus! {

broadcast use vstd::array::group_array_axioms;

/// A 160-bit layer identifier, as five 32-bit words.
pub type LayerId = [u32; 5];

/// Number of characters in the hexadecimal form of a layer identifier.
pub const NAME_LEN: usize = 40;

/// The lowercase hexadecimal digit for a value below 16.
pub open spec fn hex_char(d: int) -> u8 {
    if d < 10 {
        (48 + d) as u8
    } else {
        (87 + d) as u8
    }
}

pub open spec fn is_hex_digit(c: u8) -> bool {
    (48 <= c <= 57) || (97 <= c <= 102) || (65 <= c <= 70)
}

/// The value of a hexadecimal digit (either case).
pub open spec fn hex_value(c: u8) -> int {
    if 48 <= c <= 57 {
        c - 48
    } else if 97 <= c <= 102 {
        c - 87
    } else {
        c - 55
    }
}

pub open spec fn pow16(n: nat) -> nat
    decreases n,
{
    if n == 0 {
        1
    } else {
        16 * pow16((n - 1) as nat)
    }
}

/// Digit `k` (from the most significant) of the eight-digit form of `w`.
pub open spec fn word_digit(w: u32, k: int) -> int {
    (w as int / pow16((7 - k) as nat) as int) % 16
}

/// The canonical name: eight lowercase hex digits per word, most significant first.
pub open spec fn name_bytes(id: LayerId) -> Seq<u8> {
    Seq::new(40, |i: int| hex_char(word_digit(id[i / 8], i % 8)))
}

/// The value of the `n` hex digits of `b` that start at `start`.
pub open spec fn hex_prefix_value(b: Seq<u8>, start: int, n: nat) -> int
    decreases n,
{
    if n == 0 {
        0
    } else {
        hex_prefix_value(b, start, (n - 1) as nat) * 16 + hex_value(b[start + n - 1])
    }
}

pub open spec fn is_name(b: Seq<u8>) -> bool {
    b.len() == 40 && forall|i: int| 0 <= i < 40 ==> #[trigger] is_hex_digit(b[i])
}

/// The identifier that a valid name stands for, word by word.
pub open spec fn name_id(b: Seq<u8>) -> LayerId {
    [
        hex_prefix_value(b, 0, 8) as u32,
        hex_prefix_value(b, 8, 8) as u32,
        hex_prefix_value(b, 16, 8) as u32,
        hex_prefix_value(b, 24, 8) as u32,
        hex_prefix_value(b, 32, 8) as u32,
    ]
}

proof fn lemma_pow16_facts()
    ensures
        pow16(0) == 1,
        pow16(1) == 16,
        pow16(2) == 256,
        pow16(3) == 4096,
        pow16(4) == 65536,
        pow16(5) == 1048576,
        pow16(6) == 16777216,
        pow16(7) == 268435456,
        pow16(8) == 4294967296,
{
    reveal_with_fuel(pow16, 9);
}

fn hex_digit_char(d: u32) -> (c: u8)
    requires
        d < 16,
    ensures
        c == hex_char(d as int),
        c < 128,
{
    if d < 10 {
        48 + d as u8
    } else {
        87 + d as u8
    }
}

/// The canonical lowercase hexadecimal form of a layer identifier, as bytes.
pub fn name_to_bytes(id: LayerId) -> (r: Vec<u8>)
    ensures
        r@ == name_bytes(id),
{
    let mut r: Vec<u8> = Vec::new();
    let mut w: usize = 0;
    while w < 5
        invariant
            w <= 5,
            r.len() == 8 * w,
            forall|i: int| 0 <= i < r.len() ==> r@[i] == #[trigger] name_bytes(id)[i],
        decreases 5 - w,
    {
        let word = id[w];
        let mut k: u32 = 0;
        while k < 8
            invariant
                w < 5,
                k <= 8,
                word == id[w as int],
                r.len() == 8 * w + k,
                forall|i: int| 0 <= i < r.len() ==> r@[i] == #[trigger] name_bytes(id)[i],
            decreases 8 - k,
        {
            let shift: u32 = 4 * (7 - k);
            let d = (word >> shift) & 15;
            proof {
                lemma_pow16_facts();
                assert(d == (word as int / pow16((7 - k) as nat) as int) % 16) by {
                    lemma_shift_digit(word, k);
                }
                assert(d < 16) by (bit_vector)
                    requires d == (word >> shift) & 15;
            }
            let c = hex_digit_char(d);
            r.push(c);
            proof {
                let i = 8 * w + k;
                assert((i / 8) == w && (i % 8) == k);
            }
            k = k + 1;
        }
        w = w + 1;
    }
    r
}

proof fn lemma_shift_digit(word: u32, k: u32)
    requires
        k < 8,
    ensures
        ((word >> (4 * (7 - k))) & 15) as int == (word as int / pow16((7 - k) as nat) as int) % 16,
{
    lemma_pow16_facts();
    let s: u32 = (4 * (7 - k)) as u32;
    assert((word >> s) & 15 == (word >> s) % 16) by (bit_vector);
    vstd::bits::lemma_u32_shr_is_div(word, s);
    vstd::bits::lemma_u32_pow2_no_overflow(s as nat);
    assert(vstd::arithmetic::power2::pow2(s as nat) == pow16((7 - k) as nat)) by {
        vstd::arithmetic::power2::lemma2_to64();
    }
}

/// The canonical name of a layer identifier, as a string.
pub fn name_to_string(id: LayerId) -> (r: String)
    ensures
        r@ == ascii_chars(name_bytes(id)),
{
    let b = name_to_bytes(id);
    proof {
        assert forall|i: int| 0 <= i < b@.len() implies #[trigger] b@[i] < 128 by {
            assert(b@[i] == name_bytes(id)[i]);
        }
    }
    ascii_to_string(b)
}

fn hex_digit_value(c: u8) -> (r: Option<u32>)
    ensures
        r.is_some() == is_hex_digit(c),
        r.is_some() ==> r.unwrap() as int == hex_value(c) && r.unwrap() < 16,
{
    if 48 <= c && c <= 57 {
        Some((c - 48) as u32)
    } else if 97 <= c && c <= 102 {
        Some((c - 87) as u32)
    } else if 65 <= c && c <= 70 {
        Some((c - 55) as u32)
    } else {
        None
    }
}

proof fn lemma_hex_prefix_bound(b: Seq<u8>, start: int, n: nat)
    requires
        0 <= start,
        start + n <= b.len(),
        forall|i: int| start <= i < start + n ==> #[trigger] is_hex_digit(b[i]),
    ensures
        0 <= hex_prefix_value(b, start, n) < pow16(n),
    decreases n,
{
    if n > 0 {
        lemma_hex_prefix_bound(b, start, (n - 1) as nat);
        assert(is_hex_digit(b[start + n - 1]));
    }
}

/// Parses the hexadecimal form of a layer identifier from bytes: exactly
/// forty hex digits, of either case.
pub fn name_from_bytes(b: &[u8]) -> (r: Option<LayerId>)
    ensures
        r.is_some() <==> is_name(b@),
        r.is_some() ==> r.unwrap() == name_id(b@),
{
    if b.len() != NAME_LEN {
        return None;
    }
    let mut id: LayerId = [0u32; 5];
    let mut w: usize = 0;
    while w < 5
        invariant
            b@.len() == 40,
            w <= 5,
            forall|i: int| 0 <= i < 8 * w ==> #[trigger] is_hex_digit(b@[i]),
            forall|v: int| 0 <= v < w ==> #[trigger] id[v] as int == hex_prefix_value(b@, 8 * v, 8),
        decreases 5 - w,
    {
        let mut acc: u32 = 0;
        let mut k: usize = 0;
        while k < 8
            invariant
                b@.len() == 40,
                w < 5,
                k <= 8,
                forall|i: int| 0 <= i < 8 * w + k ==> #[trigger] is_hex_digit(b@[i]),
                acc as int == hex_prefix_value(b@, 8 * w, k as nat),
            decreases 8 - k,
        {
            let c = b[8 * w + k];
            match hex_digit_value(c) {
                None => {
                    proof {
                        assert(!is_hex_digit(b@[8 * w + k]));
                    }
                    return None;
                },
                Some(d) => {
                    proof {
                        lemma_hex_prefix_bound(b@, 8 * w, k as nat);
                        lemma_pow16_facts();
                        reveal_with_fuel(pow16, 8);
                        assert(acc as int * 16 + d < pow16((k + 1) as nat)) by (nonlinear_arith)
                            requires
                                (acc as int) < pow16(k as nat),
                                d < 16,
                                pow16((k + 1) as nat) == 16 * pow16(k as nat);
                        assert(pow16((k + 1) as nat) <= pow16(8)) by {
                            lemma_pow16_mono((k + 1) as nat, 8);
                        }
                    }
                    acc = acc * 16 + d;
                },
            }
            k = k + 1;
        }
        id[w] = acc;
        w = w + 1;
    }
    proof {
        assert(id =~= name_id(b@));
    }
    Some(id)
}

proof fn lemma_pow16_mono(a: nat, b: nat)
    requires
        a <= b,
    ensures
        pow16(a) <= pow16(b),
    decreases b - a,
{
    if a < b {
        lemma_pow16_mono(a, (b - 1) as nat);
    }
}

/// Parses the hexadecimal form of a layer identifier.
pub fn string_to_name(s: &str) -> (r: Option<LayerId>)
    ensures
        r.is_some() <==> is_name(s.spec_bytes()),
        r.is_some() ==> r.unwrap() == name_id(s.spec_bytes()),
{
    name_from_bytes(s.as_bytes())
}

proof fn lemma_pow16_pos(n: nat)
    ensures
        pow16(n) > 0,
    decreases n,
{
    if n > 0 {
        lemma_pow16_pos((n - 1) as nat);
    }
}

proof fn lemma_word_digits(id: LayerId, v: int, n: nat)
    requires
        0 <= v < 5,
        n <= 8,
    ensures
        hex_prefix_value(name_bytes(id), 8 * v, n) == id[v] as int / pow16((8 - n) as nat) as int,
    decreases n,
{
    let w = id[v] as int;
    lemma_pow16_pos((8 - n) as nat);
    if n == 0 {
        lemma_pow16_facts();
        assert(w < pow16(8));
        vstd::arithmetic::div_mod::lemma_basic_div(w, pow16(8) as int);
    } else {
        lemma_word_digits(id, v, (n - 1) as nat);
        let k = n - 1;
        let i = 8 * v + k;
        assert(i / 8 == v && i % 8 == k) by {
            vstd::arithmetic::div_mod::lemma_fundamental_div_mod_converse(i, 8, v, k);
        }
        let d = word_digit(id[v], k);
        let small = pow16((8 - n) as nat) as int;
        assert(pow16((9 - n) as nat) == 16 * pow16((8 - n) as nat));
        let q = w / small;
        assert(d == q % 16);
        assert(0 <= d < 16);
        assert(hex_value(hex_char(d)) == d);
        assert(name_bytes(id)[i] == hex_char(d));
        vstd::arithmetic::div_mod::lemma_div_denominator(w, small, 16);
        assert(w / (small * 16) == q / 16);
        assert(small * 16 == pow16((9 - n) as nat));
        vstd::arithmetic::div_mod::lemma_fundamental_div_mod(q, 16);
    }
}

/// The canonical name reads back as the identifier it was written from, so
/// a status line written for a layer is read back for that layer.
pub proof fn law_name_round_trip(id: LayerId)
    ensures
        is_name(name_bytes(id)),
        name_id(name_bytes(id)) == id,
{
    assert forall|i: int| 0 <= i < 40 implies #[trigger] is_hex_digit(name_bytes(id)[i]) by {
        let d = word_digit(id[i / 8], i % 8);
        lemma_pow16_pos((7 - i % 8) as nat);
        assert(0 <= d < 16);
    }
    lemma_pow16_facts();
    lemma_word_digits(id, 0, 8);
    lemma_word_digits(id, 1, 8);
    lemma_word_digits(id, 2, 8);
    lemma_word_digits(id, 3, 8);
    lemma_word_digits(id, 4, 8);
    assert(name_id(name_bytes(id)) =~= id);
}

} // verus!
