use vstd::prelude::*;
use vstd::string::StringSliceAdditionalSpecFns;
use crate::text::{all_ascii, ascii_chars, ascii_to_string, copy_range};

verus! {

/// A decimal literal that is neither plain nor in scientific notation.
#[derive(Debug)]
pub struct DecimalValidationError {
    pub value: String,
}

pub const MINUS: u8 = 45;

pub const PLUS: u8 = 43;

pub const DOT: u8 = 46;

pub const ZERO: u8 = 48;

pub open spec fn is_digit(c: u8) -> bool {
    48 <= c <= 57
}

/// The first position at or after `from` that does not hold a digit.
pub open spec fn digit_end(b: Seq<u8>, from: int) -> int
    decreases b.len() - from,
{
    if from >= b.len() {
        b.len() as int
    } else if is_digit(b[from]) {
        digit_end(b, from + 1)
    } else {
        from
    }
}

/// The number that a run of digits writes.
pub open spec fn digits_value(s: Seq<u8>) -> int
    decreases s.len(),
{
    if s.len() == 0 {
        0
    } else {
        digits_value(s.drop_last()) * 10 + (s.last() - 48)
    }
}

pub open spec fn zeros(n: int) -> Seq<u8> {
    Seq::new(if n < 0 { 0 } else { n as nat }, |i: int| ZERO)
}

/// Where the digits start: after a leading minus, if any.
pub open spec fn sign_len(b: Seq<u8>) -> int {
    if b.len() > 0 && b[0] == MINUS {
        1
    } else {
        0
    }
}

/// A plain decimal: an optional minus, digits, and optionally a dot
/// followed by digits.
pub open spec fn plain_decimal(b: Seq<u8>) -> bool {
    let i = sign_len(b);
    let j = digit_end(b, i);
    j > i && (j == b.len() || (b[j] == DOT && digit_end(b, j + 1) > j + 1 && digit_end(b, j + 1)
        == b.len()))
}

/// Scientific notation: an optional minus, digits, a dot, optional digits,
/// `e` or `E`, a sign, and digits.
pub open spec fn scientific_decimal(b: Seq<u8>) -> bool {
    let i = sign_len(b);
    let j = digit_end(b, i);
    let k = digit_end(b, j + 1);
    &&& j > i
    &&& j < b.len()
    &&& b[j] == DOT
    &&& k + 1 < b.len()
    &&& (b[k] == 101 || b[k] == 69)
    &&& (b[k + 1] == PLUS || b[k + 1] == MINUS)
    &&& digit_end(b, k + 2) > k + 2
    &&& digit_end(b, k + 2) == b.len()
}

/// The exponent's digits of a literal in scientific notation.
pub open spec fn exponent_digits(b: Seq<u8>) -> Seq<u8> {
    let k = digit_end(b, digit_end(b, sign_len(b)) + 1);
    b.subrange(k + 2, b.len() as int)
}

/// Digits written out without an exponent, the value kept: for a negative
/// exponent `e` the dot moves left by `e` (behind `0.` and zeros where the
/// integer digits run out); otherwise it moves right by `e`, zeros filling
/// in, and no dot is left where no digit follows it.
pub open spec fn plain_from_parts(sign: Seq<u8>, ip: Seq<u8>, fp: Seq<u8>, negative: bool, e: int) -> Seq<u8> {
    if negative && e > 0 {
        if e >= ip.len() {
            sign + seq![ZERO, DOT] + zeros(e - ip.len()) + ip + fp
        } else {
            sign + ip.subrange(0, ip.len() - e) + seq![DOT] + ip.subrange(ip.len() - e, ip.len() as int)
                + fp
        }
    } else if fp.len() <= e {
        sign + ip + fp + zeros(e - fp.len())
    } else {
        sign + ip + fp.subrange(0, e) + seq![DOT] + fp.subrange(e, fp.len() as int)
    }
}

/// A literal in scientific notation written out as a plain decimal, its
/// sign kept.
pub open spec fn scientific_to_plain(b: Seq<u8>) -> Seq<u8> {
    let i = sign_len(b);
    let j = digit_end(b, i);
    let k = digit_end(b, j + 1);
    plain_from_parts(
        b.subrange(0, i),
        b.subrange(i, j),
        b.subrange(j + 1, k),
        b[k + 1] == MINUS,
        digits_value(exponent_digits(b)),
    )
}

proof fn lemma_digit_end_range(b: Seq<u8>, from: int)
    requires
        0 <= from,
    ensures
        from <= b.len() ==> from <= digit_end(b, from) <= b.len(),
        from > b.len() ==> digit_end(b, from) == b.len(),
        forall|x: int| from <= x < digit_end(b, from) ==> #[trigger] is_digit(b[x]),
        digit_end(b, from) < b.len() ==> !is_digit(b[digit_end(b, from)]),
    decreases b.len() - from,
{
    if from < b.len() && is_digit(b[from]) {
        lemma_digit_end_range(b, from + 1);
    }
}

fn find_digit_end(b: &[u8], from: usize) -> (r: usize)
    requires
        from <= b@.len(),
    ensures
        r as int == digit_end(b@, from as int),
{
    let mut k: usize = from;
    while k < b.len()
        invariant
            from <= k <= b@.len(),
            digit_end(b@, from as int) == digit_end(b@, k as int),
        decreases b.len() - k,
    {
        if !(48 <= b[k] && b[k] <= 57) {
            return k;
        }
        k = k + 1;
    }
    k
}

proof fn lemma_digits_value_mono(s: Seq<u8>, a: int, c: int)
    requires
        0 <= a <= c <= s.len(),
        forall|x: int| 0 <= x < s.len() ==> #[trigger] is_digit(s[x]),
    ensures
        0 <= digits_value(s.take(a)) <= digits_value(s.take(c)),
    decreases c - a,
{
    if a < c {
        lemma_digits_value_mono(s, a, c - 1);
        assert(s.take(c).drop_last() == s.take(c - 1));
        assert(is_digit(s[c - 1]));
        lemma_digits_value_nonneg(s.take(c - 1));
    } else {
        lemma_digits_value_nonneg(s.take(a));
    }
}

proof fn lemma_digits_value_nonneg(s: Seq<u8>)
    requires
        forall|x: int| 0 <= x < s.len() ==> #[trigger] is_digit(s[x]),
    ensures
        digits_value(s) >= 0,
    decreases s.len(),
{
    if s.len() > 0 {
        assert(is_digit(s[s.len() - 1]));
        lemma_digits_value_nonneg(s.drop_last());
    }
}

/// The value of a run of digits, if it fits in a `usize`.
fn parse_digits(b: &[u8], from: usize) -> (r: Option<usize>)
    requires
        from <= b@.len(),
        forall|x: int| from <= x < b@.len() ==> #[trigger] is_digit(b@[x]),
    ensures
        r.is_some() <==> digits_value(b@.subrange(from as int, b@.len() as int)) <= usize::MAX,
        r.is_some() ==> r.unwrap() == digits_value(b@.subrange(from as int, b@.len() as int)),
{
    let ghost s = b@.subrange(from as int, b@.len() as int);
    let mut acc: usize = 0;
    let mut k: usize = from;
    while k < b.len()
        invariant
            from <= k <= b@.len(),
            s == b@.subrange(from as int, b@.len() as int),
            forall|x: int| from <= x < b@.len() ==> #[trigger] is_digit(b@[x]),
            acc == digits_value(s.take(k - from)),
        decreases b.len() - k,
    {
        proof {
            assert(is_digit(b@[k as int]));
        }
        let d = (b[k] - 48) as usize;
        proof {
            assert(s.take(k + 1 - from).drop_last() == s.take(k - from));
            assert(s.take(k + 1 - from).last() == b@[k as int]);
            assert forall|x: int| 0 <= x < s.len() implies #[trigger] is_digit(s[x]) by {
                assert(s[x] == b@[from + x]);
            }
        }
        if acc > (usize::MAX - d) / 10 {
            proof {
                lemma_digits_value_mono(s, k + 1 - from, s.len() as int);
                assert(s.take(s.len() as int) == s);
                assert(acc * 10 + d > usize::MAX) by (nonlinear_arith)
                    requires
                        acc > (usize::MAX - d) / 10,
                        d <= 9;
            }
            return None;
        }
        proof {
            assert(acc * 10 + d <= usize::MAX) by (nonlinear_arith)
                requires
                    acc <= (usize::MAX - d) / 10,
                    d <= 9;
        }
        acc = acc * 10 + d;
        k = k + 1;
    }
    proof {
        assert(s.take(s.len() as int) == s);
    }
    Some(acc)
}

fn push_zeros(v: &mut Vec<u8>, n: usize)
    ensures
        final(v)@ == old(v)@ + zeros(n as int),
{
    let ghost start = v@;
    let mut i: usize = 0;
    while i < n
        invariant
            i <= n,
            v@ == start + zeros(i as int),
        decreases n - i,
    {
        v.push(ZERO);
        proof {
            assert(start + zeros(i + 1) == (start + zeros(i as int)).push(ZERO));
        }
        i = i + 1;
    }
}

fn push_range(v: &mut Vec<u8>, b: &[u8], from: usize, to: usize)
    requires
        from <= to <= b@.len(),
    ensures
        final(v)@ == old(v)@ + b@.subrange(from as int, to as int),
{
    let mut part = copy_range(b, from, to);
    v.append(&mut part);
}

fn write_plain(b: &[u8], i: usize, j: usize, k: usize, negative: bool, e: usize) -> (out: Vec<u8>)
    requires
        i <= j < k <= b@.len(),
        all_ascii(b@),
    ensures
        out@ == plain_from_parts(
            b@.subrange(0, i as int),
            b@.subrange(i as int, j as int),
            b@.subrange(j + 1, k as int),
            negative,
            e as int,
        ),
        all_ascii(out@),
{
    let flen = k - (j + 1);
    let mut out: Vec<u8> = Vec::new();
    push_range(&mut out, b, 0, i);
    let ilen = j - i;
    if negative && e > 0 {
        if e >= ilen {
            out.push(ZERO);
            out.push(DOT);
            push_zeros(&mut out, e - ilen);
            push_range(&mut out, b, i, j);
            push_range(&mut out, b, j + 1, k);
        } else {
            push_range(&mut out, b, i, j - e);
            out.push(DOT);
            push_range(&mut out, b, j - e, j);
            push_range(&mut out, b, j + 1, k);
            proof {
                let ip = b@.subrange(i as int, j as int);
                assert(ip.subrange(0, ip.len() - e) == b@.subrange(i as int, j - e));
                assert(ip.subrange(ip.len() - e, ip.len() as int) == b@.subrange(j - e, j as int));
            }
        }
    } else if flen <= e {
        push_range(&mut out, b, i, j);
        push_range(&mut out, b, j + 1, k);
        push_zeros(&mut out, e - flen);
    } else {
        push_range(&mut out, b, i, j);
        push_range(&mut out, b, j + 1, j + 1 + e);
        out.push(DOT);
        push_range(&mut out, b, j + 1 + e, k);
        proof {
            let fp = b@.subrange(j + 1, k as int);
            assert(fp.subrange(0, e as int) == b@.subrange(j + 1, j + 1 + e));
            assert(fp.subrange(e as int, fp.len() as int) == b@.subrange(j + 1 + e, k as int));
        }
    }
    proof {
        assert(out@ =~= plain_from_parts(
            b@.subrange(0, i as int),
            b@.subrange(i as int, j as int),
            b@.subrange(j + 1, k as int),
            negative,
            e as int,
        ));
        assert forall|x: int| 0 <= x < out@.len() implies #[trigger] out@[x] < 128 by {
            let sign = b@.subrange(0, i as int);
            let ip = b@.subrange(i as int, j as int);
            let fp = b@.subrange(j + 1, k as int);
            assert(forall|y: int| 0 <= y < sign.len() ==> sign[y] == b@[y]);
            assert(forall|y: int| 0 <= y < ip.len() ==> ip[y] == b@[i + y]);
            assert(forall|y: int| 0 <= y < fp.len() ==> fp[y] == b@[j + 1 + y]);
        }
    }
    out
}

/// Writes a decimal literal in plain form: a plain decimal is kept as it is,
/// one in scientific notation is written out without an exponent. Anything
/// else, or an exponent beyond a `usize`, is refused.
pub fn normalize_decimal(s: &str) -> (r: Result<String, DecimalValidationError>)
    ensures
        match r {
            Ok(t) => if plain_decimal(s.spec_bytes()) {
                t@ == s@
            } else {
                &&& scientific_decimal(s.spec_bytes())
                &&& digits_value(exponent_digits(s.spec_bytes())) <= usize::MAX
                &&& t@ == ascii_chars(scientific_to_plain(s.spec_bytes()))
            },
            Err(e) => !plain_decimal(s.spec_bytes()) && (!scientific_decimal(s.spec_bytes())
                || digits_value(exponent_digits(s.spec_bytes())) > usize::MAX) && e.value@ == s@,
        },
{
    let b = s.as_bytes();
    let n = b.len();
    let i: usize = if n > 0 && b[0] == MINUS { 1 } else { 0 };
    let j = find_digit_end(b, i);
    proof {
        lemma_digit_end_range(b@, i as int);
    }
    if j > i && j == n {
        return Ok(s.to_owned());
    }
    if j <= i || b[j] != DOT {
        return Err(DecimalValidationError { value: s.to_owned() });
    }
    let k = find_digit_end(b, j + 1);
    proof {
        lemma_digit_end_range(b@, j + 1);
    }
    if k > j + 1 && k == n {
        return Ok(s.to_owned());
    }
    if n - k <= 1 || !(b[k] == 101 || b[k] == 69) || !(b[k + 1] == PLUS || b[k + 1] == MINUS) {
        return Err(DecimalValidationError { value: s.to_owned() });
    }
    let m = find_digit_end(b, k + 2);
    proof {
        lemma_digit_end_range(b@, k + 2);
    }
    if !(m > k + 2 && m == n) {
        return Err(DecimalValidationError { value: s.to_owned() });
    }
    let e = match parse_digits(b, k + 2) {
        None => {
            return Err(DecimalValidationError { value: s.to_owned() });
        },
        Some(e) => e,
    };
    proof {
        lemma_digit_end_range(b@, j + 1);
        assert forall|x: int| 0 <= x < b@.len() implies #[trigger] b@[x] < 128 by {
            if x == 0 && i == 1 {
            } else if x != j && x != k && x != k + 1 {
                assert(is_digit(b@[x]));
            }
        }
    }
    let out = write_plain(b, i, j, k, b[k + 1] == MINUS, e);
    Ok(ascii_to_string(out))
}

} // verus!
