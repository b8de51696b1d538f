//! Reading a percentage out of a progress line: the number that ends the
//! text before the first `%`, read as a single-precision number, rounded
//! half away from zero and capped at 255.
use vstd::prelude::*;
use crate::text::{
    all_digits, chars_of, digits_value, is_digit, is_digit_char, lemma_digits_value_push,
    seqs_of, slice_chars, split_on, split_on_chars,
};

verus! {

pub open spec fn pow_nat(b: nat, e: nat) -> nat
    decreases e,
{
    if e == 0 {
        1
    } else {
        b * pow_nat(b, (e - 1) as nat)
    }
}

pub proof fn lemma_pow_positive(b: nat, e: nat)
    requires
        b > 0,
    ensures
        pow_nat(b, e) > 0,
    decreases e,
{
    if e > 0 {
        lemma_pow_positive(b, (e - 1) as nat);
        assert(b * pow_nat(b, (e - 1) as nat) > 0) by (nonlinear_arith)
            requires
                b > 0,
                pow_nat(b, (e - 1) as nat) > 0,
        ;
    }
}

pub proof fn lemma_pow_add(b: nat, x: nat, y: nat)
    ensures
        pow_nat(b, x + y) == pow_nat(b, x) * pow_nat(b, y),
    decreases x,
{
    if x > 0 {
        lemma_pow_add(b, (x - 1) as nat, y);
        assert((x + y - 1) as nat == ((x - 1) as nat + y));
        let p = pow_nat(b, (x - 1) as nat);
        let q = pow_nat(b, y);
        assert(pow_nat(b, x + y) == b * pow_nat(b, (x + y - 1) as nat));
        assert(pow_nat(b, x) == b * p);
        assert(b * (p * q) == (b * p) * q) by (nonlinear_arith);
        assert(pow_nat(b, x + y) == pow_nat(b, x) * pow_nat(b, y));
    } else {
        assert(pow_nat(b, x) == 1);
        assert(x + y == y);
    }
}

pub proof fn lemma_pow_mul_base(a: nat, b: nat, e: nat)
    ensures
        pow_nat(a * b, e) == pow_nat(a, e) * pow_nat(b, e),
    decreases e,
{
    if e > 0 {
        lemma_pow_mul_base(a, b, (e - 1) as nat);
        let p = pow_nat(a, (e - 1) as nat);
        let q = pow_nat(b, (e - 1) as nat);
        assert(pow_nat(a * b, e) == (a * b) * pow_nat(a * b, (e - 1) as nat));
        assert(pow_nat(a, e) == a * p);
        assert(pow_nat(b, e) == b * q);
        assert((a * b) * (p * q) == (a * p) * (b * q)) by (nonlinear_arith);
        assert(pow_nat(a * b, e) == pow_nat(a, e) * pow_nat(b, e));
    } else {
        assert(pow_nat(a, e) == 1);
        assert(pow_nat(b, e) == 1);
        assert(pow_nat(a * b, e) == 1);
    }
}

/// The number of the binary places below one that single precision keeps
/// around `i + 1/2`, plus one: `24 - floor(log2 i)`, and 26 for `i = 0`.
pub open spec fn half_precision_bits(i: nat) -> nat {
    if i == 0 {
        26
    } else if i < 2 {
        24
    } else if i < 4 {
        23
    } else if i < 8 {
        22
    } else if i < 16 {
        21
    } else if i < 32 {
        20
    } else if i < 64 {
        19
    } else if i < 128 {
        18
    } else {
        17
    }
}

/// The decimal number `ip.fp` read as a single-precision number, rounded
/// half away from zero and capped at 255. Below 255, with `i` its whole
/// part, the nearest single-precision number is at least `i + 1/2`
/// exactly when the fraction is at least `1/2 - 2^-c`,
/// `c = half_precision_bits(i)` (the midpoint below `i + 1/2`, whose tie
/// goes to `i + 1/2`); the rounding then gives `i + 1`, else `i`.
pub open spec fn rounded_percent(ip: Seq<char>, fp: Seq<char>) -> u8 {
    let i = digits_value(ip);
    if i >= 255 {
        255
    } else {
        let c = half_precision_bits(i);
        if digits_value(fp) * pow_nat(2, c) >= (pow_nat(2, (c - 1) as nat) - 1) * pow_nat(
            10,
            fp.len(),
        ) {
            (i + 1) as u8
        } else {
            i as u8
        }
    }
}

pub open spec fn is_num_char(c: char) -> bool {
    is_digit(c) || c == '.'
}

/// Number of digits and dots that end `s`.
pub open spec fn num_tail_len(s: Seq<char>) -> nat
    decreases s.len(),
{
    if s.len() > 0 && is_num_char(s.last()) {
        1 + num_tail_len(s.drop_last())
    } else {
        0
    }
}

/// The number a run of digits and dots reads as: none for more than one
/// dot or no digit at all.
pub open spec fn read_percent(t: Seq<char>) -> Option<u8> {
    let parts = split_on(t, '.');
    if parts.len() > 2 {
        None
    } else {
        let ip = parts[0];
        let fp = if parts.len() == 2 {
            parts[1]
        } else {
            Seq::empty()
        };
        if ip.len() + fp.len() == 0 {
            None
        } else {
            Some(rounded_percent(ip, fp))
        }
    }
}

/// The percentage in a line: the run of digits and dots that ends the text
/// before its first `%` (the whole line when it has none).
pub open spec fn percent_in(s: Seq<char>) -> Option<u8> {
    let before = split_on(s, '%')[0];
    read_percent(before.skip(before.len() - num_tail_len(before)))
}

pub proof fn lemma_num_tail(s: Seq<char>, k: int)
    requires
        0 <= k <= s.len(),
        forall|j: int| s.len() - k <= j < s.len() ==> is_num_char(#[trigger] s[j]),
        k < s.len() ==> !is_num_char(s[s.len() - k - 1]),
    ensures
        num_tail_len(s) == k,
    decreases s.len(),
{
    if k > 0 {
        assert(is_num_char(s[s.len() - 1]));
        assert forall|j: int| s.len() - 1 - (k - 1) <= j < s.len() - 1 implies is_num_char(
            #[trigger] s.drop_last()[j],
        ) by {
            assert(s.drop_last()[j] == s[j]);
        }
        if k < s.len() {
            assert(s.drop_last()[s.len() - 1 - (k - 1) - 1] == s[s.len() - k - 1]);
        }
        lemma_num_tail(s.drop_last(), k - 1);
    }
}

/// `digits_value` of a concatenation.
pub proof fn lemma_digits_concat(a: Seq<char>, b: Seq<char>)
    ensures
        digits_value(a + b) == digits_value(a) * pow_nat(10, b.len()) + digits_value(b),
    decreases b.len(),
{
    if b.len() == 0 {
        assert(a + b =~= a);
        assert(pow_nat(10, b.len()) == 1);
        assert(digits_value(b) == 0);
    } else {
        lemma_digits_concat(a, b.drop_last());
        assert((a + b).drop_last() =~= a + b.drop_last());
        assert((a + b).last() == b.last());
        let x = digits_value(a);
        let p = pow_nat(10, (b.len() - 1) as nat);
        let y = digits_value(b.drop_last());
        let d = ((b.last() as u32) - ('0' as u32)) as nat;
        assert((x * p + y) * 10 + d == x * (10 * p) + (y * 10 + d)) by (nonlinear_arith);
        assert(digits_value(a + b) == digits_value((a + b).drop_last()) * 10 + d);
        assert(digits_value(b) == y * 10 + d);
        assert(pow_nat(10, b.len()) == 10 * p);
    }
}

/// A string of `n` digits stands for less than `10^n`.
pub proof fn lemma_digits_bound(s: Seq<char>)
    requires
        all_digits(s),
    ensures
        digits_value(s) < pow_nat(10, s.len()),
    decreases s.len(),
{
    if s.len() > 0 {
        lemma_digits_bound(s.drop_last());
        assert(is_digit(s[s.len() - 1]));
        let v = digits_value(s.drop_last());
        let p = pow_nat(10, (s.len() - 1) as nat);
        let d = ((s.last() as u32) - ('0' as u32)) as nat;
        assert(v * 10 + d < 10 * p) by (nonlinear_arith)
            requires
                v < p,
                d < 10,
        ;
    }
}

pub proof fn lemma_zeros_value(n: nat)
    ensures
        digits_value(Seq::new(n, |i: int| '0')) == 0,
    decreases n,
{
    if n > 0 {
        lemma_zeros_value((n - 1) as nat);
        assert(Seq::new(n, |i: int| '0').drop_last() =~= Seq::new((n - 1) as nat, |i: int| '0'));
    }
}

/// The first 26 digits of a fraction, padded with zeros.
pub open spec fn frac26(fp: Seq<char>) -> Seq<char> {
    if fp.len() >= 26 {
        fp.take(26)
    } else {
        fp + Seq::new((26 - fp.len()) as nat, |i: int| '0')
    }
}

/// The first 26 digits of a fraction decide its comparison with a
/// fraction whose denominator divides `10^26`.
pub proof fn lemma_frac26_decides(fp: Seq<char>, c: nat)
    requires
        all_digits(fp),
        1 <= c <= 26,
    ensures
        (digits_value(frac26(fp)) * pow_nat(2, c) >= (pow_nat(2, (c - 1) as nat) - 1) * pow_nat(
            10,
            26,
        )) == (digits_value(fp) * pow_nat(2, c) >= (pow_nat(2, (c - 1) as nat) - 1) * pow_nat(
            10,
            fp.len(),
        )),
{
    let a = pow_nat(2, c);
    let b: int = pow_nat(2, (c - 1) as nat) - 1;
    let f = digits_value(fp);
    let d = digits_value(frac26(fp));
    lemma_pow_positive(2, c);
    lemma_pow_positive(2, (c - 1) as nat);
    // 10^26 = 2^c * t with t = 5^c * 10^(26 - c).
    let t = pow_nat(5, c) * pow_nat(10, (26 - c) as nat);
    lemma_pow_mul_base(2, 5, c);
    lemma_pow_add(10, c, (26 - c) as nat);
    assert(pow_nat(10, 26) == a * t) by (nonlinear_arith)
        requires
            pow_nat(10, 26) == pow_nat(10, c) * pow_nat(10, (26 - c) as nat),
            pow_nat(10, c) == a * pow_nat(5, c),
            t == pow_nat(5, c) * pow_nat(10, (26 - c) as nat),
    ;
    assert(b >= 0);
    if fp.len() <= 26 {
        let z = Seq::new((26 - fp.len()) as nat, |i: int| '0');
        lemma_digits_concat(fp, z);
        lemma_zeros_value((26 - fp.len()) as nat);
        let p = pow_nat(10, (26 - fp.len()) as nat);
        lemma_pow_positive(10, (26 - fp.len()) as nat);
        lemma_pow_add(10, fp.len(), (26 - fp.len()) as nat);
        if fp.len() == 26 {
            assert(fp.take(26) =~= fp);
            assert(z =~= Seq::<char>::empty());
        }
        assert(d == f * p);
        let m = pow_nat(10, fp.len());
        assert(pow_nat(10, 26) == m * p);
        assert((f * p * a >= b * (m * p)) == (f * a >= b * m)) by (nonlinear_arith)
            requires
                p > 0,
        ;
    } else {
        let q = pow_nat(10, (fp.len() - 26) as nat);
        let rest = fp.skip(26);
        assert(fp =~= fp.take(26) + rest);
        lemma_digits_concat(fp.take(26), rest);
        assert(all_digits(rest));
        lemma_digits_bound(rest);
        let r = digits_value(rest);
        assert(f == d * q + r);
        lemma_pow_add(10, 26, (fp.len() - 26) as nat);
        let m = pow_nat(10, fp.len());
        assert(m == pow_nat(10, 26) * q);
        lemma_pow_positive(10, (fp.len() - 26) as nat);
        // With the whole denominator: d * a >= b * 10^26 iff d >= b * t.
        assert((d * a >= b * (a * t)) == (d >= b * t)) by (nonlinear_arith)
            requires
                a > 0,
                b >= 0,
        ;
        assert((f * a >= b * (a * t * q)) == (d >= b * t)) by (nonlinear_arith)
            requires
                a > 0,
                b >= 0,
                q > 0,
                0 <= r < q,
                f == d * q + r,
        ;
    }
}

/// `min(digits_value(s), 255)`, without overflow.
fn capped_value(s: &Vec<char>) -> (v: u32)
    requires
        all_digits(s@),
    ensures
        v == if digits_value(s@) >= 255 {
            255
        } else {
            digits_value(s@)
        },
{
    let mut acc: u32 = 0;
    let mut i: usize = 0;
    while i < s.len()
        invariant
            i <= s.len(),
            all_digits(s@),
            acc == if digits_value(s@.take(i as int)) >= 255 {
                255
            } else {
                digits_value(s@.take(i as int))
            },
        decreases s.len() - i,
    {
        let c = s[i];
        assert(is_digit(s@[i as int]));
        let d = (c as u32) - ('0' as u32);
        proof {
            lemma_digits_value_push(s@.take(i as int), c);
            assert(s@.take(i + 1) =~= s@.take(i as int).push(c));
        }
        let next = acc * 10 + d;
        acc = if next >= 255 {
            255
        } else {
            next
        };
        i = i + 1;
    }
    assert(s@.take(s.len() as int) =~= s@);
    acc
}

/// The value of the first 26 digits of a fraction, zeros added.
fn frac26_value(fp: &Vec<char>) -> (d: u128)
    requires
        all_digits(fp@),
    ensures
        d == digits_value(frac26(fp@)),
        d < pow_nat(10, 26),
{
    let ghost w = frac26(fp@);
    assert(w.len() == 26);
    assert(all_digits(w)) by {
        assert forall|j: int| 0 <= j < w.len() implies is_digit(#[trigger] w[j]) by {
            if j < fp@.len() {
                assert(w[j] == fp@[j]);
            }
        }
    }
    let mut d: u128 = 0;
    let mut k: usize = 0;
    while k < 26
        invariant
            k <= 26,
            w.len() == 26,
            all_digits(w),
            w == frac26(fp@),
            d == digits_value(w.take(k as int)),
            d < pow_nat(10, k as nat),
        decreases 26 - k,
    {
        let c = if k < fp.len() {
            fp[k]
        } else {
            '0'
        };
        assert(c == w[k as int]);
        assert(is_digit(w[k as int]));
        let digit = ((c as u32) - ('0' as u32)) as u128;
        proof {
            lemma_digits_value_push(w.take(k as int), c);
            assert(w.take(k + 1) =~= w.take(k as int).push(c));
            lemma_pow10_bound(k as nat);
            assert(d * 10 + digit < 10 * pow_nat(10, k as nat)) by (nonlinear_arith)
                requires
                    d < pow_nat(10, k as nat),
                    digit < 10,
            ;
        }
        d = d * 10 + digit;
        k = k + 1;
    }
    assert(w.take(26) =~= w);
    d
}

proof fn lemma_pow10_bound(k: nat)
    requires
        k <= 26,
    ensures
        pow_nat(10, k) <= 100_000_000_000_000_000_000_000_000,
    decreases k,
{
    if k > 0 {
        lemma_pow10_bound((k - 1) as nat);
        if k < 26 {
            lemma_pow_small(k);
        }
    }
    reveal_with_fuel(pow_nat, 27);
}

proof fn lemma_pow_small(k: nat)
    requires
        k <= 26,
    ensures
        pow_nat(10, k) <= pow_nat(10, 26),
    decreases 26 - k,
{
    if k < 26 {
        lemma_pow_small(k + 1);
        lemma_pow_positive(10, k);
    }
}

proof fn lemma_pow2_small(k: nat)
    requires
        k <= 26,
    ensures
        pow_nat(2, k) <= pow_nat(2, 26),
    decreases 26 - k,
{
    if k < 26 {
        lemma_pow2_small(k + 1);
        lemma_pow_positive(2, k);
    }
}

fn pow2_exec(c: u32) -> (p: u128)
    requires
        c <= 26,
    ensures
        p == pow_nat(2, c as nat),
        p <= 0x400_0000,
{
    proof {
        reveal_with_fuel(pow_nat, 27);
    }
    let mut p: u128 = 1;
    let mut k: u32 = 0;
    while k < c
        invariant
            k <= c <= 26,
            p == pow_nat(2, k as nat),
            pow_nat(2, 26) == 0x400_0000,
        decreases c - k,
    {
        proof {
            lemma_pow2_small((k + 1) as nat);
            assert(pow_nat(2, (k + 1) as nat) == 2 * pow_nat(2, k as nat));
        }
        p = p * 2;
        k = k + 1;
    }
    proof {
        lemma_pow2_small(c as nat);
    }
    p
}

fn half_precision_bits_exec(i: u32) -> (c: u32)
    ensures
        c == half_precision_bits(i as nat),
{
    if i == 0 {
        26
    } else if i < 2 {
        24
    } else if i < 4 {
        23
    } else if i < 8 {
        22
    } else if i < 16 {
        21
    } else if i < 32 {
        20
    } else if i < 64 {
        19
    } else if i < 128 {
        18
    } else {
        17
    }
}

proof fn lemma_products_fit(d: u128, a: u128, h: u128)
    requires
        d < 100_000_000_000_000_000_000_000_000,
        a <= 0x400_0000,
        1 <= h <= 0x400_0000,
    ensures
        d * a <= 0x400_0000 * 100_000_000_000_000_000_000_000_000,
        (h - 1) * 100_000_000_000_000_000_000_000_000 <= 0x400_0000 * 100_000_000_000_000_000_000_000_000,
{
    assert(d * a <= 0x400_0000 * 100_000_000_000_000_000_000_000_000) by (nonlinear_arith)
        requires
            d < 100_000_000_000_000_000_000_000_000,
            a <= 0x400_0000,
    ;
    assert((h - 1) * 100_000_000_000_000_000_000_000_000 <= 0x400_0000
        * 100_000_000_000_000_000_000_000_000) by (nonlinear_arith)
        requires
            1 <= h <= 0x400_0000,
    ;
}

proof fn lemma_ten26()
    ensures
        pow_nat(10, 26) == 100_000_000_000_000_000_000_000_000,
{
    reveal_with_fuel(pow_nat, 27);
}

/// The rounded, capped value of `ip.fp`.
fn rounded_percent_exec(ip: &Vec<char>, fp: &Vec<char>) -> (r: u8)
    requires
        all_digits(ip@),
        all_digits(fp@),
    ensures
        r == rounded_percent(ip@, fp@),
{
    let i = capped_value(ip);
    if i >= 255 {
        return 255;
    }
    let c = half_precision_bits_exec(i);
    let d = frac26_value(fp);
    let a = pow2_exec(c);
    let h = pow2_exec(c - 1);
    let ten26: u128 = 100_000_000_000_000_000_000_000_000;
    proof {
        lemma_ten26();
        lemma_pow_positive(2, (c - 1) as nat);
        lemma_products_fit(d, a, h);
        lemma_frac26_decides(fp@, c as nat);
    }
    if d * a >= (h - 1) * ten26 {
        (i + 1) as u8
    } else {
        i as u8
    }
}

/// The percentage a progress line shows, as the launcher reads it.
pub fn find_percentage(s: &str) -> (r: Option<u8>)
    ensures
        r == percent_in(s@),
{
    let whole = chars_of(s);
    let pieces = split_on_chars(&whole, '%');
    proof {
        crate::text::lemma_split_on_nonempty(whole@, '%');
    }
    let v = slice_chars(&pieces[0], 0, pieces[0].len());
    let end = v.len();
    let ghost before = v@;
    assert(before =~= split_on(s@, '%')[0]);
    assert(v@.take(end as int) =~= v@);
    let mut start = end;
    while start > 0 && (is_digit_char(v[start - 1]) || v[start - 1] == '.')
        invariant
            start <= end <= v.len(),
            before == v@.take(end as int),
            forall|j: int| start <= j < end ==> is_num_char(#[trigger] v@[j]),
        decreases start,
    {
        start = start - 1;
    }
    proof {
        assert forall|j: int| before.len() - (end - start) <= j < before.len() implies is_num_char(
            #[trigger] before[j],
        ) by {
            assert(before[j] == v@[j]);
        }
        if start > 0 {
            assert(before[before.len() - (end - start) - 1] == v@[start - 1]);
        }
        lemma_num_tail(before, (end - start) as int);
    }
    let tail = slice_chars(&v, start, end);
    assert(tail@ =~= before.skip(before.len() - num_tail_len(before)));
    let parts = split_on_chars(&tail, '.');
    proof {
        crate::text::lemma_split_on_nonempty(tail@, '.');
        lemma_split_pieces_digits(tail@, '.');
    }
    if parts.len() > 2 {
        return None;
    }
    let ip = slice_chars(&parts[0], 0, parts[0].len());
    assert(ip@ =~= split_on(tail@, '.')[0]);
    let fp: Vec<char> = if parts.len() == 2 {
        let f = slice_chars(&parts[1], 0, parts[1].len());
        assert(f@ =~= split_on(tail@, '.')[1]);
        f
    } else {
        Vec::new()
    };
    if ip.len() == 0 && fp.len() == 0 {
        return None;
    }
    Some(rounded_percent_exec(&ip, &fp))
}

/// Splitting a run of digits and dots at its dots leaves pieces of digits.
pub proof fn lemma_split_pieces_digits(t: Seq<char>, sep: char)
    requires
        sep == '.',
        forall|j: int| 0 <= j < t.len() ==> is_num_char(#[trigger] t[j]),
    ensures
        forall|k: int| 0 <= k < split_on(t, sep).len() ==> all_digits(#[trigger] split_on(t, sep)[k]),
    decreases t.len(),
{
    if t.len() > 0 {
        assert forall|j: int| 0 <= j < t.drop_last().len() implies is_num_char(
            #[trigger] t.drop_last()[j],
        ) by {
            assert(t.drop_last()[j] == t[j]);
        }
        lemma_split_pieces_digits(t.drop_last(), sep);
        crate::text::lemma_split_on_nonempty(t.drop_last(), sep);
        let prev = split_on(t.drop_last(), sep);
        assert(is_num_char(t[t.len() - 1]));
        if t.last() != sep {
            assert(is_digit(t.last()));
            let last = prev.last().push(t.last());
            assert(all_digits(prev.last()));
            assert(all_digits(last)) by {
                assert forall|j: int| 0 <= j < last.len() implies is_digit(#[trigger] last[j]) by {
                    if j < last.len() - 1 {
                        assert(last[j] == prev.last()[j]);
                    }
                }
            }
            assert forall|k: int| 0 <= k < split_on(t, sep).len() implies all_digits(
                #[trigger] split_on(t, sep)[k],
            ) by {
                if k < prev.len() - 1 {
                    assert(split_on(t, sep)[k] == prev[k]);
                }
            }
        } else {
            assert forall|k: int| 0 <= k < split_on(t, sep).len() implies all_digits(
                #[trigger] split_on(t, sep)[k],
            ) by {
                if k < prev.len() {
                    assert(split_on(t, sep)[k] == prev[k]);
                } else {
                    assert(split_on(t, sep)[k] =~= Seq::<char>::empty());
                }
            }
        }
    }
}

} // verus!
