//! Text from and to the byte forms that the launcher's helper programs
//! read and write: UTF-8 with invalid bytes replaced, and UTF-16
//! little-endian.
use vstd::prelude::*;
use vstd::string::*;
use crate::text::string_of;

verus! {

/// `String::from_utf8_lossy`: the bytes read as UTF-8, each invalid part
/// replaced by U+FFFD.
pub uninterp spec fn utf8_lossy(bytes: Seq<u8>) -> Seq<char>;

/// Calls `String::from_utf8_lossy`; the result is the text that
/// `utf8_lossy` names for the bytes.
#[verifier::external_body]
pub(crate) fn decode_utf8_lossy(bytes: &[u8]) -> (s: String)
    ensures
        s@ == utf8_lossy(bytes@),
{
    String::from_utf8_lossy(bytes).into_owned()
}

/// `char::from_u32`: the character with that code point, if it is one (not
/// a surrogate and at most U+10FFFF).
pub assume_specification[ char::from_u32 ](i: u32) -> (r: Option<char>)
    ensures
        (i < 0xD800 || (0xE000 <= i && i <= 0x10FFFF)) ==> r == Some(i as char),
        !(i < 0xD800 || (0xE000 <= i && i <= 0x10FFFF)) ==> r is None,
;

pub open spec fn is_high_surrogate(u: u16) -> bool {
    0xD800 <= u && u < 0xDC00
}

pub open spec fn is_low_surrogate(u: u16) -> bool {
    0xDC00 <= u && u < 0xE000
}

/// The code point that a surrogate pair encodes.
pub open spec fn pair_code(hi: u16, lo: u16) -> u32 {
    (0x10000 + (hi - 0xD800) * 0x400 + (lo - 0xDC00)) as u32
}

/// `String::from_utf16_lossy`: UTF-16 code units read as text, each
/// unpaired surrogate replaced by U+FFFD.
pub open spec fn utf16_lossy(units: Seq<u16>) -> Seq<char>
    decreases units.len(),
{
    if units.len() == 0 {
        Seq::empty()
    } else {
        let u = units[0];
        if !is_high_surrogate(u) && !is_low_surrogate(u) {
            seq![u as char] + utf16_lossy(units.drop_first())
        } else if is_high_surrogate(u) && units.len() >= 2 && is_low_surrogate(units[1]) {
            seq![pair_code(u, units[1]) as char] + utf16_lossy(units.skip(2))
        } else {
            seq!['\u{FFFD}'] + utf16_lossy(units.drop_first())
        }
    }
}

/// Bytes taken two at a time as little-endian code units; a last odd byte
/// is left out.
pub open spec fn le_units(bytes: Seq<u8>) -> Seq<u16> {
    Seq::new(bytes.len() / 2, |i: int| (bytes[2 * i] + 256 * bytes[2 * i + 1]) as u16)
}

/// The UTF-16 code units of one character.
pub open spec fn utf16_units(c: char) -> Seq<u16> {
    let u = c as u32;
    if u < 0x10000 {
        seq![u as u16]
    } else {
        seq![(0xD800 + (u - 0x10000) / 0x400) as u16, (0xDC00 + (u - 0x10000) % 0x400) as u16]
    }
}

/// `str::encode_utf16`.
pub open spec fn utf16_encode(s: Seq<char>) -> Seq<u16>
    decreases s.len(),
{
    if s.len() == 0 {
        Seq::empty()
    } else {
        utf16_encode(s.drop_last()) + utf16_units(s.last())
    }
}

/// Code units written as little-endian bytes (`u16::to_le_bytes` each).
pub open spec fn le_bytes(units: Seq<u16>) -> Seq<u8> {
    Seq::new(
        units.len() * 2,
        |i: int|
            if i % 2 == 0 {
                (units[i / 2] % 256) as u8
            } else {
                (units[i / 2] / 256) as u8
            },
    )
}

/// Reads UTF-16 code units, replacing unpaired surrogates.
pub fn decode_utf16_lossy(units: &Vec<u16>) -> (s: String)
    ensures
        s@ == utf16_lossy(units@),
{
    let mut out: Vec<char> = Vec::new();
    let mut i: usize = 0;
    assert(units@.skip(0) =~= units@);
    assert(out@ + utf16_lossy(units@) =~= utf16_lossy(units@));
    while i < units.len()
        invariant
            i <= units.len(),
            out@ + utf16_lossy(units@.skip(i as int)) == utf16_lossy(units@),
        decreases units.len() - i,
    {
        let ghost rest = units@.skip(i as int);
        let u = units[i];
        assert(rest[0] == u);
        if u < 0xD800 || u >= 0xE000 {
            let c = char::from_u32(u as u32).unwrap();
            assert(rest.drop_first() =~= units@.skip(i + 1));
            let ghost before = out@;
            out.push(c);
            assert(before + utf16_lossy(rest) =~= out@ + utf16_lossy(units@.skip(i + 1)));
            i = i + 1;
        } else if u < 0xDC00 && i + 1 < units.len() && units[i + 1] >= 0xDC00 && units[i + 1]
            < 0xE000 {
            let lo = units[i + 1];
            assert(rest[1] == lo);
            let code: u32 = 0x10000 + ((u - 0xD800) as u32) * 0x400 + ((lo - 0xDC00) as u32);
            assert(code == pair_code(u, lo));
            let c = char::from_u32(code).unwrap();
            assert(rest.skip(2) =~= units@.skip(i + 2));
            let ghost before = out@;
            out.push(c);
            assert(before + utf16_lossy(rest) =~= out@ + utf16_lossy(units@.skip(i + 2)));
            i = i + 2;
        } else {
            assert(rest.drop_first() =~= units@.skip(i + 1));
            let ghost before = out@;
            out.push('\u{FFFD}');
            assert(before + utf16_lossy(rest) =~= out@ + utf16_lossy(units@.skip(i + 1)));
            i = i + 1;
        }
    }
    assert(units@.skip(i as int) =~= Seq::<u16>::empty());
    assert(out@ + Seq::<char>::empty() =~= out@);
    string_of(&out)
}

/// Bytes taken two at a time as little-endian code units.
pub fn units_from_le_bytes(bytes: &[u8]) -> (r: Vec<u16>)
    ensures
        r@ == le_units(bytes@),
{
    let mut r: Vec<u16> = Vec::new();
    let n = bytes.len() / 2;
    let mut k: usize = 0;
    while k < n
        invariant
            n == bytes@.len() / 2,
            bytes@.len() == bytes.len(),
            k <= n,
            r@ =~= le_units(bytes@).take(k as int),
        decreases n - k,
    {
        assert(2 * k + 1 < bytes@.len());
        let lo = bytes[2 * k] as u16;
        let hi = bytes[2 * k + 1] as u16;
        r.push(lo + 256 * hi);
        k = k + 1;
    }
    r
}

/// Writes text as UTF-16 code units.
pub fn encode_utf16(s: &Vec<char>) -> (r: Vec<u16>)
    ensures
        r@ == utf16_encode(s@),
{
    let mut r: Vec<u16> = Vec::new();
    let mut i: usize = 0;
    while i < s.len()
        invariant
            i <= s.len(),
            r@ == utf16_encode(s@.take(i as int)),
        decreases s.len() - i,
    {
        let c = s[i];
        proof {
            vstd::utf8::char_is_scalar(c);
        }
        let u = c as u32;
        assert(s@.take(i + 1).drop_last() =~= s@.take(i as int));
        assert(s@.take(i + 1).last() == c);
        let ghost before = r@;
        if u < 0x10000 {
            r.push(u as u16);
        } else {
            let v = u - 0x10000;
            assert(u <= 0x10FFFF);
            r.push((0xD800 + v / 0x400) as u16);
            r.push((0xDC00 + v % 0x400) as u16);
        }
        assert(r@ =~= before + utf16_units(c));
        i = i + 1;
    }
    assert(s@.take(s.len() as int) =~= s@);
    r
}

/// Writes code units as little-endian bytes.
pub fn le_bytes_of(units: &Vec<u16>) -> (r: Vec<u8>)
    ensures
        r@ == le_bytes(units@),
{
    let mut r: Vec<u8> = Vec::new();
    let mut k: usize = 0;
    while k < units.len()
        invariant
            k <= units.len(),
            r@ =~= le_bytes(units@).take(2 * k),
        decreases units.len() - k,
    {
        let u = units[k];
        r.push((u % 256) as u8);
        r.push((u / 256) as u8);
        k = k + 1;
        assert(r@ =~= le_bytes(units@).take(2 * k)) by {
            assert forall|i: int| 0 <= i < 2 * k implies r@[i] == le_bytes(units@)[i] by {
                if i >= 2 * k - 2 {
                    assert(i / 2 == k - 1);
                }
            }
        }
    }
    r
}

proof fn lemma_utf16_encode_first(s: Seq<char>)
    requires
        s.len() > 0,
    ensures
        utf16_encode(s) == utf16_units(s[0]) + utf16_encode(s.drop_first()),
    decreases s.len(),
{
    if s.len() == 1 {
        assert(s.drop_last() =~= Seq::<char>::empty());
        assert(s.drop_first() =~= Seq::<char>::empty());
        assert(utf16_units(s[0]) + Seq::<u16>::empty() =~= utf16_units(s[0]));
    } else {
        let d = s.drop_last();
        lemma_utf16_encode_first(d);
        assert(d.drop_first() =~= s.drop_first().drop_last());
        assert(s.drop_first().last() == s.last());
        assert(d[0] == s[0]);
        assert(utf16_units(s[0]) + utf16_encode(s.drop_first()) =~= utf16_units(s[0])
            + utf16_encode(d.drop_first()) + utf16_units(s.last()));
    }
}

proof fn lemma_utf16_char(c: char, rest: Seq<u16>)
    ensures
        utf16_lossy(utf16_units(c) + rest) == seq![c] + utf16_lossy(rest),
{
    vstd::utf8::char_is_scalar(c);
    let u = c as u32;
    let all = utf16_units(c) + rest;
    if u < 0x10000 {
        assert(all[0] == u as u16);
        assert(all.drop_first() =~= rest);
        vstd::utf8::char_u32_cast(c, u);
        assert((u as u16) as char == c);
    } else {
        let v = (u - 0x10000) as int;
        let hi = (0xD800 + v / 0x400) as u16;
        let lo = (0xDC00 + v % 0x400) as u16;
        assert(v / 0x400 < 0x400);
        assert(all[0] == hi && all[1] == lo);
        assert(all.skip(2) =~= rest);
        assert(v / 0x400 * 0x400 + v % 0x400 == v) by (nonlinear_arith)
            requires
                v >= 0,
        ;
        assert(pair_code(hi, lo) == u);
        vstd::utf8::char_u32_cast(c, u);
    }
}

/// Text written as UTF-16 reads back unchanged.
pub proof fn lemma_utf16_round_trip(s: Seq<char>)
    ensures
        utf16_lossy(utf16_encode(s)) == s,
    decreases s.len(),
{
    if s.len() > 0 {
        lemma_utf16_encode_first(s);
        lemma_utf16_round_trip(s.drop_first());
        lemma_utf16_char(s[0], utf16_encode(s.drop_first()));
        assert(seq![s[0]] + s.drop_first() =~= s);
    }
}

/// Code units written as little-endian bytes read back unchanged.
pub proof fn lemma_le_round_trip(units: Seq<u16>)
    ensures
        le_units(le_bytes(units)) == units,
{
    let b = le_bytes(units);
    assert(b.len() / 2 == units.len());
    assert forall|i: int| 0 <= i < units.len() implies le_units(b)[i] == units[i] by {
        assert((2 * i) / 2 == i);
        assert((2 * i + 1) / 2 == i);
        assert((2 * i) % 2 == 0);
        assert((2 * i + 1) % 2 == 1);
        let u = units[i];
        assert(u % 256 + 256 * (u / 256) == u);
    }
    assert(le_units(b) =~= units);
}

} // verus!
