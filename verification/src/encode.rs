//! Key encoding: a key string is stored in the save file as the UTF-16
//! little-endian bytes of its characters, padded to even length.

use vstd::prelude::*;

verus! {

/// The UTF-16 code units of one character: a single unit for scalar values
/// below 0x10000, a high/low surrogate pair for the rest.
pub open spec fn char_units(c: char) -> Seq<u16> {
    let v = c as u32;
    if v < 0x10000 {
        seq![v as u16]
    } else {
        seq![
            (0xD800 + (v - 0x10000) / 0x400) as u16,
            (0xDC00 + (v - 0x10000) % 0x400) as u16,
        ]
    }
}

/// The UTF-16 code units of a string, in character order.
pub open spec fn utf16_units(s: Seq<char>) -> Seq<u16>
    decreases s.len(),
{
    if s.len() == 0 {
        Seq::empty()
    } else {
        char_units(s[0]) + utf16_units(s.drop_first())
    }
}

/// The two little-endian bytes of one 16-bit unit: low byte first.
pub open spec fn unit_bytes(u: u16) -> Seq<u8> {
    seq![(u % 0x100) as u8, (u / 0x100) as u8]
}

/// The little-endian bytes of a sequence of 16-bit units.
pub open spec fn units_to_bytes(us: Seq<u16>) -> Seq<u8>
    decreases us.len(),
{
    if us.len() == 0 {
        Seq::empty()
    } else {
        unit_bytes(us[0]) + units_to_bytes(us.drop_first())
    }
}

/// The exact byte sequence under which a key string is embedded in a
/// save file buffer.
pub open spec fn encoded_key(s: Seq<char>) -> Seq<u8> {
    units_to_bytes(utf16_units(s))
}

proof fn lemma_utf16_units_push(s: Seq<char>, c: char)
    ensures
        utf16_units(s.push(c)) == utf16_units(s) + char_units(c),
    decreases s.len(),
{
    if s.len() == 0 {
        assert(s.push(c)[0] == c);
        assert(s.push(c).drop_first() =~= Seq::<char>::empty());
        assert(utf16_units(s.push(c)) == char_units(c) + utf16_units(Seq::<char>::empty()));
        assert(char_units(c) + Seq::<u16>::empty() =~= char_units(c));
        assert(utf16_units(s) + char_units(c) =~= char_units(c));
    } else {
        assert(s.push(c).drop_first() =~= s.drop_first().push(c));
        lemma_utf16_units_push(s.drop_first(), c);
        assert(utf16_units(s.push(c)) =~= utf16_units(s) + char_units(c));
    }
}

proof fn lemma_units_to_bytes_push(us: Seq<u16>, u: u16)
    ensures
        units_to_bytes(us.push(u)) == units_to_bytes(us) + unit_bytes(u),
    decreases us.len(),
{
    if us.len() == 0 {
        assert(us.push(u)[0] == u);
        assert(us.push(u).drop_first() =~= Seq::<u16>::empty());
        assert(units_to_bytes(us.push(u)) == unit_bytes(u) + units_to_bytes(Seq::<u16>::empty()));
        assert(unit_bytes(u) + Seq::<u8>::empty() =~= unit_bytes(u));
        assert(units_to_bytes(us) + unit_bytes(u) =~= unit_bytes(u));
    } else {
        assert(us.push(u).drop_first() =~= us.drop_first().push(u));
        lemma_units_to_bytes_push(us.drop_first(), u);
        assert(units_to_bytes(us.push(u)) =~= units_to_bytes(us) + unit_bytes(u));
    }
}

proof fn lemma_units_to_bytes_len(us: Seq<u16>)
    ensures
        units_to_bytes(us).len() == 2 * us.len(),
    decreases us.len(),
{
    if us.len() > 0 {
        lemma_units_to_bytes_len(us.drop_first());
    }
}

/// The encoded form of every key has even length.
pub proof fn lemma_encoded_key_even(s: Seq<char>)
    ensures
        encoded_key(s).len() % 2 == 0,
{
    lemma_units_to_bytes_len(utf16_units(s));
}

/// Encode a key string as it is stored in the save file: each UTF-16 code
/// unit as two little-endian bytes, zero-padded should the byte count ever
/// come out odd.
pub fn encode(text: &str) -> (r: Vec<u8>)
    ensures
        r@ == encoded_key(text@),
{
    let mut b: Vec<u8> = Vec::new();
    for c in it: text.chars()
        invariant
            it.seq() == text@,
            b@ == units_to_bytes(utf16_units(it.seq().take(it.index() as int))),
    {
        proof {
            vstd::utf8::char_is_scalar(c);
        }
        let v = c as u32;
        if v < 0x10000 {
            b.push((v % 0x100) as u8);
            b.push((v / 0x100) as u8);
        } else {
            let d = v - 0x10000;
            let hi: u32 = 0xD800 + d / 0x400;
            let lo: u32 = 0xDC00 + d % 0x400;
            b.push((hi % 0x100) as u8);
            b.push((hi / 0x100) as u8);
            b.push((lo % 0x100) as u8);
            b.push((lo / 0x100) as u8);
        }
        proof {
            let i = it.index() as int;
            let seen = it.seq().take(i);
            lemma_utf16_units_push(seen, c);
            let us = utf16_units(seen);
            let cu = char_units(c);
            if cu.len() == 1 {
                lemma_units_to_bytes_push(us, cu[0]);
                assert(us.push(cu[0]) =~= us + cu);
            } else {
                lemma_units_to_bytes_push(us, cu[0]);
                lemma_units_to_bytes_push(us.push(cu[0]), cu[1]);
                assert(us.push(cu[0]).push(cu[1]) =~= us + cu);
            }
            assert(it.seq().take(i + 1) =~= seen.push(c));
            assert(b@ =~= units_to_bytes(utf16_units(it.seq().take(i + 1))));
        }
    }
    proof {
        assert(text@.take(text@.len() as int) =~= text@);
        lemma_units_to_bytes_len(utf16_units(text@));
    }
    if b.len() % 2 == 1 {
        b.push(0);
    }
    b
}

pub open spec fn is_high_surrogate(u: u16) -> bool {
    0xD800 <= u < 0xDC00
}

pub open spec fn is_low_surrogate(u: u16) -> bool {
    0xDC00 <= u < 0xE000
}

/// 16-bit units read back from little-endian byte pairs; a trailing odd
/// byte (the padding slot) carries no unit.
pub open spec fn bytes_to_units(b: Seq<u8>) -> Seq<u16>
    decreases b.len(),
{
    if b.len() < 2 {
        Seq::empty()
    } else {
        seq![(b[0] + 0x100 * b[1]) as u16] + bytes_to_units(b.skip(2))
    }
}

/// Characters read back from UTF-16 code units: a high surrogate followed
/// by a low surrogate yields one supplementary character, any other unit
/// stands alone.
pub open spec fn units_to_chars(us: Seq<u16>) -> Seq<char>
    decreases us.len(),
{
    if us.len() == 0 {
        Seq::empty()
    } else if is_high_surrogate(us[0]) && us.len() >= 2 && is_low_surrogate(us[1]) {
        seq![((0x10000 + 0x400 * (us[0] - 0xD800) + (us[1] - 0xDC00)) as u32) as char]
            + units_to_chars(us.skip(2))
    } else {
        seq![(us[0] as u32) as char] + units_to_chars(us.drop_first())
    }
}

/// The characters recovered by reading a byte sequence as 16-bit
/// little-endian code units.
pub open spec fn decoded_key(b: Seq<u8>) -> Seq<char> {
    units_to_chars(bytes_to_units(b))
}

proof fn lemma_bytes_to_units_inverse(us: Seq<u16>)
    ensures
        bytes_to_units(units_to_bytes(us)) == us,
    decreases us.len(),
{
    if us.len() == 0 {
        assert(bytes_to_units(units_to_bytes(us)) =~= us);
    } else {
        let u = us[0];
        let b = units_to_bytes(us);
        let tail = units_to_bytes(us.drop_first());
        lemma_units_to_bytes_len(us.drop_first());
        assert(b == unit_bytes(u) + tail);
        assert(b.len() >= 2);
        assert(b[0] == (u % 0x100) as u8);
        assert(b[1] == (u / 0x100) as u8);
        vstd::arithmetic::div_mod::lemma_fundamental_div_mod(u as int, 0x100);
        assert(b[0] + 0x100 * b[1] == u);
        assert(b.skip(2) =~= tail);
        lemma_bytes_to_units_inverse(us.drop_first());
        assert(bytes_to_units(b) =~= us);
    }
}

proof fn lemma_units_to_chars_inverse(s: Seq<char>)
    ensures
        units_to_chars(utf16_units(s)) == s,
    decreases s.len(),
{
    if s.len() == 0 {
        assert(units_to_chars(utf16_units(s)) =~= s);
    } else {
        let c = s[0];
        let v = c as u32;
        let cu = char_units(c);
        let tail = utf16_units(s.drop_first());
        let us = utf16_units(s);
        assert(us == cu + tail);
        vstd::utf8::char_is_scalar(c);
        vstd::utf8::char_u32_cast(c, v);
        lemma_units_to_chars_inverse(s.drop_first());
        if v < 0x10000 {
            assert(us[0] == v as u16);
            assert(!is_high_surrogate(us[0]));
            assert(us.drop_first() =~= tail);
            assert((us[0] as u32) == v);
            assert(units_to_chars(us) =~= s);
        } else {
            let d = v - 0x10000;
            assert(0 <= d <= 0xFFFFF);
            assert(d / 0x400 <= 0x3FF && d % 0x400 <= 0x3FF) by {
                vstd::arithmetic::div_mod::lemma_fundamental_div_mod(d, 0x400);
                assert(d / 0x400 <= 0x3FF) by (nonlinear_arith)
                    requires 0 <= d <= 0xFFFFF;
            }
            let hi = (0xD800 + d / 0x400) as u16;
            let lo = (0xDC00 + d % 0x400) as u16;
            assert(us.len() >= 2 && us[0] == hi && us[1] == lo);
            assert(is_high_surrogate(hi) && is_low_surrogate(lo));
            vstd::arithmetic::div_mod::lemma_fundamental_div_mod(d, 0x400);
            assert(0x10000 + 0x400 * (hi - 0xD800) + (lo - 0xDC00) == v);
            assert(us.skip(2) =~= tail);
            assert(units_to_chars(us) =~= s);
        }
    }
}

/// Decoding the encoded form of a key as 16-bit little-endian code units
/// recovers the key exactly.
pub proof fn lemma_encode_round_trip(s: Seq<char>)
    ensures
        decoded_key(encoded_key(s)) == s,
{
    lemma_bytes_to_units_inverse(utf16_units(s));
    lemma_units_to_chars_inverse(s);
}

} // verus!
