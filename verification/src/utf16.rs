//! UTF-16 code units: how characters are encoded in them and decoded from them.
use vstd::prelude::*;

verus! {

pub open spec fn is_surrogate(u: int) -> bool {
    0xD800 <= u <= 0xDFFF
}

pub open spec fn is_high_surrogate(u: int) -> bool {
    0xD800 <= u <= 0xDBFF
}

pub open spec fn is_low_surrogate(u: int) -> bool {
    0xDC00 <= u <= 0xDFFF
}

/// A Unicode scalar value: what a `char` may hold.
pub open spec fn is_scalar(v: int) -> bool {
    0 <= v <= 0x10FFFF && !is_surrogate(v)
}

/// The code units of one character: itself below U+10000, else a surrogate pair.
pub open spec fn encode_char(c: char) -> Seq<u16> {
    let v = c as int;
    if v < 0x10000 {
        seq![v as u16]
    } else {
        let w = v - 0x10000;
        seq![(0xD800 + w / 0x400) as u16, (0xDC00 + w % 0x400) as u16]
    }
}

/// `str::encode_utf16`: the code units of each character in turn.
pub open spec fn utf16_encode(s: Seq<char>) -> Seq<u16>
    decreases s.len(),
{
    if s.len() == 0 {
        Seq::empty()
    } else {
        encode_char(s[0]) + utf16_encode(s.drop_first())
    }
}

/// `String::from_utf16`: the characters that `u` encodes, or `None` where it
/// holds an unpaired surrogate.
pub open spec fn utf16_decode(u: Seq<u16>) -> Option<Seq<char>>
    decreases u.len(),
{
    if u.len() == 0 {
        Some(Seq::empty())
    } else if !is_surrogate(u[0] as int) {
        match utf16_decode(u.drop_first()) {
            Some(rest) => Some(seq![u[0] as char] + rest),
            None => None,
        }
    } else if is_high_surrogate(u[0] as int) && u.len() >= 2 && is_low_surrogate(u[1] as int) {
        match utf16_decode(u.skip(2)) {
            Some(rest) => Some(
                seq![(0x10000 + (u[0] - 0xD800) * 0x400 + (u[1] - 0xDC00)) as char] + rest,
            ),
            None => None,
        }
    } else {
        None
    }
}

pub proof fn lemma_encode_char_decodes(c: char, rest: Seq<u16>)
    ensures
        utf16_decode(encode_char(c) + rest) == match utf16_decode(rest) {
            Some(t) => Some(seq![c] + t),
            None => None,
        },
{
    let v = c as int;
    let e = encode_char(c);
    assert(is_scalar(v));
    if v < 0x10000 {
        assert((e + rest).drop_first() =~= rest);
        assert((e + rest)[0] == v as u16);
        assert(((v as u16) as char) == c);
    } else {
        let w = v - 0x10000;
        let hi = 0xD800 + w / 0x400;
        let lo = 0xDC00 + w % 0x400;
        assert(0 <= w < 0x100000);
        assert(0 <= w / 0x400 < 0x400);
        assert(0xD800 <= hi <= 0xDBFF);
        assert(0xDC00 <= lo <= 0xDFFF);
        assert((e + rest)[0] == hi as u16);
        assert((e + rest)[1] == lo as u16);
        assert((e + rest).skip(2) =~= rest);
        assert(0x10000 + (hi - 0xD800) * 0x400 + (lo - 0xDC00) == v);
    }
}

/// Decoding the encoding of a string gives the string back.
pub proof fn lemma_utf16_roundtrip(s: Seq<char>)
    ensures
        utf16_decode(utf16_encode(s)) == Some(s),
    decreases s.len(),
{
    if s.len() > 0 {
        lemma_utf16_roundtrip(s.drop_first());
        lemma_encode_char_decodes(s[0], utf16_encode(s.drop_first()));
        assert(seq![s[0]] + s.drop_first() =~= s);
    }
}

pub proof fn lemma_utf16_encode_append(a: Seq<char>, b: Seq<char>)
    ensures
        utf16_encode(a + b) == utf16_encode(a) + utf16_encode(b),
    decreases a.len(),
{
    if a.len() > 0 {
        lemma_utf16_encode_append(a.drop_first(), b);
        assert((a + b).drop_first() =~= a.drop_first() + b);
        assert(encode_char(a[0]) + (utf16_encode(a.drop_first()) + utf16_encode(b))
            =~= (encode_char(a[0]) + utf16_encode(a.drop_first())) + utf16_encode(b));
    } else {
        assert(a + b =~= b);
        assert(Seq::<u16>::empty() + utf16_encode(b) =~= utf16_encode(b));
    }
}

/// Decoding two runs of code units that each decode, one after the other,
/// gives their texts one after the other.
pub proof fn lemma_utf16_decode_append(a: Seq<u16>, b: Seq<u16>)
    requires
        utf16_decode(a) is Some,
        utf16_decode(b) is Some,
    ensures
        utf16_decode(a + b) == Some(utf16_decode(a)->0 + utf16_decode(b)->0),
    decreases a.len(),
{
    if a.len() == 0 {
        assert(a + b =~= b);
        assert(utf16_decode(a)->0 =~= Seq::<char>::empty());
        assert(Seq::<char>::empty() + utf16_decode(b)->0 =~= utf16_decode(b)->0);
    } else if !is_surrogate(a[0] as int) {
        lemma_utf16_decode_append(a.drop_first(), b);
        assert((a + b)[0] == a[0]);
        assert((a + b).drop_first() =~= a.drop_first() + b);
        let x = utf16_decode(a.drop_first())->0;
        let y = utf16_decode(b)->0;
        assert(seq![a[0] as char] + (x + y) =~= (seq![a[0] as char] + x) + y);
    } else {
        assert(is_high_surrogate(a[0] as int) && a.len() >= 2 && is_low_surrogate(a[1] as int));
        lemma_utf16_decode_append(a.skip(2), b);
        assert((a + b)[0] == a[0]);
        assert((a + b)[1] == a[1]);
        assert((a + b).skip(2) =~= a.skip(2) + b);
        let c = (0x10000 + (a[0] - 0xD800) * 0x400 + (a[1] - 0xDC00)) as char;
        let x = utf16_decode(a.skip(2))->0;
        let y = utf16_decode(b)->0;
        assert(seq![c] + (x + y) =~= (seq![c] + x) + y);
    }
}

/// `str::encode_utf16`, collected into a vector.
#[verifier::external_body]
pub(crate) fn encode_utf16(s: &str) -> (r: Vec<u16>)
    ensures
        r@ == utf16_encode(s@),
{
    s.encode_utf16().collect()
}

/// `String::from_utf16`: the string that `v` encodes, or an error where `v`
/// holds an unpaired surrogate.
#[verifier::external_body]
pub(crate) fn string_from_utf16(v: &[u16]) -> (r: Result<String, std::string::FromUtf16Error>)
    ensures
        r matches Ok(s) ==> utf16_decode(v@) == Some(s@),
        r is Err ==> utf16_decode(v@) is None,
{
    String::from_utf16(v)
}

#[verifier::external_type_specification]
#[verifier::external_body]
pub struct ExFromUtf16Error(std::string::FromUtf16Error);

} // verus!
