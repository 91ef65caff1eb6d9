//! Byte-level helpers shared by the wire codec: little-endian integer
//! conversions, signed/unsigned reinterpretation, C-string scanning and
//! decimal formatting.

use encoding::Encoding;
use vstd::prelude::*;

verus! {

// ---------------------------------------------------------------------------
// Character decoding.
// ---------------------------------------------------------------------------

/// The text that the CP866 (IBM866) code page assigns to `bytes`, with the
/// replacement character for unmapped bytes.
pub uninterp spec fn cp866_chars(bytes: Seq<u8>) -> Seq<char>;

/// Relies on `encoding::all::IBM866`'s `Encoding::decode` with
/// `DecoderTrap::Replace`: the result is a function of the input bytes alone,
/// and with the replacing trap every byte sequence decodes successfully.
#[verifier::external_body]
pub fn convert_cp866_to_utf8(cstr: &[u8]) -> (r: Option<String>)
    ensures
        r is Some,
        r->0@ == cp866_chars(cstr@),
{
    encoding::all::IBM866.decode(cstr, encoding::DecoderTrap::Replace).ok()
}

// ---------------------------------------------------------------------------
// Signed <-> unsigned reinterpretation (two's complement, total functions).
// ---------------------------------------------------------------------------

/// The unsigned 16-bit pattern that represents `v` in two's complement.
pub open spec fn spec_u16_of_i16(v: i16) -> u16 {
    if v >= 0 {
        v as u16
    } else {
        (v + 0x10000) as u16
    }
}

/// The signed value represented by the 16-bit pattern `b`.
pub open spec fn spec_i16_of_u16(b: u16) -> i16 {
    if b < 0x8000 {
        b as i16
    } else {
        (b - 0x10000) as i16
    }
}

/// The unsigned 32-bit pattern that represents `v` in two's complement.
pub open spec fn spec_u32_of_i32(v: i32) -> u32 {
    if v >= 0 {
        v as u32
    } else {
        (v + 0x1_0000_0000) as u32
    }
}

/// The signed value represented by the 32-bit pattern `b`.
pub open spec fn spec_i32_of_u32(b: u32) -> i32 {
    if b < 0x8000_0000 {
        b as i32
    } else {
        (b - 0x1_0000_0000) as i32
    }
}

pub fn u16_of_i16(v: i16) -> (r: u16)
    ensures
        r == spec_u16_of_i16(v),
{
    if v >= 0 {
        v as u16
    } else {
        ((v as i32) + 0x10000) as u16
    }
}

pub fn i16_of_u16(b: u16) -> (r: i16)
    ensures
        r == spec_i16_of_u16(b),
{
    if b < 0x8000 {
        b as i16
    } else {
        ((b as i32) - 0x10000) as i16
    }
}

pub fn u32_of_i32(v: i32) -> (r: u32)
    ensures
        r == spec_u32_of_i32(v),
{
    if v >= 0 {
        v as u32
    } else {
        ((v as i64) + 0x1_0000_0000) as u32
    }
}

pub fn i32_of_u32(b: u32) -> (r: i32)
    ensures
        r == spec_i32_of_u32(b),
{
    if b < 0x8000_0000 {
        b as i32
    } else {
        ((b as i64) - 0x1_0000_0000) as i32
    }
}

pub proof fn lemma_u16_of_i16_inverse(v: i16)
    ensures
        spec_i16_of_u16(spec_u16_of_i16(v)) == v,
{
}

pub proof fn lemma_u32_of_i32_inverse(v: i32)
    ensures
        spec_i32_of_u32(spec_u32_of_i32(v)) == v,
{
}

// ---------------------------------------------------------------------------
// Little-endian wire encodings.
// ---------------------------------------------------------------------------

/// The two little-endian bytes of a signed 16-bit value.
pub open spec fn spec_i16_le(v: i16) -> Seq<u8> {
    vstd::bytes::spec_u16_to_le_bytes(spec_u16_of_i16(v))
}

/// The four little-endian bytes of a signed 32-bit value.
pub open spec fn spec_i32_le(v: i32) -> Seq<u8> {
    vstd::bytes::spec_u32_to_le_bytes(spec_u32_of_i32(v))
}

/// The signed 16-bit value read from two little-endian bytes.
pub open spec fn spec_i16_from_le(s: Seq<u8>) -> i16 {
    spec_i16_of_u16(vstd::bytes::spec_u16_from_le_bytes(s))
}

/// The signed 32-bit value read from four little-endian bytes.
pub open spec fn spec_i32_from_le(s: Seq<u8>) -> i32 {
    spec_i32_of_u32(vstd::bytes::spec_u32_from_le_bytes(s))
}

pub fn i16_le(v: i16) -> (r: Vec<u8>)
    ensures
        r@ == spec_i16_le(v),
{
    vstd::bytes::u16_to_le_bytes(u16_of_i16(v))
}

pub fn i32_le(v: i32) -> (r: Vec<u8>)
    ensures
        r@ == spec_i32_le(v),
{
    vstd::bytes::u32_to_le_bytes(u32_of_i32(v))
}

/// Reads an unsigned 16-bit value from a two-byte little-endian slice.
pub fn slice_le_to_u16(s: &[u8]) -> (r: u16)
    requires
        s@.len() == 2,
    ensures
        r == vstd::bytes::spec_u16_from_le_bytes(s@),
{
    vstd::bytes::u16_from_le_bytes(s)
}

/// Reads a signed 16-bit value from a two-byte little-endian slice.
pub fn slice_le_to_i16(s: &[u8]) -> (r: i16)
    requires
        s@.len() == 2,
    ensures
        r == spec_i16_from_le(s@),
{
    i16_of_u16(vstd::bytes::u16_from_le_bytes(s))
}

/// Reads an unsigned 32-bit value from a four-byte little-endian slice.
pub fn slice_le_to_u32(s: &[u8]) -> (r: u32)
    requires
        s@.len() == 4,
    ensures
        r == vstd::bytes::spec_u32_from_le_bytes(s@),
{
    vstd::bytes::u32_from_le_bytes(s)
}

/// Reads a signed 32-bit value from a four-byte little-endian slice.
pub fn slice_le_to_i32(s: &[u8]) -> (r: i32)
    requires
        s@.len() == 4,
    ensures
        r == spec_i32_from_le(s@),
{
    i32_of_u32(vstd::bytes::u32_from_le_bytes(s))
}

pub proof fn lemma_i16_le_inverse(v: i16)
    ensures
        spec_i16_le(v).len() == 2,
        spec_i16_from_le(spec_i16_le(v)) == v,
{
    vstd::bytes::lemma_auto_spec_u16_to_from_le_bytes();
    assert(vstd::bytes::spec_u16_to_le_bytes(spec_u16_of_i16(v)).len() == 2);
    lemma_u16_of_i16_inverse(v);
}

pub proof fn lemma_i32_le_inverse(v: i32)
    ensures
        spec_i32_le(v).len() == 4,
        spec_i32_from_le(spec_i32_le(v)) == v,
{
    vstd::bytes::lemma_auto_spec_u32_to_from_le_bytes();
    assert(vstd::bytes::spec_u32_to_le_bytes(spec_u32_of_i32(v)).len() == 4);
    lemma_u32_of_i32_inverse(v);
}

/// Writing back the signed 16-bit value read from two little-endian bytes
/// gives the bytes back.
pub proof fn lemma_sign_le_round_trip_2(s: Seq<u8>)
    requires
        s.len() == 2,
    ensures
        spec_i16_le(spec_i16_from_le(s)) == s,
{
    vstd::bytes::lemma_auto_spec_u16_to_from_le_bytes();
    let u = vstd::bytes::spec_u16_from_le_bytes(s);
    assert(spec_u16_of_i16(spec_i16_of_u16(u)) == u);
}

/// Writing back the signed 32-bit value read from four little-endian bytes
/// gives the bytes back.
pub proof fn lemma_sign_le_round_trip_4(s: Seq<u8>)
    requires
        s.len() == 4,
    ensures
        spec_i32_le(spec_i32_from_le(s)) == s,
{
    vstd::bytes::lemma_auto_spec_u32_to_from_le_bytes();
    let u = vstd::bytes::spec_u32_from_le_bytes(s);
    assert(spec_u32_of_i32(spec_i32_of_u32(u)) == u);
}

/// The little-endian bytes of a sequence of signed 32-bit values.
pub open spec fn spec_i32s_le(s: Seq<i32>) -> Seq<u8>
    decreases s.len(),
{
    if s.len() == 0 {
        Seq::<u8>::empty()
    } else {
        spec_i32_le(s[0]) + spec_i32s_le(s.skip(1))
    }
}

/// Flattens a slice of signed 32-bit values to their little-endian bytes.
pub fn slice_i32_to_vec_u8(slice: &[i32]) -> (r: Vec<u8>)
    ensures
        r@ == spec_i32s_le(slice@),
{
    let mut out: Vec<u8> = Vec::new();
    let mut i: usize = 0;
    while i < slice.len()
        invariant
            i <= slice@.len(),
            out@ == spec_i32s_le(slice@.take(i as int)),
        decreases slice@.len() - i,
    {
        let mut bytes = i32_le(slice[i]);
        out.append(&mut bytes);
        proof {
            lemma_i32s_le_snoc(slice@, i as int);
        }
        i = i + 1;
    }
    assert(slice@.take(slice@.len() as int) == slice@);
    out
}

proof fn lemma_i32s_le_snoc(s: Seq<i32>, i: int)
    requires
        0 <= i < s.len(),
    ensures
        spec_i32s_le(s.take(i + 1)) == spec_i32s_le(s.take(i)) + spec_i32_le(s[i]),
    decreases i,
{
    if i == 0 {
        assert(s.take(1).skip(1) =~= Seq::<i32>::empty());
        assert(s.take(1)[0] == s[0]);
        assert(s.take(0) =~= Seq::<i32>::empty());
        assert(spec_i32s_le(s.take(1)) == spec_i32_le(s[0]) + spec_i32s_le(Seq::<i32>::empty()));
        assert(spec_i32_le(s[0]) + Seq::<u8>::empty() =~= spec_i32_le(s[0]));
        assert(spec_i32s_le(s.take(0)) + spec_i32_le(s[0]) =~= spec_i32_le(s[0]));
    } else {
        lemma_i32s_le_snoc(s.skip(1), i - 1);
        assert(s.take(i + 1)[0] == s[0]);
        assert(s.take(i + 1).skip(1) =~= s.skip(1).take(i));
        assert(s.take(i).skip(1) =~= s.skip(1).take(i - 1));
        assert(s.take(i)[0] == s[0]);
        assert(s.skip(1)[i - 1] == s[i]);
        assert(spec_i32s_le(s.take(i + 1)) =~= spec_i32_le(s[0]) + spec_i32s_le(s.skip(1).take(i)));
        assert(spec_i32_le(s[0]) + (spec_i32s_le(s.skip(1).take(i - 1)) + spec_i32_le(s[i]))
            =~= (spec_i32_le(s[0]) + spec_i32s_le(s.skip(1).take(i - 1))) + spec_i32_le(s[i]));
    }
}

// ---------------------------------------------------------------------------
// Deep views of vectors: how element-level mutation shows in the model.
// ---------------------------------------------------------------------------

/// Pushing onto a vector pushes the element's model onto the deep view.
pub proof fn lemma_deep_view_push<T: DeepView>(v1: &Vec<T>, v2: &Vec<T>)
    requires
        v2@ == v1@.push(v2@.last()),
    ensures
        v2.deep_view() == v1.deep_view().push(v2@.last().deep_view()),
{
    assert(v2.deep_view() =~= v1.deep_view().push(v2@.last().deep_view()));
}

/// Replacing one element of a vector updates one entry of the deep view.
pub proof fn lemma_deep_view_update<T: DeepView>(v1: &Vec<T>, v2: &Vec<T>, i: int)
    requires
        0 <= i < v1@.len(),
        v2@ == v1@.update(i, v2@[i]),
    ensures
        v2.deep_view() == v1.deep_view().update(i, v2@[i].deep_view()),
{
    assert(v2.deep_view() =~= v1.deep_view().update(i, v2@[i].deep_view()));
}

/// Removing one element of a vector removes one entry of the deep view.
pub proof fn lemma_deep_view_remove<T: DeepView>(v1: &Vec<T>, v2: &Vec<T>, i: int)
    requires
        0 <= i < v1@.len(),
        v2@ == v1@.remove(i),
    ensures
        v2.deep_view() == v1.deep_view().remove(i),
{
    assert(v2.deep_view() =~= v1.deep_view().remove(i));
}

/// Vectors with one view have one deep view.
pub proof fn lemma_deep_view_eq<T: DeepView>(v1: &Vec<T>, v2: &Vec<T>)
    requires
        v1@ == v2@,
    ensures
        v1.deep_view() == v2.deep_view(),
{
    assert(v1.deep_view() =~= v2.deep_view());
}

// ---------------------------------------------------------------------------
// C-string scanning.
// ---------------------------------------------------------------------------

/// Returns a null-terminated prefix of `bytes`, or `None` when the first byte
/// is already a null terminator or no null byte exists.
pub fn get_first_cstr(bytes: &[u8]) -> (r: Option<&[u8]>)
    ensures
        r is Some <==> (bytes@.len() > 0 && bytes@[0] != 0 && exists|i: int|
            0 <= i < bytes@.len() && bytes@[i] == 0),
        r is Some ==> {
            let s = r->0@;
            &&& s.len() >= 2
            &&& s.len() <= bytes@.len()
            &&& s == bytes@.subrange(0, s.len() as int)
            &&& s[s.len() - 1] == 0
            &&& forall|j: int| 0 <= j < s.len() - 1 ==> s[j] != 0
        },
{
    if bytes.len() == 0 || bytes[0] == 0 {
        return None;
    }
    let mut i: usize = 1;
    while i < bytes.len()
        invariant
            1 <= i <= bytes@.len(),
            forall|j: int| 0 <= j < i ==> bytes@[j] != 0,
        decreases bytes@.len() - i,
    {
        if bytes[i] == 0 {
            let s = &bytes[0..i + 1];
            return Some(s);
        }
        i = i + 1;
    }
    None
}

/// Returns the prefix of `bytes` up to and including the first null byte,
/// even when that prefix is just the null byte itself; `None` when no null
/// byte exists.
pub fn cstr_until_nul(bytes: &[u8]) -> (r: Option<&[u8]>)
    ensures
        r is Some <==> exists|i: int| 0 <= i < bytes@.len() && bytes@[i] == 0,
        r is Some ==> {
            let s = r->0@;
            &&& s.len() >= 1
            &&& s.len() <= bytes@.len()
            &&& s == bytes@.subrange(0, s.len() as int)
            &&& s[s.len() - 1] == 0
            &&& forall|j: int| 0 <= j < s.len() - 1 ==> s[j] != 0
        },
{
    let mut i: usize = 0;
    while i < bytes.len()
        invariant
            i <= bytes@.len(),
            forall|j: int| 0 <= j < i ==> bytes@[j] != 0,
        decreases bytes@.len() - i,
    {
        if bytes[i] == 0 {
            let s = &bytes[0..i + 1];
            return Some(s);
        }
        i = i + 1;
    }
    None
}

// ---------------------------------------------------------------------------
// Decimal formatting (ASCII digits).
// ---------------------------------------------------------------------------

/// The ASCII decimal digits of `v`, most significant first, no leading zeros.
pub open spec fn spec_dec_u32(v: u32) -> Seq<u8>
    decreases v,
{
    if v < 10 {
        seq![(v + 48) as u8]
    } else {
        spec_dec_u32((v / 10) as u32) + seq![((v % 10) + 48) as u8]
    }
}

/// Formats `v` as ASCII decimal digits, most significant first.
pub fn u32_to_dec_bytes(v: u32) -> (r: Vec<u8>)
    ensures
        r@ == spec_dec_u32(v),
    decreases v,
{
    if v < 10 {
        let mut out: Vec<u8> = Vec::new();
        out.push((v + 48) as u8);
        assert(out@ =~= spec_dec_u32(v));
        out
    } else {
        let mut out = u32_to_dec_bytes(v / 10);
        out.push(((v % 10) + 48) as u8);
        assert(out@ =~= spec_dec_u32(v));
        out
    }
}

/// The two zero-padded ASCII decimal digits of `v`, which must be below 100.
pub open spec fn spec_dec2_u32(v: u32) -> Seq<u8> {
    seq![((v / 10 % 10) + 48) as u8, ((v % 10) + 48) as u8]
}

/// Formats `v < 100` as exactly two zero-padded ASCII decimal digits.
pub fn u32_to_dec2_bytes(v: u32) -> (r: Vec<u8>)
    requires
        v < 100,
    ensures
        r@ == spec_dec2_u32(v),
{
    let mut out: Vec<u8> = Vec::new();
    out.push((v / 10 % 10 + 48) as u8);
    out.push((v % 10 + 48) as u8);
    assert(out@ =~= spec_dec2_u32(v));
    out
}

/// The five zero-padded ASCII decimal digits of a 16-bit value.
pub open spec fn spec_dec5_u16(v: u16) -> Seq<u8> {
    seq![
        ((v / 10000 % 10) + 48) as u8,
        ((v / 1000 % 10) + 48) as u8,
        ((v / 100 % 10) + 48) as u8,
        ((v / 10 % 10) + 48) as u8,
        ((v % 10) + 48) as u8,
    ]
}

/// Formats a 16-bit value as exactly five zero-padded ASCII decimal digits.
pub fn u16_to_dec5_bytes(v: u16) -> (r: Vec<u8>)
    ensures
        r@ == spec_dec5_u16(v),
{
    let mut out: Vec<u8> = Vec::new();
    out.push((v / 10000 % 10) as u8 + 48);
    out.push((v / 1000 % 10) as u8 + 48);
    out.push((v / 100 % 10) as u8 + 48);
    out.push((v / 10 % 10) as u8 + 48);
    out.push((v % 10) as u8 + 48);
    assert(out@ =~= spec_dec5_u16(v));
    out
}

} // verus!
