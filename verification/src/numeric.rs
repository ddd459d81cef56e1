//! Decoding the numeric values of the SMC.

use vstd::prelude::*;

use crate::fourcc;
use crate::fourcc::{decode_be_uint, fourcc_to_string};
use crate::packet::SmcKeyInfo;
use crate::text;

verus! {

/// A decoded value, exact.
///
/// `Float` holds the bits of an IEEE-754 single, `Integer` an unsigned integer, and `Fixed` the
/// quotient of `raw` and `denominator`.
#[derive(Clone, Copy, Debug, PartialEq, Eq)]
pub enum Numeric {
    Float { bits: u32 },
    Integer { value: u64 },
    Fixed { raw: i32, denominator: u16 },
}

impl Numeric {
    /// Neither an infinity nor a NaN: for a float, the exponent is not all ones.
    pub open spec fn finite(self) -> bool {
        match self {
            Numeric::Float { bits } => bits / 0x80_0000 % 0x100 != 0xff,
            _ => true,
        }
    }

    /// Whether the value is neither an infinity nor a NaN.
    pub fn is_finite(&self) -> (r: bool)
        ensures
            r == self.finite(),
            *self matches Numeric::Float { bits } ==> (r <==> bits % 0x8000_0000 < 0x7f80_0000),
            !(*self is Float) ==> r,
    {
        proof {
            finite_numbers(*self);
        }
        match self {
            Numeric::Float { bits } => *bits / 0x80_0000 % 0x100 != 0xff,
            _ => true,
        }
    }
}

/// The name of a data type: its four characters without trailing white space.
pub open spec fn type_tag(data_type: u32) -> Seq<char> {
    text::end_trimmed(fourcc::code_text(data_type))
}

/// The names of the unsigned integer types.
pub open spec fn uint_type(name: Seq<char>) -> bool {
    name == "ui8"@ || name == "ui16"@ || name == "ui32"@
}

/// The tags of the numeric types.
pub open spec fn numeric_tag(tag: Seq<char>) -> bool {
    tag == "flt"@ || uint_type(tag) || tag == "sp78"@ || tag == "fpe2"@
}

/// The number with the two's-complement representation `n` in 16 bits.
pub open spec fn signed16(n: nat) -> int {
    if n < 0x8000 {
        n as int
    } else {
        n - 0x1_0000
    }
}

/// The value of `bytes` under a type and a size: `flt` is a little-endian single, integers are
/// big-endian of the given size, `sp78` is a big-endian signed number in 256ths, `fpe2` is a
/// big-endian unsigned number in quarters. Nothing else is numeric, nor is an empty value.
pub open spec fn decoded(info: SmcKeyInfo, bytes: Seq<u8>) -> Option<Numeric> {
    let name = type_tag(info.data_type);
    if info.data_size == 0 {
        None
    } else if name == "flt"@ {
        Some(Numeric::Float { bits: fourcc::be_value(bytes.take(4).reverse()) as u32 })
    } else if uint_type(name) {
        Some(
            Numeric::Integer {
                value: (fourcc::be_value(bytes.take(info.data_size as int))
                    % 0x1_0000_0000_0000_0000) as u64,
            },
        )
    } else if name == "sp78"@ {
        Some(
            Numeric::Fixed {
                raw: signed16(fourcc::be_value(bytes.take(2))) as i32,
                denominator: 256,
            },
        )
    } else if name == "fpe2"@ {
        Some(Numeric::Fixed { raw: fourcc::be_value(bytes.take(2)) as i32, denominator: 4 })
    } else {
        None
    }
}

/// `len` bytes are enough to decode a value of this type and size.
pub open spec fn enough(info: SmcKeyInfo, len: nat) -> bool {
    let name = type_tag(info.data_type);
    if info.data_size == 0 {
        true
    } else if name == "flt"@ {
        len >= 4
    } else if uint_type(name) {
        len >= info.data_size
    } else if name == "sp78"@ || name == "fpe2"@ {
        len >= 2
    } else {
        true
    }
}

/// The name of a data type, without trailing white space.
pub fn data_type_tag(data_type: u32) -> (r: String)
    ensures
        r@ == type_tag(data_type),
{
    let four: String = fourcc_to_string(data_type);
    text::trim_end(four.as_str()).to_owned()
}

/// Whether `len` bytes are enough to decode a value of this type and size.
pub fn has_enough(info: &SmcKeyInfo, len: usize) -> (r: bool)
    ensures
        r == enough(*info, len as nat),
{
    if info.data_size == 0 {
        return true;
    }
    let name: String = data_type_tag(info.data_type);
    let name: &str = name.as_str();
    if text::same_text(name, "flt") {
        len >= 4
    } else if text::same_text(name, "ui8") || text::same_text(name, "ui16") || text::same_text(
        name,
        "ui32",
    ) {
        len >= info.data_size as usize
    } else if text::same_text(name, "sp78") || text::same_text(name, "fpe2") {
        len >= 2
    } else {
        true
    }
}

/// Decodes a numeric SMC value, honoring per-type endianness: `flt` is little-endian IEEE-754,
/// integers and fixed-point are big-endian.
pub fn decode_f32(info: &SmcKeyInfo, bytes: &[u8]) -> (r: Option<Numeric>)
    requires
        enough(*info, bytes@.len()),
    ensures
        r == decoded(*info, bytes@),
{
    if info.data_size == 0 {
        return None;
    }
    let name: String = data_type_tag(info.data_type);
    let name: &str = name.as_str();
    if text::same_text(name, "flt") {
        let b: [u8; 4] = [bytes[3], bytes[2], bytes[1], bytes[0]];
        assert(b@.take(4) =~= bytes@.take(4).reverse());
        let bits: u64 = decode_be_uint(&b, 4);
        proof {
            fourcc::lemma_be_value_4(b@.take(4));
        }
        Some(Numeric::Float { bits: bits as u32 })
    } else if text::same_text(name, "ui8") || text::same_text(name, "ui16") || text::same_text(
        name,
        "ui32",
    ) {
        Some(Numeric::Integer { value: decode_be_uint(bytes, info.data_size as usize) })
    } else if text::same_text(name, "sp78") {
        let n: u64 = decode_be_uint(bytes, 2);
        proof {
            fourcc::lemma_be_value_2(bytes@.take(2));
        }
        let raw: i32 = if n < 0x8000 {
            n as i32
        } else {
            n as i32 - 0x1_0000
        };
        Some(Numeric::Fixed { raw, denominator: 256 })
    } else if text::same_text(name, "fpe2") {
        let n: u64 = decode_be_uint(bytes, 2);
        proof {
            fourcc::lemma_be_value_2(bytes@.take(2));
        }
        Some(Numeric::Fixed { raw: n as i32, denominator: 4 })
    } else {
        None
    }
}

/// A value is numeric exactly if it is not empty and has one of the numeric types.
pub proof fn numeric_values(info: SmcKeyInfo, bytes: Seq<u8>)
    ensures
        decoded(info, bytes) is Some <==> info.data_size != 0 && numeric_tag(
            type_tag(info.data_type),
        ),
{
}

/// A float is finite exactly if its magnitude lies below that of infinity; its sign does not
/// matter, and zero is finite. All other numbers are finite.
pub proof fn finite_numbers(v: Numeric)
    ensures
        v matches Numeric::Float { bits } ==> (v.finite() <==> bits % 0x8000_0000 < 0x7f80_0000),
        v is Integer ==> v.finite(),
        v is Fixed ==> v.finite(),
{
    if let Numeric::Float { bits } = v {
        assert(bits / 0x80_0000 % 0x100 != 0xff <==> bits % 0x8000_0000 < 0x7f80_0000)
            by (bit_vector);
    }
}

/// A 16-bit two's-complement number lies in its range, and differs from its representation by a
/// multiple of 0x1_0000.
pub proof fn signed_numbers(n: nat)
    requires
        n < 0x1_0000,
    ensures
        -0x8000 <= signed16(n) < 0x8000,
        (signed16(n) - n) % 0x1_0000 == 0,
{
}

proof fn lemma_three_letters(data_type: u32, a: char, b: char, c: char)
    requires
        !text::whitespace(c),
    ensures
        type_tag(data_type) == seq![a, b, c] <==> {
            let s = fourcc::code_text(data_type);
            s[0] == a && s[1] == b && s[2] == c && text::whitespace(s[3])
        },
{
    let s = fourcc::code_text(data_type);
    let tag = type_tag(data_type);
    text::trimming_the_end(s);
    if tag == seq![a, b, c] {
        assert(s.take(3)[0] == a && s.take(3)[1] == b && s.take(3)[2] == c);
        assert(text::whitespace(s[3]));
    }
    if s[0] == a && s[1] == b && s[2] == c && text::whitespace(s[3]) {
        if tag.len() < 3 {
            assert(text::whitespace(s[2]));
        }
        if tag.len() == 4 {
            assert(tag.last() == s[3]);
        }
        assert(tag =~= seq![a, b, c]);
    }
}

proof fn lemma_four_letters(data_type: u32, a: char, b: char, c: char, d: char)
    requires
        !text::whitespace(d),
    ensures
        type_tag(data_type) == seq![a, b, c, d] <==> {
            let s = fourcc::code_text(data_type);
            s[0] == a && s[1] == b && s[2] == c && s[3] == d
        },
{
    let s = fourcc::code_text(data_type);
    let tag = type_tag(data_type);
    text::trimming_the_end(s);
    if tag == seq![a, b, c, d] {
        assert(s.take(4) =~= s);
    }
    if s[0] == a && s[1] == b && s[2] == c && s[3] == d {
        if tag.len() < 4 {
            assert(text::whitespace(s[3]));
        }
        assert(tag =~= seq![a, b, c, d]);
    }
}

proof fn lemma_letters(data_type: u32)
    ensures
        fourcc::code_text(data_type)[0] as int == data_type / 0x1000000,
        fourcc::code_text(data_type)[1] as int == data_type / 0x10000 % 0x100,
        fourcc::code_text(data_type)[2] as int == data_type / 0x100 % 0x100,
        fourcc::code_text(data_type)[3] as int == data_type % 0x100,
{
}

/// A type tag is a beginning of the four characters of its type: it does not end with white space,
/// and it leaves out nothing but white space.
pub proof fn type_tags(data_type: u32)
    ensures
        ({
            let s = fourcc::code_text(data_type);
            let tag = type_tag(data_type);
            &&& tag.len() <= 4
            &&& tag == s.take(tag.len() as int)
            &&& forall|i: int| tag.len() <= i < 4 ==> text::whitespace(#[trigger] s[i])
            &&& tag.len() > 0 ==> !text::whitespace(tag.last())
        }),
{
    text::trimming_the_end(fourcc::code_text(data_type));
}

/// The numeric types by their numbers: `flt` and `ui8` end with a white-space character, the
/// others fill all four.
pub proof fn type_numbers(data_type: u32)
    ensures
        type_tag(data_type) == "flt"@ <==> data_type / 0x100 == 0x666c74 && (9 <= data_type % 0x100
            <= 13 || data_type % 0x100 == 0x20 || data_type % 0x100 == 0x85 || data_type % 0x100
            == 0xa0),
        type_tag(data_type) == "ui8"@ <==> data_type / 0x100 == 0x756938 && (9 <= data_type % 0x100
            <= 13 || data_type % 0x100 == 0x20 || data_type % 0x100 == 0x85 || data_type % 0x100
            == 0xa0),
        type_tag(data_type) == "ui16"@ <==> data_type == 0x75693136,
        type_tag(data_type) == "ui32"@ <==> data_type == 0x75693332,
        type_tag(data_type) == "sp78"@ <==> data_type == 0x73703738,
        type_tag(data_type) == "fpe2"@ <==> data_type == 0x66706532,
{
    reveal_strlit("flt");
    reveal_strlit("ui8");
    reveal_strlit("ui16");
    reveal_strlit("ui32");
    reveal_strlit("sp78");
    reveal_strlit("fpe2");
    assert("flt"@ =~= seq!['f', 'l', 't']);
    assert("ui8"@ =~= seq!['u', 'i', '8']);
    assert("ui16"@ =~= seq!['u', 'i', '1', '6']);
    assert("ui32"@ =~= seq!['u', 'i', '3', '2']);
    assert("sp78"@ =~= seq!['s', 'p', '7', '8']);
    assert("fpe2"@ =~= seq!['f', 'p', 'e', '2']);
    lemma_letters(data_type);
    text::white_space(fourcc::code_text(data_type)[3]);
    lemma_three_letters(data_type, 'f', 'l', 't');
    lemma_three_letters(data_type, 'u', 'i', '8');
    lemma_four_letters(data_type, 'u', 'i', '1', '6');
    lemma_four_letters(data_type, 'u', 'i', '3', '2');
    lemma_four_letters(data_type, 's', 'p', '7', '8');
    lemma_four_letters(data_type, 'f', 'p', 'e', '2');
}

/// The names of the numeric types differ.
proof fn lemma_names_differ()
    ensures
        "flt"@ != "ui8"@,
        "flt"@ != "ui16"@,
        "flt"@ != "ui32"@,
        "flt"@ != "sp78"@,
        "flt"@ != "fpe2"@,
        "sp78"@ != "ui8"@,
        "sp78"@ != "ui16"@,
        "sp78"@ != "ui32"@,
        "sp78"@ != "fpe2"@,
        "fpe2"@ != "ui8"@,
        "fpe2"@ != "ui16"@,
        "fpe2"@ != "ui32"@,
{
    reveal_strlit("flt");
    reveal_strlit("ui8");
    reveal_strlit("ui16");
    reveal_strlit("ui32");
    reveal_strlit("sp78");
    reveal_strlit("fpe2");
    assert("sp78"@[0] != "fpe2"@[0]);
    assert("flt"@.len() == 3 && "fpe2"@.len() == 4);
    assert("ui16"@[0] == 'u' && "ui32"@[0] == 'u' && "ui8"@[0] == 'u');
    assert("flt"@[0] == 'f' && "sp78"@[0] == 's' && "fpe2"@[0] == 'f');
}

/// A float is made of its first four bytes, the first being the least significant.
pub proof fn floats_are_little_endian(info: SmcKeyInfo, bytes: Seq<u8>)
    requires
        type_tag(info.data_type) == "flt"@,
        info.data_size != 0,
        bytes.len() >= 4,
    ensures
        decoded(info, bytes) matches Some(Numeric::Float { bits }) && bits == bytes[0] + bytes[1]
            * 0x100 + bytes[2] * 0x10000 + bytes[3] * 0x1000000,
{
    fourcc::lemma_be_value_4(bytes.take(4).reverse());
}

/// An integer is made of as many bytes as the size tells, the last being the least significant;
/// of more than eight the last eight count.
pub proof fn integers_are_big_endian(info: SmcKeyInfo, bytes: Seq<u8>)
    requires
        type_tag(info.data_type) == "ui8"@ || type_tag(info.data_type) == "ui16"@ || type_tag(
            info.data_type,
        ) == "ui32"@,
        0 < info.data_size <= bytes.len(),
    ensures
        decoded(info, bytes) is Some,
        decoded(info, bytes)->0 is Integer,
        ({
            let value = decoded(info, bytes)->0->value;
            let n = info.data_size as int;
            &&& n == 1 ==> value == bytes[0]
            &&& n == 2 ==> value == bytes[0] * 0x100 + bytes[1]
            &&& n == 4 ==> value == bytes[0] * 0x1000000 + bytes[1] * 0x10000 + bytes[2] * 0x100
                + bytes[3]
            &&& n <= 8 ==> value == fourcc::be_value(bytes.take(n))
            &&& n > 8 ==> value == fourcc::be_value(bytes.subrange(n - 8, n))
        }),
{
    lemma_names_differ();
    let n = info.data_size as int;
    if n <= 8 {
        fourcc::narrow_values_are_exact(bytes.take(n));
    } else {
        fourcc::low_bytes(bytes.take(n - 8), bytes.subrange(n - 8, n));
        assert(bytes.take(n) =~= bytes.take(n - 8) + bytes.subrange(n - 8, n));
    }
    if n == 1 {
        assert(bytes.take(1) =~= seq![bytes[0]]);
        fourcc::byte_value(bytes[0]);
    }
    if n == 2 {
        fourcc::lemma_be_value_2(bytes.take(2));
    }
    if n == 4 {
        fourcc::lemma_be_value_4(bytes.take(4));
    }
}

/// An `sp78` value is the two's-complement number of its first two bytes, big-endian, in 256ths.
pub proof fn signed_fixed_point(info: SmcKeyInfo, bytes: Seq<u8>)
    requires
        type_tag(info.data_type) == "sp78"@,
        info.data_size != 0,
        bytes.len() >= 2,
    ensures
        decoded(info, bytes) matches Some(Numeric::Fixed { raw, denominator }) && denominator == 256
            && -0x8000 <= raw < 0x8000 && (raw - (bytes[0] * 0x100 + bytes[1])) % 0x1_0000 == 0,
{
    lemma_names_differ();
    fourcc::lemma_be_value_2(bytes.take(2));
    signed_numbers(fourcc::be_value(bytes.take(2)));
}

/// An `fpe2` value is the unsigned number of its first two bytes, big-endian, in quarters.
pub proof fn unsigned_fixed_point(info: SmcKeyInfo, bytes: Seq<u8>)
    requires
        type_tag(info.data_type) == "fpe2"@,
        info.data_size != 0,
        bytes.len() >= 2,
    ensures
        decoded(info, bytes) matches Some(Numeric::Fixed { raw, denominator }) && denominator == 4
            && raw == bytes[0] * 0x100 + bytes[1],
{
    lemma_names_differ();
    fourcc::lemma_be_value_2(bytes.take(2));
}

/// What is not empty and has one of the six numeric types is a number, and nothing else is.
pub proof fn numbers_by_type(info: SmcKeyInfo, bytes: Seq<u8>)
    ensures
        decoded(info, bytes) is Some <==> info.data_size != 0 && {
            ||| type_tag(info.data_type) == "flt"@
            ||| type_tag(info.data_type) == "ui8"@
            ||| type_tag(info.data_type) == "ui16"@
            ||| type_tag(info.data_type) == "ui32"@
            ||| type_tag(info.data_type) == "sp78"@
            ||| type_tag(info.data_type) == "fpe2"@
        },
{
}

/// A float takes four bytes, a fixed-point number two, an integer as many as its size tells;
/// what is no number takes none.
pub proof fn bytes_needed(info: SmcKeyInfo, bytes: Seq<u8>, len: nat)
    ensures
        decoded(info, bytes) matches Some(Numeric::Float { .. }) ==> (enough(info, len) <==> len
            >= 4),
        decoded(info, bytes) matches Some(Numeric::Integer { .. }) ==> (enough(info, len) <==> len
            >= info.data_size),
        decoded(info, bytes) matches Some(Numeric::Fixed { .. }) ==> (enough(info, len) <==> len
            >= 2),
        decoded(info, bytes) is None ==> enough(info, len),
{
    lemma_names_differ();
}

} // verus!
