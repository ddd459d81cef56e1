//! Four-character codes and big-endian integers.

use vstd::prelude::*;

verus! {

/// The unsigned value of `s` read as a big-endian number.
pub open spec fn be_value(s: Seq<u8>) -> nat
    decreases s.len(),
{
    if s.len() == 0 {
        0
    } else {
        be_value(s.drop_last()) * 256 + s.last() as nat
    }
}

/// `s` is long enough to be packed: its UTF-8 form has four bytes or more.
pub open spec fn packable(s: Seq<char>) -> bool {
    vstd::utf8::encode_utf8(s).len() >= 4
}

/// `s` can name a key: its UTF-8 form has exactly four bytes.
pub open spec fn is_key(s: Seq<char>) -> bool {
    vstd::utf8::encode_utf8(s).len() == 4
}

/// The code of `s`: the first four bytes of its UTF-8 form, read big-endian.
pub open spec fn packed(s: Seq<char>) -> nat {
    be_value(vstd::utf8::encode_utf8(s).take(4))
}

/// Packs a four-character key into the big-endian `u32` the SMC expects.
pub fn fourcc(s: &str) -> (code: u32)
    requires
        packable(s@),
    ensures
        code == packed(s@),
{
    let b: &[u8] = s.as_bytes();
    let (b0, b1, b2, b3): (u8, u8, u8, u8) = (b[0], b[1], b[2], b[3]);
    let code: u32 = ((b0 as u32) << 24) | ((b1 as u32) << 16) | ((b2 as u32) << 8) | (b3 as u32);
    proof {
        assert(code == b0 * 0x1000000 + b1 * 0x10000 + b2 * 0x100 + b3) by (bit_vector)
            requires
                code == ((b0 as u32) << 24) | ((b1 as u32) << 16) | ((b2 as u32) << 8) | (
                b3 as u32),
        ;
        lemma_be_value_4(vstd::utf8::encode_utf8(s@).take(4));
    }
    code
}

/// Whether `s` can name a key, which has exactly four bytes.
pub fn names_a_key(s: &str) -> (r: bool)
    ensures
        r == is_key(s@),
{
    s.as_bytes().len() == 4
}

/// The four bytes of `code`, most significant first.
pub open spec fn code_bytes(code: u32) -> Seq<u8> {
    seq![
        (code / 0x1000000) as u8,
        (code / 0x10000 % 0x100) as u8,
        (code / 0x100 % 0x100) as u8,
        (code % 0x100) as u8,
    ]
}

/// Each byte read as the character with that code point.
pub open spec fn latin1(s: Seq<u8>) -> Seq<char> {
    s.map_values(|b: u8| b as char)
}

/// The four characters of `code`.
pub open spec fn code_text(code: u32) -> Seq<char> {
    latin1(code_bytes(code))
}

/// `String::push` of the standard library: appends one character to the end.
pub assume_specification[ String::push ](s: &mut String, c: char)
    ensures
        final(s)@ == old(s)@.push(c),
;

/// Unpacks a big-endian FourCC `u32` into its four printable characters.
pub fn fourcc_to_string(code: u32) -> (r: String)
    ensures
        r@ == code_text(code),
{
    let b0: u8 = (code / 0x1000000) as u8;
    let b1: u8 = (code / 0x10000 % 0x100) as u8;
    let b2: u8 = (code / 0x100 % 0x100) as u8;
    let b3: u8 = (code % 0x100) as u8;
    let mut r: String = String::new();
    r.push(b0 as char);
    r.push(b1 as char);
    r.push(b2 as char);
    r.push(b3 as char);
    assert(r@ =~= code_text(code));
    r
}

/// Decodes a big-endian unsigned integer of the given byte width.
///
/// Widths beyond eight bytes keep the low 64 bits.
pub fn decode_be_uint(bytes: &[u8], size: usize) -> (r: u64)
    requires
        size <= bytes@.len(),
    ensures
        r == be_value(bytes@.take(size as int)) % 0x1_0000_0000_0000_0000,
{
    let mut acc: u64 = 0;
    let mut i: usize = 0;
    while i < size
        invariant
            i <= size,
            size <= bytes@.len(),
            acc == be_value(bytes@.take(i as int)) % 0x1_0000_0000_0000_0000,
        decreases size - i,
    {
        let b: u8 = bytes[i];
        let next: u64 = (acc << 8) | (b as u64);
        proof {
            assert(next == (acc * 0x100 + b) % 0x1_0000_0000_0000_0000) by (bit_vector)
                requires
                    next == (acc << 8) | (b as u64),
            ;
            assert(bytes@.take(i + 1).drop_last() == bytes@.take(i as int));
            lemma_shift_in_byte(be_value(bytes@.take(i as int)) as int, b as int);
        }
        acc = next;
        i = i + 1;
    }
    acc
}

/// Shifting a byte into a 64-bit residue gives the residue of the longer number.
proof fn lemma_shift_in_byte(v: int, b: int)
    ensures
        (v % 0x1_0000_0000_0000_0000 * 0x100 + b) % 0x1_0000_0000_0000_0000 == (v * 0x100 + b)
            % 0x1_0000_0000_0000_0000,
{
    let m: int = 0x1_0000_0000_0000_0000;
    vstd::arithmetic::div_mod::lemma_fundamental_div_mod(v, m);
    vstd::arithmetic::div_mod::lemma_mod_multiples_vanish(v / m * 0x100, v % m * 0x100 + b, m);
    assert(m * (v / m * 0x100) + (v % m * 0x100 + b) == v * 0x100 + b) by (nonlinear_arith)
        requires
            v == m * (v / m) + v % m,
    ;
}

/// The value of two bytes.
pub(crate) proof fn lemma_be_value_2(s: Seq<u8>)
    requires
        s.len() == 2,
    ensures
        be_value(s) == s[0] * 0x100 + s[1],
{
    reveal_with_fuel(be_value, 3);
}

/// The value of four bytes.
pub(crate) proof fn lemma_be_value_4(s: Seq<u8>)
    requires
        s.len() == 4,
    ensures
        be_value(s) == s[0] * 0x1000000 + s[1] * 0x10000 + s[2] * 0x100 + s[3],
{
    reveal_with_fuel(be_value, 5);
}

proof fn lemma_be_value_bound(s: Seq<u8>)
    ensures
        be_value(s) < vstd::arithmetic::power::pow(256, s.len()),
    decreases s.len(),
{
    reveal(vstd::arithmetic::power::pow);
    if s.len() > 0 {
        lemma_be_value_bound(s.drop_last());
    }
}

/// Numbers of up to eight bytes are decoded without loss.
pub proof fn narrow_values_are_exact(s: Seq<u8>)
    requires
        s.len() <= 8,
    ensures
        be_value(s) % 0x1_0000_0000_0000_0000 == be_value(s),
{
    lemma_be_value_bound(s);
    vstd::arithmetic::power::lemma_pow_increases(256, s.len(), 8);
    reveal_with_fuel(vstd::arithmetic::power::pow, 9);
}

/// Of a longer number 64 bits are the value of its last eight bytes.
pub proof fn low_bytes(high: Seq<u8>, low: Seq<u8>)
    requires
        low.len() == 8,
    ensures
        be_value(high + low) % 0x1_0000_0000_0000_0000 == be_value(low),
{
    joined_value(high, low);
    narrow_values_are_exact(low);
    assert(vstd::arithmetic::power::pow(256, 8) == 0x1_0000_0000_0000_0000) by {
        reveal_with_fuel(vstd::arithmetic::power::pow, 9);
    }
    vstd::arithmetic::div_mod::lemma_mod_multiples_vanish(
        be_value(high) as int,
        be_value(low) as int,
        0x1_0000_0000_0000_0000,
    );
}

/// Numbers of up to four bytes fit in 32 bits.
pub proof fn short_values_are_exact(s: Seq<u8>)
    requires
        s.len() <= 4,
    ensures
        be_value(s) % 0x1_0000_0000 == be_value(s),
{
    lemma_be_value_bound(s);
    vstd::arithmetic::power::lemma_pow_increases(256, s.len(), 4);
    reveal_with_fuel(vstd::arithmetic::power::pow, 5);
}

/// Of a longer number 32 bits are the value of its last four bytes.
pub proof fn low_four_bytes(high: Seq<u8>, low: Seq<u8>)
    requires
        low.len() == 4,
    ensures
        be_value(high + low) % 0x1_0000_0000 == be_value(low),
{
    joined_value(high, low);
    short_values_are_exact(low);
    assert(vstd::arithmetic::power::pow(256, 4) == 0x1_0000_0000) by {
        reveal_with_fuel(vstd::arithmetic::power::pow, 5);
    }
    vstd::arithmetic::div_mod::lemma_mod_multiples_vanish(
        be_value(high) as int,
        be_value(low) as int,
        0x1_0000_0000,
    );
}

/// The bytes of a code read big-endian give the code back.
pub proof fn code_bytes_value(code: u32)
    ensures
        be_value(code_bytes(code)) == code,
{
    lemma_be_value_4(code_bytes(code));
}

proof fn lemma_digits(b0: u8, b1: u8, b2: u8, b3: u8, code: u32)
    by (bit_vector)
    requires
        code == b0 * 0x1000000 + b1 * 0x10000 + b2 * 0x100 + b3,
    ensures
        code / 0x1000000 == b0,
        code / 0x10000 % 0x100 == b1,
        code / 0x100 % 0x100 == b2,
        code % 0x100 == b3,
{
}

/// Unpacking what `fourcc` packed from four ASCII characters gives those characters back.
pub proof fn pack_unpack(s: Seq<char>, code: u32)
    requires
        s.len() == 4,
        vstd::utf8::is_ascii_chars(s),
        code == packed(s),
    ensures
        code_text(code) == s,
{
    vstd::utf8::is_ascii_chars_encode_utf8(s);
    let b = vstd::utf8::encode_utf8(s).take(4);
    lemma_be_value_4(b);
    lemma_digits(b[0], b[1], b[2], b[3], code);
    assert(code_bytes(code) =~= b);
    assert(code_text(code) =~= s);
}

/// The UTF-8 form of a string has a byte or more for each character, and no more exactly if all
/// characters are ASCII.
pub proof fn utf8_length(s: Seq<char>)
    ensures
        vstd::utf8::encode_utf8(s).len() >= s.len(),
        vstd::utf8::encode_utf8(s).len() == s.len() <==> vstd::utf8::is_ascii_chars(s),
    decreases s.len(),
{
    if s.len() > 0 {
        let rest = s.drop_first();
        utf8_length(rest);
        lemma_code_point(s[0]);
        if vstd::utf8::is_ascii_chars(s) {
            assert(forall|i: int| 0 <= i < rest.len() ==> #[trigger] rest[i] == s[i + 1]);
            assert(vstd::utf8::is_ascii_chars(rest));
        }
        if vstd::utf8::is_ascii_chars(rest) && s[0] <= '\u{7f}' {
            assert forall|i: int| 0 <= i < s.len() implies '\0' <= #[trigger] s[i]
                <= '\u{7f}' by {
                if i > 0 {
                    assert(s[i] == rest[i - 1]);
                }
            }
        }
    }
}

proof fn lemma_code_point(c: char)
    ensures
        c as u32 as int == c as int,
{
}

/// The characters of a code can name a key exactly if all bytes of the code are ASCII.
pub proof fn ascii_codes_have_names(code: u32)
    ensures
        is_key(code_text(code)) <==> forall|i: int|
            0 <= i < 4 ==> #[trigger] code_bytes(code)[i] < 0x80,
{
    let s = code_text(code);
    utf8_length(s);
    if is_key(s) {
        assert forall|i: int| 0 <= i < 4 implies #[trigger] code_bytes(code)[i] < 0x80 by {
            assert(s[i] <= '\u{7f}');
        }
    }
}

/// Packing the characters that `fourcc_to_string` made of a code gives the code back, if they
/// can name a key.
pub proof fn unpack_pack(code: u32)
    requires
        is_key(code_text(code)),
    ensures
        packed(code_text(code)) == code,
{
    let s = code_text(code);
    utf8_length(s);
    vstd::utf8::is_ascii_chars_encode_utf8(s);
    assert(vstd::utf8::encode_utf8(s).take(4) =~= code_bytes(code));
    code_bytes_value(code);
}

/// Two runs of bytes read as one number: the first counts 256 times for each byte of the second.
pub proof fn joined_value(a: Seq<u8>, b: Seq<u8>)
    ensures
        be_value(a + b) == be_value(a) * vstd::arithmetic::power::pow(256, b.len()) + be_value(b),
    decreases b.len(),
{
    reveal(vstd::arithmetic::power::pow);
    if b.len() == 0 {
        assert(a + b =~= a);
    } else {
        let rest = b.drop_last();
        assert((a + b).drop_last() =~= a + rest);
        joined_value(a, rest);
        let p = vstd::arithmetic::power::pow(256, rest.len());
        assert(vstd::arithmetic::power::pow(256, b.len()) == 256 * p);
        let v = be_value(a) as int;
        assert((v * p) * 256 == v * (256 * p)) by (nonlinear_arith);
    }
}

/// A byte by itself is its own value, and no bytes are zero.
pub proof fn byte_value(b: u8)
    ensures
        be_value(seq![b]) == b,
        be_value(Seq::empty()) == 0,
{
    reveal_with_fuel(be_value, 2);
}

/// A code has four characters below 256, and they are its digits, the first being the most
/// significant.
pub proof fn characters_are_digits(code: u32)
    ensures
        code_text(code).len() == 4,
        forall|i: int| 0 <= i < 4 ==> (#[trigger] code_text(code)[i] as int) < 0x100,
        code_text(code)[0] as int * 0x1000000 + code_text(code)[1] as int * 0x10000 + code_text(
            code,
        )[2] as int * 0x100 + code_text(code)[3] as int == code,
        code_bytes(code).len() == 4,
        code_bytes(code)[0] * 0x1000000 + code_bytes(code)[1] * 0x10000 + code_bytes(code)[2]
            * 0x100 + code_bytes(code)[3] == code,
{
    let s = code_text(code);
    assert(s[0] as int == code / 0x1000000);
    assert(s[1] as int == code / 0x10000 % 0x100);
    assert(s[2] as int == code / 0x100 % 0x100);
    assert(s[3] as int == code % 0x100);
}

/// Different codes have different characters.
pub proof fn characters_tell_codes_apart(a: u32, b: u32)
    requires
        code_text(a) == code_text(b),
    ensures
        a == b,
{
    characters_are_digits(a);
    characters_are_digits(b);
}

/// The code of a string is made of the first four bytes of its UTF-8 form, the first being the
/// most significant.
pub proof fn bytes_are_digits(s: Seq<char>)
    requires
        vstd::utf8::encode_utf8(s).len() >= 4,
    ensures
        ({
            let b = vstd::utf8::encode_utf8(s);
            packed(s) == b[0] * 0x1000000 + b[1] * 0x10000 + b[2] * 0x100 + b[3]
        }),
        packed(s) <= u32::MAX,
{
    lemma_be_value_4(vstd::utf8::encode_utf8(s).take(4));
}

/// The code of four ASCII characters is made of their numbers.
pub proof fn ascii_codes(s: Seq<char>)
    requires
        s.len() == 4,
        vstd::utf8::is_ascii_chars(s),
    ensures
        packed(s) == s[0] as int * 0x1000000 + s[1] as int * 0x10000 + s[2] as int * 0x100
            + s[3] as int,
{
    vstd::utf8::is_ascii_chars_encode_utf8(s);
    bytes_are_digits(s);
}

/// Four bytes of UTF-8 make the name of a key, and four or more can be packed. An ASCII name has
/// four characters; a name with other characters has fewer.
pub proof fn key_names(s: Seq<char>)
    ensures
        is_key(s) <==> vstd::utf8::encode_utf8(s).len() == 4,
        packable(s) <==> vstd::utf8::encode_utf8(s).len() >= 4,
        vstd::utf8::is_ascii_chars(s) ==> (is_key(s) <==> s.len() == 4),
        vstd::utf8::is_ascii_chars(s) ==> (packable(s) <==> s.len() >= 4),
        !vstd::utf8::is_ascii_chars(s) && is_key(s) ==> s.len() < 4,
{
    utf8_length(s);
}

} // verus!
