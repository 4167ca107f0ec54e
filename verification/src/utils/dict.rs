//! Dictionary types and traits.
//!
//! A dictionary is an ordered list of pairs of a key and a value, both text.
//! Keys may repeat; a lookup finds the first pair with the key. A value can
//! be read as a boolean, an integer or a pointer, by fixed conventions.

use vstd::prelude::*;
use vstd::utf8::encode_utf8;

use super::flags::SPA_DICT_FLAG_SORTED;

verus! {

/// Dictionary flags.
#[derive(Debug, PartialEq, Eq, Clone, Copy, Structural)]
pub struct Flags {
    bits: u32,
}

impl Flags {
    /// The bits of the set.
    pub closed spec fn spec_bits(self) -> u32 {
        self.bits
    }

    /// The set without any flag.
    pub fn empty() -> (r: Self)
        ensures
            r.bits() == 0,
    {
        Flags { bits: 0 }
    }

    /// Dictionary has been sorted.
    pub fn sorted() -> (r: Self)
        ensures
            r.bits() == SPA_DICT_FLAG_SORTED,
    {
        Flags { bits: SPA_DICT_FLAG_SORTED }
    }

    /// The bits of the set.
    #[verifier::when_used_as_spec(spec_bits)]
    pub fn bits(self) -> (r: u32)
        ensures
            r == self.bits(),
    {
        self.bits
    }

    /// The set with exactly the given bits, known or not.
    pub fn from_bits_retain(bits: u32) -> (r: Self)
        ensures
            r.bits() == bits,
    {
        Flags { bits }
    }

    /// Whether every flag of `other` is in `self`.
    pub fn contains(self, other: Self) -> (r: bool)
        ensures
            r <==> self.bits() & other.bits() == other.bits(),
    {
        self.bits & other.bits == other.bits
    }
}

/// The value of a digit in the given radix, if the byte is one: `0` to `9`,
/// then the letters, small or capital, from ten on.
pub open spec fn spec_digit(byte: u8, radix: u32) -> Option<int> {
    let value: int = if 48 <= byte <= 57 {
        byte - 48
    } else if 97 <= byte <= 122 {
        byte - 97 + 10
    } else if 65 <= byte <= 90 {
        byte - 65 + 10
    } else {
        36
    };
    if value < radix {
        Some(value)
    } else {
        None
    }
}

/// Whether every byte is a digit in the given radix.
pub open spec fn spec_all_digits(digits: Seq<u8>, radix: u32) -> bool {
    forall|i: int| 0 <= i < digits.len() ==> spec_digit(#[trigger] digits[i], radix) is Some
}

/// The number that the digits write in the given radix.
pub open spec fn spec_digits_value(digits: Seq<u8>, radix: u32) -> int
    decreases digits.len(),
{
    if digits.len() == 0 {
        0
    } else {
        spec_digits_value(digits.drop_last(), radix) * radix + spec_digit(
            digits.last(),
            radix,
        ).unwrap_or(0)
    }
}

/// The integer that the text writes: a sign or none, and then digits, at
/// least one, and nothing else. A minus sign is only taken where `signed`
/// says so.
pub open spec fn spec_parse_int(text: Seq<u8>, radix: u32, signed: bool) -> Option<int> {
    if text.len() == 0 {
        None
    } else {
        let negative = signed && text[0] == 45;
        let digits = if text[0] == 43 || negative {
            text.skip(1)
        } else {
            text
        };
        if digits.len() == 0 || !spec_all_digits(digits, radix) {
            None
        } else if negative {
            Some(-spec_digits_value(digits, radix))
        } else {
            Some(spec_digits_value(digits, radix))
        }
    }
}

/// The integer that the text writes, if it lies between the two bounds.
pub open spec fn spec_parse_bounded(
    text: Seq<u8>,
    radix: u32,
    signed: bool,
    min: int,
    max: int,
) -> Option<int> {
    match spec_parse_int(text, radix, signed) {
        Some(value) => if min <= value <= max {
            Some(value)
        } else {
            None
        },
        None => None,
    }
}

/// More digits do not write a smaller number.
pub proof fn lemma_digits_value_grows(digits: Seq<u8>, radix: u32, count: int)
    requires
        radix >= 1,
        0 <= count <= digits.len(),
    ensures
        0 <= spec_digits_value(digits.take(count), radix) <= spec_digits_value(digits, radix),
    decreases digits.len() - count,
{
    lemma_digits_value_positive(digits.take(count), radix);
    if count < digits.len() {
        lemma_digits_value_grows(digits, radix, count + 1);
        let longer = digits.take(count + 1);
        assert(longer.drop_last() =~= digits.take(count));
        let shorter = spec_digits_value(digits.take(count), radix);
        crate::arith::lemma_products(1, radix as int, shorter);
        vstd::arithmetic::mul::lemma_mul_is_commutative(shorter, radix as int);
    } else {
        assert(digits.take(count) =~= digits);
    }
}

/// Digits write no negative number.
pub proof fn lemma_digits_value_positive(digits: Seq<u8>, radix: u32)
    ensures
        0 <= spec_digits_value(digits, radix),
    decreases digits.len(),
{
    if digits.len() > 0 {
        lemma_digits_value_positive(digits.drop_last(), radix);
        let shorter = spec_digits_value(digits.drop_last(), radix);
        crate::arith::lemma_products(shorter, 0, radix as int);
    }
}

/// The value of a digit in the given radix, if the byte is one.
pub fn digit(byte: u8, radix: u32) -> (r: Option<u32>)
    ensures
        match spec_digit(byte, radix) {
            Some(value) => r == Some(value as u32),
            None => r is None,
        },
{
    let value: u32 = if 48 <= byte && byte <= 57 {
        (byte - 48) as u32
    } else if 97 <= byte && byte <= 122 {
        (byte - 97) as u32 + 10
    } else if 65 <= byte && byte <= 90 {
        (byte - 65) as u32 + 10
    } else {
        36
    };
    if value < radix {
        Some(value)
    } else {
        None
    }
}

/// One more digit writes ten times the number, or as many times as the
/// radix says, and the digit.
pub proof fn lemma_digits_step(digits: Seq<u8>, radix: u32, count: int)
    requires
        0 <= count < digits.len(),
        spec_all_digits(digits.take(count), radix),
        spec_digit(digits[count], radix) is Some,
    ensures
        spec_all_digits(digits.take(count + 1), radix),
        spec_digits_value(digits.take(count + 1), radix) == spec_digits_value(
            digits.take(count),
            radix,
        ) * radix + spec_digit(digits[count], radix)->0,
{
    let before = digits.take(count);
    let longer = digits.take(count + 1);
    assert(longer.drop_last() =~= before);
    assert(longer.last() == digits[count]);
    assert forall|j: int| 0 <= j < longer.len() implies spec_digit(
        #[trigger] longer[j],
        radix,
    ) is Some by {
        if j < count {
            assert(longer[j] == before[j]);
        }
    }
}

/// Reads an integer from text, if the text writes one that lies between
/// `-below` and `above`. Returns whether it is negative, and how far it is
/// from zero.
pub fn parse_bounded(bytes: &[u8], radix: u32, signed: bool, below: u128, above: u128) -> (r:
    Option<(bool, u128)>)
    requires
        2 <= radix <= 36,
    ensures
        match spec_parse_bounded(bytes@, radix, signed, -(below as int), above as int) {
            Some(value) => r == Some((value < 0, (if value < 0 {
                -value
            } else {
                value
            }) as u128)),
            None => r is None,
        },
{
    let len = bytes.len();
    if len == 0 {
        return None;
    }
    let negative = signed && bytes[0] == 45;
    let start: usize = if bytes[0] == 43 || negative {
        1
    } else {
        0
    };
    if start == len {
        return None;
    }
    let limit = if negative {
        below
    } else {
        above
    };
    let ghost digits = bytes@.skip(start as int);
    let ghost wanted = spec_parse_bounded(bytes@, radix, signed, -(below as int), above as int);
    let mut magnitude: u128 = 0;
    let mut i: usize = start;
    proof {
        assert(digits.take(0) =~= Seq::<u8>::empty());
        assert(bytes@.skip(0) =~= bytes@);
        lemma_digits_value_positive(digits, radix);
    }
    while i < len
        invariant
            start <= i <= len,
            len == bytes@.len(),
            2 <= radix <= 36,
            digits == bytes@.skip(start as int),
            spec_all_digits(digits.take(i - start), radix),
            magnitude == spec_digits_value(digits.take(i - start), radix),
            magnitude <= limit,
            wanted == spec_parse_bounded(bytes@, radix, signed, -(below as int), above as int),
            wanted == if !spec_all_digits(digits, radix) || spec_digits_value(digits, radix)
                > limit {
                None
            } else if negative {
                Some(-spec_digits_value(digits, radix))
            } else {
                Some(spec_digits_value(digits, radix))
            },
        decreases len - i,
    {
        let value = match digit(bytes[i], radix) {
            Some(value) => value as u128,
            None => {
                proof {
                    assert(digits[i - start] == bytes@[i as int]);
                }
                return None;
            },
        };
        proof {
            assert(digits[i - start] == bytes@[i as int]);
            lemma_digits_step(digits, radix, i - start);
            lemma_digits_value_grows(digits, radix, i - start + 1);
            if value <= limit {
                crate::arith::lemma_quotient_bounds(limit - value, radix as int, magnitude as int);
            } else {
                crate::arith::lemma_products(magnitude as int, 0, radix as int);
            }
        }
        if value > limit || magnitude > (limit - value) / (radix as u128) {
            return None;
        }
        magnitude = magnitude * radix as u128 + value;
        i += 1;
    }
    proof {
        assert(digits.take(len - start) =~= digits);
    }
    Some((negative && magnitude > 0, magnitude))
}

/// The integer that is `distance` away from zero, below it if `negative`.
fn signed_of(negative: bool, distance: u128) -> (r: i128)
    requires
        negative ==> distance <= 0x8000_0000_0000_0000_0000_0000_0000_0000,
        !negative ==> distance <= i128::MAX,
    ensures
        r == if negative {
            -(distance as int)
        } else {
            distance as int
        },
{
    if !negative {
        distance as i128
    } else if distance == 0x8000_0000_0000_0000_0000_0000_0000_0000u128 {
        i128::MIN
    } else {
        -(distance as i128)
    }
}

/// An error raised by [`DictRef::parse`] if the value cannot be converted to
/// the requested type.
#[derive(Debug, Eq, PartialEq)]
pub struct ParseValueError {
    value: String,
    wanted: &'static str,
}

impl ParseValueError {
    /// The value that could not be parsed.
    pub closed spec fn spec_value(&self) -> Seq<char> {
        self.value@
    }

    /// The name of the type that was asked for.
    pub closed spec fn spec_wanted(&self) -> Seq<char> {
        self.wanted@
    }

    /// The value that could not be parsed.
    pub fn value(&self) -> (r: &str)
        ensures
            r@ == self.spec_value(),
    {
        self.value.as_str()
    }

    /// The name of the type that was asked for.
    pub fn wanted(&self) -> (r: &'static str)
        ensures
            r@ == self.spec_wanted(),
    {
        self.wanted
    }
}

/// Trait implemented on types which can be returned by [`DictRef::parse`].
pub trait ParsableValue: Sized {
    /// Whether `r` is what comes of parsing the bytes of a text: the value
    /// that they write, if they write one. An implementor that does not say
    /// is taken to read anything from them.
    open spec fn spec_parses(text: Seq<u8>, r: Option<Self>) -> bool {
        true
    }

    /// Try parsing `value` to convert it to the requested type.
    fn parse_value(value: &str) -> (r: Option<Self>)
        ensures
            Self::spec_parses(encode_utf8(value@), r),
    ;

    /// Whether `name` is the name of the type. An implementor that does not
    /// say is taken to go by any name.
    open spec fn spec_named(name: Seq<char>) -> bool {
        true
    }

    /// The name of the type, which an error names for what was wanted.
    fn wanted() -> (r: &'static str)
        ensures
            Self::spec_named(r@),
    ;
}

/// The bytes of the text `true`.
pub open spec fn spec_true() -> Seq<u8> {
    seq![116u8, 114u8, 117u8, 101u8]
}

impl ParsableValue for bool {
    /// `true` is true, and so is text that writes the integer 1. All other
    /// text is false.
    open spec fn spec_parses(text: Seq<u8>, r: Option<Self>) -> bool {
        r == (
            Some(
                text == spec_true() || spec_parse_bounded(
                    text,
                    10,
                    true,
                    i32::MIN as int,
                    i32::MAX as int,
                ) == Some(1int),
            )
        )
    }

    fn parse_value(value: &str) -> (r: Option<Self>) {
        let bytes = value.as_bytes();
        if bytes.len() == 4 && bytes[0] == 116 && bytes[1] == 114 && bytes[2] == 117 && bytes[3]
            == 101 {
            assert(bytes@ =~= spec_true());
            Some(true)
        } else {
            match parse_bounded(bytes, 10, true, 0x8000_0000, 0x7fff_ffff) {
                Some((negative, distance)) => Some(!negative && distance == 1),
                None => Some(false),
            }
        }
    }

    open spec fn spec_named(name: Seq<char>) -> bool {
        name == "bool"@
    }

    fn wanted() -> (r: &'static str) {
        "bool"
    }
}

impl ParsableValue for i8 {
    /// The integer that the text writes in decimal, if it is one of the type.
    open spec fn spec_parses(text: Seq<u8>, r: Option<Self>) -> bool {
        r == (
            match spec_parse_bounded(text, 10, true, i8::MIN as int, i8::MAX as int) {
                Some(value) => Some(value as i8),
                None => None,
            }
        )
    }

    fn parse_value(value: &str) -> (r: Option<Self>) {
        match parse_bounded(value.as_bytes(), 10, true, 0x80, 0x7f) {
            Some((negative, distance)) => Some(signed_of(negative, distance) as i8),
            None => None,
        }
    }

    open spec fn spec_named(name: Seq<char>) -> bool {
        name == "i8"@
    }

    fn wanted() -> (r: &'static str) {
        "i8"
    }
}

impl ParsableValue for i16 {
    /// The integer that the text writes in decimal, if it is one of the type.
    open spec fn spec_parses(text: Seq<u8>, r: Option<Self>) -> bool {
        r == (
            match spec_parse_bounded(text, 10, true, i16::MIN as int, i16::MAX as int) {
                Some(value) => Some(value as i16),
                None => None,
            }
        )
    }

    fn parse_value(value: &str) -> (r: Option<Self>) {
        match parse_bounded(value.as_bytes(), 10, true, 0x8000, 0x7fff) {
            Some((negative, distance)) => Some(signed_of(negative, distance) as i16),
            None => None,
        }
    }

    open spec fn spec_named(name: Seq<char>) -> bool {
        name == "i16"@
    }

    fn wanted() -> (r: &'static str) {
        "i16"
    }
}

impl ParsableValue for i32 {
    /// The integer that the text writes in decimal, if it is one of the type.
    open spec fn spec_parses(text: Seq<u8>, r: Option<Self>) -> bool {
        r == (
            match spec_parse_bounded(text, 10, true, i32::MIN as int, i32::MAX as int) {
                Some(value) => Some(value as i32),
                None => None,
            }
        )
    }

    fn parse_value(value: &str) -> (r: Option<Self>) {
        match parse_bounded(value.as_bytes(), 10, true, 0x8000_0000, 0x7fff_ffff) {
            Some((negative, distance)) => Some(signed_of(negative, distance) as i32),
            None => None,
        }
    }

    open spec fn spec_named(name: Seq<char>) -> bool {
        name == "i32"@
    }

    fn wanted() -> (r: &'static str) {
        "i32"
    }
}

impl ParsableValue for i64 {
    /// The integer that the text writes in decimal, if it is one of the type.
    open spec fn spec_parses(text: Seq<u8>, r: Option<Self>) -> bool {
        r == (
            match spec_parse_bounded(text, 10, true, i64::MIN as int, i64::MAX as int) {
                Some(value) => Some(value as i64),
                None => None,
            }
        )
    }

    fn parse_value(value: &str) -> (r: Option<Self>) {
        match parse_bounded(value.as_bytes(), 10, true, 0x8000_0000_0000_0000, 0x7fff_ffff_ffff_ffff) {
            Some((negative, distance)) => Some(signed_of(negative, distance) as i64),
            None => None,
        }
    }

    open spec fn spec_named(name: Seq<char>) -> bool {
        name == "i64"@
    }

    fn wanted() -> (r: &'static str) {
        "i64"
    }
}

impl ParsableValue for i128 {
    /// The integer that the text writes in decimal, if it is one of the type.
    open spec fn spec_parses(text: Seq<u8>, r: Option<Self>) -> bool {
        r == (
            match spec_parse_bounded(text, 10, true, i128::MIN as int, i128::MAX as int) {
                Some(value) => Some(value as i128),
                None => None,
            }
        )
    }

    fn parse_value(value: &str) -> (r: Option<Self>) {
        match parse_bounded(value.as_bytes(), 10, true, 0x8000_0000_0000_0000_0000_0000_0000_0000, 0x7fff_ffff_ffff_ffff_ffff_ffff_ffff_ffff) {
            Some((negative, distance)) => Some(signed_of(negative, distance) as i128),
            None => None,
        }
    }

    open spec fn spec_named(name: Seq<char>) -> bool {
        name == "i128"@
    }

    fn wanted() -> (r: &'static str) {
        "i128"
    }
}

impl ParsableValue for u8 {
    /// The integer that the text writes in decimal, if it is one of the type.
    open spec fn spec_parses(text: Seq<u8>, r: Option<Self>) -> bool {
        r == (
            match spec_parse_bounded(text, 10, false, 0, u8::MAX as int) {
                Some(value) => Some(value as u8),
                None => None,
            }
        )
    }

    fn parse_value(value: &str) -> (r: Option<Self>) {
        match parse_bounded(value.as_bytes(), 10, false, 0, 0xff) {
            Some((negative, distance)) => Some(distance as u8),
            None => None,
        }
    }

    open spec fn spec_named(name: Seq<char>) -> bool {
        name == "u8"@
    }

    fn wanted() -> (r: &'static str) {
        "u8"
    }
}

impl ParsableValue for u16 {
    /// The integer that the text writes in decimal, if it is one of the type.
    open spec fn spec_parses(text: Seq<u8>, r: Option<Self>) -> bool {
        r == (
            match spec_parse_bounded(text, 10, false, 0, u16::MAX as int) {
                Some(value) => Some(value as u16),
                None => None,
            }
        )
    }

    fn parse_value(value: &str) -> (r: Option<Self>) {
        match parse_bounded(value.as_bytes(), 10, false, 0, 0xffff) {
            Some((negative, distance)) => Some(distance as u16),
            None => None,
        }
    }

    open spec fn spec_named(name: Seq<char>) -> bool {
        name == "u16"@
    }

    fn wanted() -> (r: &'static str) {
        "u16"
    }
}

impl ParsableValue for u32 {
    /// The integer that the text writes in decimal, if it is one of the type.
    open spec fn spec_parses(text: Seq<u8>, r: Option<Self>) -> bool {
        r == (
            match spec_parse_bounded(text, 10, false, 0, u32::MAX as int) {
                Some(value) => Some(value as u32),
                None => None,
            }
        )
    }

    fn parse_value(value: &str) -> (r: Option<Self>) {
        match parse_bounded(value.as_bytes(), 10, false, 0, 0xffff_ffff) {
            Some((negative, distance)) => Some(distance as u32),
            None => None,
        }
    }

    open spec fn spec_named(name: Seq<char>) -> bool {
        name == "u32"@
    }

    fn wanted() -> (r: &'static str) {
        "u32"
    }
}

impl ParsableValue for u64 {
    /// The integer that the text writes in decimal, if it is one of the type.
    open spec fn spec_parses(text: Seq<u8>, r: Option<Self>) -> bool {
        r == (
            match spec_parse_bounded(text, 10, false, 0, u64::MAX as int) {
                Some(value) => Some(value as u64),
                None => None,
            }
        )
    }

    fn parse_value(value: &str) -> (r: Option<Self>) {
        match parse_bounded(value.as_bytes(), 10, false, 0, 0xffff_ffff_ffff_ffff) {
            Some((negative, distance)) => Some(distance as u64),
            None => None,
        }
    }

    open spec fn spec_named(name: Seq<char>) -> bool {
        name == "u64"@
    }

    fn wanted() -> (r: &'static str) {
        "u64"
    }
}

impl ParsableValue for u128 {
    /// The integer that the text writes in decimal, if it is one of the type.
    open spec fn spec_parses(text: Seq<u8>, r: Option<Self>) -> bool {
        r == (
            match spec_parse_bounded(text, 10, false, 0, u128::MAX as int) {
                Some(value) => Some(value as u128),
                None => None,
            }
        )
    }

    fn parse_value(value: &str) -> (r: Option<Self>) {
        match parse_bounded(value.as_bytes(), 10, false, 0, 0xffff_ffff_ffff_ffff_ffff_ffff_ffff_ffff) {
            Some((negative, distance)) => Some(distance as u128),
            None => None,
        }
    }

    open spec fn spec_named(name: Seq<char>) -> bool {
        name == "u128"@
    }

    fn wanted() -> (r: &'static str) {
        "u128"
    }
}

impl ParsableValue for isize {
    /// The integer that the text writes in decimal, if it is one of the type.
    open spec fn spec_parses(text: Seq<u8>, r: Option<Self>) -> bool {
        r == (
            match spec_parse_bounded(text, 10, true, isize::MIN as int, isize::MAX as int) {
                Some(value) => Some(value as isize),
                None => None,
            }
        )
    }

    fn parse_value(value: &str) -> (r: Option<Self>) {
        match parse_bounded(
            value.as_bytes(),
            10,
            true,
            isize::MAX as u128 + 1,
            isize::MAX as u128,
        ) {
            Some((negative, distance)) => Some(signed_of(negative, distance) as isize),
            None => None,
        }
    }

    open spec fn spec_named(name: Seq<char>) -> bool {
        name == "isize"@
    }

    fn wanted() -> (r: &'static str) {
        "isize"
    }
}

impl ParsableValue for usize {
    /// The integer that the text writes in decimal, if it is one of the type.
    open spec fn spec_parses(text: Seq<u8>, r: Option<Self>) -> bool {
        r == (
            match spec_parse_bounded(text, 10, false, 0, usize::MAX as int) {
                Some(value) => Some(value as usize),
                None => None,
            }
        )
    }

    fn parse_value(value: &str) -> (r: Option<Self>) {
        match parse_bounded(value.as_bytes(), 10, false, 0, usize::MAX as u128) {
            Some((negative, distance)) => Some(distance as usize),
            None => None,
        }
    }

    open spec fn spec_named(name: Seq<char>) -> bool {
        name == "usize"@
    }

    fn wanted() -> (r: &'static str) {
        "usize"
    }
}

/// The address that a dictionary value holds.
#[derive(Debug, Copy, Clone, Eq, PartialEq, Structural)]
pub struct Pointer(pub usize);

/// The bytes of the text `pointer:0x`, with which the text of a pointer begins.
pub open spec fn spec_pointer_prefix() -> Seq<u8> {
    seq![112u8, 111u8, 105u8, 110u8, 116u8, 101u8, 114u8, 58u8, 48u8, 120u8]
}

impl ParsableValue for Pointer {
    /// The address that follows `pointer:0x` in hexadecimal.
    open spec fn spec_parses(text: Seq<u8>, r: Option<Self>) -> bool {
        r == (
            if text.len() >= 10 && text.take(10) == spec_pointer_prefix() {
                match spec_parse_bounded(text.skip(10), 16, false, 0, usize::MAX as int) {
                    Some(value) => Some(Pointer(value as usize)),
                    None => None,
                }
            } else {
                None
            }
        )
    }

    fn parse_value(value: &str) -> (r: Option<Self>) {
        let bytes = value.as_bytes();
        let len = bytes.len();
        if len >= 10 && bytes[0] == 112 && bytes[1] == 111 && bytes[2] == 105 && bytes[3] == 110
            && bytes[4] == 116 && bytes[5] == 101 && bytes[6] == 114 && bytes[7] == 58 && bytes[8]
            == 48 && bytes[9] == 120 {
            assert(bytes@.take(10) =~= spec_pointer_prefix());
            let digits = vstd::slice::slice_subrange(bytes, 10, len);
            assert(digits@ =~= bytes@.skip(10));
            match parse_bounded(digits, 16, false, 0, usize::MAX as u128) {
                Some((negative, distance)) => Some(Pointer(distance as usize)),
                None => None,
            }
        } else {
            proof {
                if bytes@.len() >= 10 && bytes@.take(10) == spec_pointer_prefix() {
                    assert(bytes@.take(10)[0] == bytes@[0]);
                    assert(bytes@.take(10)[1] == bytes@[1]);
                    assert(bytes@.take(10)[2] == bytes@[2]);
                    assert(bytes@.take(10)[3] == bytes@[3]);
                    assert(bytes@.take(10)[4] == bytes@[4]);
                    assert(bytes@.take(10)[5] == bytes@[5]);
                    assert(bytes@.take(10)[6] == bytes@[6]);
                    assert(bytes@.take(10)[7] == bytes@[7]);
                    assert(bytes@.take(10)[8] == bytes@[8]);
                    assert(bytes@.take(10)[9] == bytes@[9]);
                }
            }
            None
        }
    }

    open spec fn spec_named(name: Seq<char>) -> bool {
        name == "pointer"@
    }

    fn wanted() -> (r: &'static str) {
        "pointer"
    }
}

/// Whether two slices hold the same bytes.
pub fn bytes_eq(a: &[u8], b: &[u8]) -> (r: bool)
    ensures
        r <==> a@ == b@,
{
    if a.len() != b.len() {
        return false;
    }
    let mut i: usize = 0;
    while i < a.len()
        invariant
            i <= a@.len(),
            a@.len() == b@.len(),
            forall|j: int| 0 <= j < i ==> a@[j] == b@[j],
        decreases a@.len() - i,
    {
        if a[i] != b[i] {
            return false;
        }
        i += 1;
    }
    assert(a@ =~= b@);
    true
}

/// Whether two texts are the same.
pub fn str_eq(a: &str, b: &str) -> (r: bool)
    ensures
        r <==> a@ == b@,
{
    proof {
        vstd::utf8::encode_utf8_decode_utf8(a@);
        vstd::utf8::encode_utf8_decode_utf8(b@);
    }
    bytes_eq(a.as_bytes(), b.as_bytes())
}

/// The value of the first pair with the given key, if there is one.
pub open spec fn spec_get(entries: Seq<(Seq<char>, Seq<char>)>, key: Seq<char>) -> Option<
    Seq<char>,
>
    decreases entries.len(),
{
    if entries.len() == 0 {
        None
    } else if entries[0].0 == key {
        Some(entries[0].1)
    } else {
        spec_get(entries.skip(1), key)
    }
}

/// A dictionary: pairs of a key and a value in their order, and flags.
pub struct DictRef {
    flags: Flags,
    items: Vec<(String, String)>,
}

impl View for DictRef {
    type V = Seq<(Seq<char>, Seq<char>)>;

    closed spec fn view(&self) -> Seq<(Seq<char>, Seq<char>)> {
        Seq::new(self.items@.len(), |i: int| (self.items@[i].0@, self.items@[i].1@))
    }
}

/// What [`DictRef::parse`] returns for the value that was found for a key.
pub open spec fn spec_parsed<T: ParsableValue>(
    found: Option<Seq<char>>,
    r: Option<Result<T, ParseValueError>>,
) -> bool {
    match found {
        None => r is None,
        Some(value) => match r {
            Some(Ok(parsed)) => T::spec_parses(encode_utf8(value), Some(parsed)),
            Some(Err(e)) => T::spec_parses(encode_utf8(value), None) && e.spec_value() == value
                && T::spec_named(e.spec_wanted()),
            None => false,
        },
    }
}

impl DictRef {
    /// The bits of the flags.
    pub closed spec fn spec_flags(&self) -> Flags {
        self.flags
    }

    /// A dictionary of the given pairs.
    pub fn new(flags: Flags, items: Vec<(String, String)>) -> (r: Self)
        ensures
            r.spec_flags() == flags,
            r@.len() == items@.len(),
            forall|i: int|
                0 <= i < items@.len() ==> (#[trigger] r@[i]) == (items@[i].0@, items@[i].1@),
    {
        DictRef { flags, items }
    }

    /// Returns the number of key-value-pairs in the dict.
    pub fn len(&self) -> (r: usize)
        ensures
            r == self@.len(),
    {
        self.items.len()
    }

    /// Returns `true` if the dict is empty, `false` if it is not.
    pub fn is_empty(&self) -> (r: bool)
        ensures
            r <==> self@.len() == 0,
    {
        self.items.len() == 0
    }

    /// Returns the bitflags that are set for the dict.
    pub fn flags(&self) -> (r: Flags)
        ensures
            r == self.spec_flags(),
    {
        self.flags
    }

    /// The pair at the given place.
    pub fn item(&self, index: usize) -> (r: (&str, &str))
        requires
            index < self@.len(),
        ensures
            (r.0@, r.1@) == self@[index as int],
    {
        (self.items[index].0.as_str(), self.items[index].1.as_str())
    }

    /// All pairs, in their order.
    pub fn iter(&self) -> (r: Vec<(&str, &str)>)
        ensures
            r@.len() == self@.len(),
            forall|i: int| 0 <= i < r@.len() ==> (r@[i].0@, r@[i].1@) == #[trigger] self@[i],
    {
        let mut out: Vec<(&str, &str)> = Vec::new();
        let mut i: usize = 0;
        while i < self.items.len()
            invariant
                i <= self.items@.len(),
                out@.len() == i,
                forall|j: int| 0 <= j < i ==> (out@[j].0@, out@[j].1@) == #[trigger] self@[j],
            decreases self.items@.len() - i,
        {
            out.push(self.item(i));
            i += 1;
        }
        out
    }

    /// All keys, in their order.
    pub fn keys(&self) -> (r: Vec<&str>)
        ensures
            r@.len() == self@.len(),
            forall|i: int| 0 <= i < r@.len() ==> (#[trigger] r@[i])@ == self@[i].0,
    {
        let mut out: Vec<&str> = Vec::new();
        let mut i: usize = 0;
        while i < self.items.len()
            invariant
                i <= self.items@.len(),
                out@.len() == i,
                forall|j: int| 0 <= j < i ==> (#[trigger] out@[j])@ == self@[j].0,
            decreases self.items@.len() - i,
        {
            out.push(self.item(i).0);
            i += 1;
        }
        out
    }

    /// All values, in their order.
    pub fn values(&self) -> (r: Vec<&str>)
        ensures
            r@.len() == self@.len(),
            forall|i: int| 0 <= i < r@.len() ==> (#[trigger] r@[i])@ == self@[i].1,
    {
        let mut out: Vec<&str> = Vec::new();
        let mut i: usize = 0;
        while i < self.items.len()
            invariant
                i <= self.items@.len(),
                out@.len() == i,
                forall|j: int| 0 <= j < i ==> (#[trigger] out@[j])@ == self@[j].1,
            decreases self.items@.len() - i,
        {
            out.push(self.item(i).1);
            i += 1;
        }
        out
    }

    /// Get the value associated with the provided key: that of the first
    /// pair with the key.
    ///
    /// If the dict does not contain the key, `None` is returned.
    pub fn get(&self, key: &str) -> (r: Option<&str>)
        ensures
            match spec_get(self@, key@) {
                Some(value) => r is Some && r->0@ == value,
                None => r is None,
            },
    {
        let mut i: usize = 0;
        proof {
            assert(self@.skip(0) =~= self@);
        }
        while i < self.items.len()
            invariant
                i <= self.items@.len(),
                self.items@.len() == self@.len(),
                spec_get(self@, key@) == spec_get(self@.skip(i as int), key@),
            decreases self.items@.len() - i,
        {
            let (k, v) = self.item(i);
            proof {
                assert(self@.skip(i as int)[0] == self@[i as int]);
                assert(self@.skip(i as int).skip(1) =~= self@.skip(i + 1));
            }
            if str_eq(k, key) {
                return Some(v);
            }
            i += 1;
        }
        None
    }

    /// Get the value associated with the provided key and convert it to a
    /// given type.
    ///
    /// If the dict does not contain the key, `None` is returned.
    ///
    /// If the value associated with the key cannot be parsed to the requested
    /// type, `Some(Err(ParseValueError))` is returned.
    pub fn parse<T: ParsableValue>(&self, key: &str) -> (r: Option<Result<T, ParseValueError>>)
        ensures
            spec_parsed(spec_get(self@, key@), r),
    {
        match self.get(key) {
            None => None,
            Some(value) => match T::parse_value(value) {
                Some(parsed) => Some(Ok(parsed)),
                None => Some(
                    Err(ParseValueError { value: value.to_owned(), wanted: T::wanted() }),
                ),
            },
        }
    }
}

} // verus!
