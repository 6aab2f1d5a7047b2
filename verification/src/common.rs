use vstd::arithmetic::power2::{
    lemma2_to64, lemma_pow2_adds, lemma_pow2_pos, lemma_pow2_strictly_increases, pow2,
};
use vstd::arithmetic::div_mod::{
    lemma_div_pos_is_pos, lemma_fundamental_div_mod, lemma_fundamental_div_mod_converse,
    lemma_mod_bound,
};
use vstd::bits::{lemma_u64_shl_is_mul, lemma_u64_shr_is_div};
use vstd::prelude::*;

verus! {

/// Index of a general-purpose register, `0` to `15`.
pub type Register = u8;

/// A memory address; instructions carry twelve bits of it.
pub type Address = u16;

/// An immediate operand.
pub type Byte = u8;

/// A 16-bit quantity.
pub type DualWord = u16;

/// A four-bit operand.
pub type Nibble = u8;

/// Bit `bit` of `word`. Bits are counted from the least significant.
pub open spec fn bit_of(word: nat, bit: nat) -> nat {
    word / pow2(bit) % 2
}

/// Byte `byte` of `word`. Bytes are counted from the least significant.
pub open spec fn byte_of(word: nat, byte: nat) -> nat {
    word / pow2(8 * byte) % 256
}

/// Weight of nibble `nibble` in a word of `width` bits. Nibbles are counted
/// from the most significant, in the order in which hexadecimal notation
/// writes them.
pub open spec fn nibble_unit(width: nat, nibble: nat) -> nat {
    pow2((width - 4 * (nibble + 1)) as nat)
}

/// Nibble `nibble` of a word of `width` bits.
pub open spec fn nibble_of(word: nat, width: nat, nibble: nat) -> nat {
    word / nibble_unit(width, nibble) % 16
}

/// `word` with its digit of weight `unit`, in base `radix`, replaced by
/// `digit`.
pub open spec fn with_digit(word: nat, unit: nat, radix: nat, digit: nat) -> int {
    word - (word / unit % radix) * unit + digit * unit
}

/// Replacing a digit changes that digit and nothing else: the digit reads
/// back as what was stored, and what lies below and above it in the word is
/// what it was.
pub proof fn lemma_with_digit(word: nat, unit: nat, radix: nat, digit: nat)
    requires
        unit > 0,
        radix > 0,
        digit < radix,
    ensures
        with_digit(word, unit, radix, digit) >= 0,
        with_digit(word, unit, radix, digit) / (unit as int) % (radix as int) == digit,
        with_digit(word, unit, radix, digit) % (unit as int) == word % unit,
        with_digit(word, unit, radix, digit) / (unit as int) / (radix as int) == word / unit
            / radix,
{
    let w = word as int;
    let u = unit as int;
    let r = radix as int;
    let d = digit as int;
    let upper = w / u;
    let below = w % u;
    let above = upper / r;
    let held = upper % r;
    lemma_fundamental_div_mod(w, u);
    lemma_mod_bound(w, u);
    lemma_div_pos_is_pos(w, u);
    lemma_fundamental_div_mod(upper, r);
    lemma_mod_bound(upper, r);
    lemma_div_pos_is_pos(upper, r);
    let replaced = with_digit(word, unit, radix, digit);
    assert(replaced == (above * r + d) * u + below) by (nonlinear_arith)
        requires
            replaced == w - held * u + d * u,
            w == u * upper + below,
            upper == r * above + held,
    ;
    assert((above * r + d) * u >= 0) by (nonlinear_arith)
        requires
            above >= 0,
            r > 0,
            d >= 0,
            u > 0,
    ;
    lemma_fundamental_div_mod_converse(replaced, u, above * r + d, below);
    lemma_fundamental_div_mod_converse(above * r + d, r, above, d);
}

/// Reading a bit, nibble or byte of a fixed-width word.
pub trait BinOps: Sized {
    /// Number of bits in the word.
    spec fn width() -> nat;

    /// The word as a number.
    spec fn value(&self) -> nat;

    /// Bit `bit`, counted from the least significant: 0 or 1.
    fn get_bit(&self, bit: u32) -> (r: u8)
        requires
            bit < Self::width(),
        ensures
            r == bit_of(self.value(), bit as nat),
    ;

    /// Nibble `nibble`, counted from the most significant.
    fn get_nibble(&self, nibble: u8) -> (r: u8)
        requires
            4 * (nibble + 1) <= Self::width(),
        ensures
            r == nibble_of(self.value(), Self::width(), nibble as nat),
    ;

    /// Byte `byte`, counted from the least significant.
    fn get_byte(&self, byte: u8) -> (r: u8)
        requires
            8 * (byte + 1) <= Self::width(),
        ensures
            r == byte_of(self.value(), byte as nat),
    ;
}

/// Replacing a bit, nibble or byte of a fixed-width word; the rest of the
/// word stays.
pub trait BinOpsMut: BinOps {
    /// Makes bit `bit`, counted from the least significant, `value`.
    fn set_bit(&mut self, bit: u32, value: u8)
        requires
            bit < Self::width(),
            value <= 1,
        ensures
            final(self).value() == with_digit(old(self).value(), pow2(bit as nat), 2, value as nat),
    ;

    /// Makes nibble `nibble`, counted from the most significant, `value`.
    fn set_nibble(&mut self, nibble: u8, value: u8)
        requires
            4 * (nibble + 1) <= Self::width(),
            value < 16,
        ensures
            final(self).value() == with_digit(
                old(self).value(),
                nibble_unit(Self::width(), nibble as nat),
                16,
                value as nat,
            ),
    ;

    /// Makes byte `byte`, counted from the least significant, `value`.
    fn set_byte(&mut self, byte: u8, value: u8)
        requires
            8 * (byte + 1) <= Self::width(),
        ensures
            final(self).value() == with_digit(
                old(self).value(),
                pow2(8 * byte as nat),
                256,
                value as nat,
            ),
    ;
}

/// A byte read as a signed number in two's complement.
pub open spec fn signed_byte(byte: nat) -> int {
    if byte >= 0x80 {
        byte - 0x100
    } else {
        byte as int
    }
}

/// The byte that holds a signed number in two's complement.
pub open spec fn unsigned_byte(value: int) -> nat {
    if value < 0 {
        (value + 0x100) as nat
    } else {
        value as nat
    }
}

/// The number that a byte holds in two decimal digits: the byte as a signed
/// number, less one hundred if that is above 99.
pub open spec fn bcd_of(byte: nat) -> int {
    if signed_byte(byte) > 99 {
        signed_byte(byte) - 100
    } else {
        signed_byte(byte)
    }
}

/// The byte that holds `value` in two decimal digits: a negative number is
/// stored one hundred higher.
pub open spec fn bcd_byte(value: int) -> nat {
    if value < 0 {
        unsigned_byte(value + 100)
    } else {
        unsigned_byte(value)
    }
}

/// Reading a byte as a number of two decimal digits.
pub trait BinOpsBCD: BinOps {
    /// The number of two decimal digits that the byte holds.
    fn get_bcd(&self) -> (r: i8)
        requires
            Self::width() == 8,
        ensures
            r == bcd_of(self.value()),
    ;
}

/// Storing a number of two decimal digits in a byte.
pub trait BinOpsBCDMut: BinOps {
    /// Stores `value` as a number of two decimal digits.
    fn set_bcd(&mut self, value: i8)
        requires
            Self::width() == 8,
        ensures
            final(self).value() == bcd_byte(value as int),
    ;
}

/// Whether `mask` selects one bit, one nibble or one byte.
spec fn field_mask(mask: u64) -> bool {
    mask == 1 || mask == 0xF || mask == 0xFF
}

/// Whether `limit` is the largest value of a word of 8, 16, 32 or 64 bits.
spec fn word_limit(limit: u64) -> bool {
    limit == 0xFF || limit == 0xFFFF || limit == 0xFFFF_FFFF || limit == 0xFFFF_FFFF_FFFF_FFFF
}

/// The field that `mask` selects after a right shift by `shift`.
fn field(word: u64, shift: u32, mask: u64) -> (r: u64)
    requires
        shift < 64,
        field_mask(mask),
    ensures
        r == word as nat / pow2(shift as nat) % ((mask + 1) as nat),
        r <= mask,
{
    let moved = word >> shift;
    proof {
        lemma_u64_shr_is_div(word, shift as u64);
        assert(moved & 1 == moved % 2 && moved & 0xF == moved % 16 && moved & 0xFF == moved % 256)
            by (bit_vector);
    }
    moved & mask
}

/// `word` with the field that `mask` selects at `shift` replaced by `value`.
fn with_field(word: u64, shift: u32, mask: u64, value: u64, limit: u64) -> (r: u64)
    requires
        shift < 64,
        field_mask(mask),
        word_limit(limit),
        value <= mask,
        word <= limit,
        (mask + 1) * pow2(shift as nat) <= limit + 1,
    ensures
        r == with_digit(word as nat, pow2(shift as nat), (mask + 1) as nat, value as nat),
        r <= limit,
{
    let ghost unit = pow2(shift as nat);
    let ghost held = (word >> shift) & mask;
    proof {
        lemma_pow2_pos(shift as nat);
        lemma_u64_shr_is_div(limit, shift as u64);
        lemma_u64_shr_is_div(word, shift as u64);
        let moved = word >> shift;
        assert(moved & 1 == moved % 2 && moved & 0xF == moved % 16 && moved & 0xFF == moved % 256)
            by (bit_vector);
        // The field fits below the limit, so no bit is lost by shifting it into place.
        assert(mask * unit <= limit) by (nonlinear_arith)
            requires
                (mask + 1) * unit <= limit + 1,
                unit > 0,
        ;
        assert(held * unit <= mask * unit && value * unit <= mask * unit) by (nonlinear_arith)
            requires
                held <= mask,
                value <= mask,
                unit > 0,
        ;
        lemma_u64_shl_is_mul(mask, shift as u64);
        lemma_u64_shl_is_mul(held, shift as u64);
        lemma_u64_shl_is_mul(value, shift as u64);
        let placed = mask << shift;
        lemma_u64_shr_is_div(placed, shift as u64);
        assert((mask * unit) as nat / unit == mask) by (nonlinear_arith)
            requires
                unit > 0,
        ;
        assert((word & !placed) | (value << shift) == word - (held << shift) + (value << shift)
            && (word & !placed) | (value << shift) <= limit) by (bit_vector)
            requires
                shift < 64,
                mask == 1 || mask == 0xF || mask == 0xFF,
                limit == 0xFF || limit == 0xFFFF || limit == 0xFFFF_FFFF || limit
                    == 0xFFFF_FFFF_FFFF_FFFF,
                value <= mask,
                word <= limit,
                placed == mask << shift,
                placed <= limit,
                placed >> shift == mask,
                held == (word >> shift) & mask,
        ;
    }
    (word & !(mask << shift)) | (value << shift)
}

/// A field of `bits` bits at `shift` lies inside a word of `width` bits.
proof fn lemma_field_fits(shift: nat, bits: nat, width: nat)
    requires
        shift + bits <= width,
    ensures
        pow2(bits) * pow2(shift) <= pow2(width),
{
    lemma_pow2_adds(bits, shift);
    if shift + bits < width {
        lemma_pow2_strictly_increases(shift + bits, width);
    }
}

impl BinOps for u8 {
    open spec fn width() -> nat {
        8
    }

    open spec fn value(&self) -> nat {
        *self as nat
    }

    fn get_bit(&self, bit: u32) -> (r: u8) {
        field(*self as u64, bit, 1) as u8
    }

    fn get_nibble(&self, nibble: u8) -> (r: u8) {
        field(*self as u64, 4 - 4 * (nibble as u32), 0xF) as u8
    }

    fn get_byte(&self, byte: u8) -> (r: u8) {
        field(*self as u64, 8 * (byte as u32), 0xFF) as u8
    }
}

impl BinOpsMut for u8 {
    fn set_bit(&mut self, bit: u32, value: u8) {
        proof {
            lemma_field_fits(bit as nat, 1, 8);
            lemma2_to64();
        }
        *self = with_field(*self as u64, bit, 1, value as u64, 0xFF) as u8;
    }

    fn set_nibble(&mut self, nibble: u8, value: u8) {
        let shift: u32 = 4 - 4 * (nibble as u32);
        proof {
            lemma_field_fits(shift as nat, 4, 8);
            lemma2_to64();
        }
        *self = with_field(*self as u64, shift, 0xF, value as u64, 0xFF) as u8;
    }

    fn set_byte(&mut self, byte: u8, value: u8) {
        let shift: u32 = 8 * (byte as u32);
        proof {
            lemma_field_fits(shift as nat, 8, 8);
            lemma2_to64();
        }
        *self = with_field(*self as u64, shift, 0xFF, value as u64, 0xFF) as u8;
    }
}

impl BinOpsBCD for u8 {
    fn get_bcd(&self) -> (r: i8) {
        let byte = *self;
        let mut value = #[verifier::truncate] (byte as i8);
        assert(value == signed_byte(byte as nat)) by {
            assert(byte as i8 == (if byte >= 0x80 {
                byte - 0x100
            } else {
                byte as int
            })) by (bit_vector);
        }
        if value > 99 {
            value -= 100;
        }
        value
    }
}

impl BinOpsBCDMut for u8 {
    fn set_bcd(&mut self, value: i8) {
        let mut value = value;
        if value < 0 {
            value += 100;
        }
        assert(value as u8 == unsigned_byte(value as int)) by {
            assert(value as u8 == (if value < 0 {
                value + 0x100
            } else {
                value as int
            })) by (bit_vector);
        }
        *self = #[verifier::truncate] (value as u8);
    }
}

impl BinOps for u16 {
    open spec fn width() -> nat {
        16
    }

    open spec fn value(&self) -> nat {
        *self as nat
    }

    fn get_bit(&self, bit: u32) -> (r: u8) {
        field(*self as u64, bit, 1) as u8
    }

    fn get_nibble(&self, nibble: u8) -> (r: u8) {
        field(*self as u64, 12 - 4 * (nibble as u32), 0xF) as u8
    }

    fn get_byte(&self, byte: u8) -> (r: u8) {
        field(*self as u64, 8 * (byte as u32), 0xFF) as u8
    }
}

impl BinOpsMut for u16 {
    fn set_bit(&mut self, bit: u32, value: u8) {
        proof {
            lemma_field_fits(bit as nat, 1, 16);
            lemma2_to64();
        }
        *self = with_field(*self as u64, bit, 1, value as u64, 0xFFFF) as u16;
    }

    fn set_nibble(&mut self, nibble: u8, value: u8) {
        let shift: u32 = 12 - 4 * (nibble as u32);
        proof {
            lemma_field_fits(shift as nat, 4, 16);
            lemma2_to64();
        }
        *self = with_field(*self as u64, shift, 0xF, value as u64, 0xFFFF) as u16;
    }

    fn set_byte(&mut self, byte: u8, value: u8) {
        let shift: u32 = 8 * (byte as u32);
        proof {
            lemma_field_fits(shift as nat, 8, 16);
            lemma2_to64();
        }
        *self = with_field(*self as u64, shift, 0xFF, value as u64, 0xFFFF) as u16;
    }
}

impl BinOps for u32 {
    open spec fn width() -> nat {
        32
    }

    open spec fn value(&self) -> nat {
        *self as nat
    }

    fn get_bit(&self, bit: u32) -> (r: u8) {
        field(*self as u64, bit, 1) as u8
    }

    fn get_nibble(&self, nibble: u8) -> (r: u8) {
        field(*self as u64, 28 - 4 * (nibble as u32), 0xF) as u8
    }

    fn get_byte(&self, byte: u8) -> (r: u8) {
        field(*self as u64, 8 * (byte as u32), 0xFF) as u8
    }
}

impl BinOpsMut for u32 {
    fn set_bit(&mut self, bit: u32, value: u8) {
        proof {
            lemma_field_fits(bit as nat, 1, 32);
            lemma2_to64();
        }
        *self = with_field(*self as u64, bit, 1, value as u64, 0xFFFF_FFFF) as u32;
    }

    fn set_nibble(&mut self, nibble: u8, value: u8) {
        let shift: u32 = 28 - 4 * (nibble as u32);
        proof {
            lemma_field_fits(shift as nat, 4, 32);
            lemma2_to64();
        }
        *self = with_field(*self as u64, shift, 0xF, value as u64, 0xFFFF_FFFF) as u32;
    }

    fn set_byte(&mut self, byte: u8, value: u8) {
        let shift: u32 = 8 * (byte as u32);
        proof {
            lemma_field_fits(shift as nat, 8, 32);
            lemma2_to64();
        }
        *self = with_field(*self as u64, shift, 0xFF, value as u64, 0xFFFF_FFFF) as u32;
    }
}

impl BinOps for u64 {
    open spec fn width() -> nat {
        64
    }

    open spec fn value(&self) -> nat {
        *self as nat
    }

    fn get_bit(&self, bit: u32) -> (r: u8) {
        field(*self, bit, 1) as u8
    }

    fn get_nibble(&self, nibble: u8) -> (r: u8) {
        field(*self, 60 - 4 * (nibble as u32), 0xF) as u8
    }

    fn get_byte(&self, byte: u8) -> (r: u8) {
        field(*self, 8 * (byte as u32), 0xFF) as u8
    }
}

impl BinOpsMut for u64 {
    fn set_bit(&mut self, bit: u32, value: u8) {
        proof {
            lemma_field_fits(bit as nat, 1, 64);
            lemma2_to64();
        }
        *self = with_field(*self, bit, 1, value as u64, 0xFFFF_FFFF_FFFF_FFFF);
    }

    fn set_nibble(&mut self, nibble: u8, value: u8) {
        let shift: u32 = 60 - 4 * (nibble as u32);
        proof {
            lemma_field_fits(shift as nat, 4, 64);
            lemma2_to64();
        }
        *self = with_field(*self, shift, 0xF, value as u64, 0xFFFF_FFFF_FFFF_FFFF);
    }

    fn set_byte(&mut self, byte: u8, value: u8) {
        let shift: u32 = 8 * (byte as u32);
        proof {
            lemma_field_fits(shift as nat, 8, 64);
            lemma2_to64();
        }
        *self = with_field(*self, shift, 0xFF, value as u64, 0xFFFF_FFFF_FFFF_FFFF);
    }
}

impl BinOps for usize {
    open spec fn width() -> nat {
        usize::BITS as nat
    }

    open spec fn value(&self) -> nat {
        *self as nat
    }

    fn get_bit(&self, bit: u32) -> (r: u8) {
        field(*self as u64, bit, 1) as u8
    }

    fn get_nibble(&self, nibble: u8) -> (r: u8) {
        field(*self as u64, (usize::BITS - 4) - 4 * (nibble as u32), 0xF) as u8
    }

    fn get_byte(&self, byte: u8) -> (r: u8) {
        field(*self as u64, 8 * (byte as u32), 0xFF) as u8
    }
}

impl BinOpsMut for usize {
    fn set_bit(&mut self, bit: u32, value: u8) {
        proof {
            lemma_field_fits(bit as nat, 1, usize::BITS as nat);
            lemma2_to64();
        }
        *self = with_field(*self as u64, bit, 1, value as u64, usize::MAX as u64) as usize;
    }

    fn set_nibble(&mut self, nibble: u8, value: u8) {
        let shift: u32 = (usize::BITS - 4) - 4 * (nibble as u32);
        proof {
            lemma_field_fits(shift as nat, 4, usize::BITS as nat);
            lemma2_to64();
        }
        *self = with_field(*self as u64, shift, 0xF, value as u64, usize::MAX as u64) as usize;
    }

    fn set_byte(&mut self, byte: u8, value: u8) {
        let shift: u32 = 8 * (byte as u32);
        proof {
            lemma_field_fits(shift as nat, 8, usize::BITS as nat);
            lemma2_to64();
        }
        *self = with_field(*self as u64, shift, 0xFF, value as u64, usize::MAX as u64) as usize;
    }
}

} // verus!
