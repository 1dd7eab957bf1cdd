//! Width-aware arithmetic on inclusive bit ranges.
use vstd::arithmetic::div_mod::{lemma_div_denominator, lemma_small_mod};
use vstd::arithmetic::power2::{lemma2_to64_rest, lemma_pow2_adds, lemma_pow2_pos, pow2};
use vstd::prelude::*;
use vstd::bits::{
    lemma_u64_low_bits_mask_is_mod, lemma_u64_pow2_no_overflow, lemma_u64_shl_is_mul,
    lemma_u64_shr_is_div,
};

verus! {

/// The value whose low `w` bits are ones and all other bits zero (all ones when `w >= 64`).
pub open spec fn low_ones(w: u64) -> u64 {
    if w >= 64 {
        0xffff_ffff_ffff_ffffu64
    } else {
        ((1u64 << w) - 1) as u64
    }
}

/// Number of bits in the inclusive range `[low, high]`.
pub open spec fn range_width(low: u64, high: u64) -> u64 {
    (high - low + 1) as u64
}

/// Bits `[low, high]` of `x`, moved down to bit 0 and zero-extended.
pub open spec fn bits_of(x: u64, low: u64, high: u64) -> u64 {
    (x >> low) & low_ones(range_width(low, high))
}

/// `x` with bits `[low, high]` replaced by the low `high - low + 1` bits of `v`; every other bit
/// of `x` is kept.
pub open spec fn with_bits(x: u64, low: u64, high: u64, v: u64) -> u64 {
    (x & !(low_ones(range_width(low, high)) << low)) | ((v & low_ones(range_width(low, high))) << low)
}

/// A fixed-width unsigned integer that can hold bit fields.
pub trait BitContainer: Copy + Sized {
    /// Number of bits in the type.
    spec fn bits() -> u64;

    /// The value, zero-extended to 64 bits.
    spec fn wide(self) -> u64;

    /// A value holds no bit at or above `bits()`.
    proof fn lemma_fits(self)
        ensures
            8 <= Self::bits() <= 64,
            self.wide() & low_ones(Self::bits()) == self.wide(),
    ;

    /// Two values with the same zero-extension are the same value.
    proof fn lemma_wide_injective(a: Self, b: Self)
        ensures
            a.wide() == b.wide() ==> a == b,
    ;

    /// Number of bits in the type.
    fn width() -> (r: u64)
        ensures
            r == Self::bits(),
    ;

    /// The value, zero-extended to 64 bits.
    fn to_wide(self) -> (r: u64)
        ensures
            r == self.wide(),
    ;

    /// Bits `[low, high]` of `self`, right-aligned. Computed with two shifts (up past `high`,
    /// then down past `low`), which stays defined for a range as wide as the type.
    fn extract_range(self, low: usize, high: usize) -> (r: Self)
        requires
            low <= high < Self::bits(),
        ensures
            r.wide() == bits_of(self.wide(), low as u64, high as u64),
    ;

    /// `self` with bits `[low, high]` replaced by the low bits of `new`.
    fn insert_range(self, low: usize, high: usize, new: Self) -> (r: Self)
        requires
            low <= high < Self::bits(),
        ensures
            r.wide() == with_bits(self.wide(), low as u64, high as u64, new.wide()),
    ;
}

proof fn lemma_u8_extract(x: u8, l: u32, h: u32)
    by (bit_vector)
    requires
        l <= h < 8,
    ensures
        ((x << ((7 - h) as u32)) >> ((7 - h + l) as u32)) as u64 == bits_of(x as u64, l as u64, h as u64),
{
}

impl BitContainer for u8 {
    open spec fn bits() -> u64 {
        8
    }

    fn width() -> (r: u64) {
        8
    }

    open spec fn wide(self) -> u64 {
        self as u64
    }

    proof fn lemma_fits(self) {
        assert((self as u64) & low_ones(8) == self as u64) by (bit_vector);
    }

    proof fn lemma_wide_injective(a: Self, b: Self) {
    }

    fn to_wide(self) -> (r: u64) {
        self as u64
    }

    fn extract_range(self, low: usize, high: usize) -> (r: Self) {
        let l = low as u32;
        let h = high as u32;
        proof {
            lemma_u8_extract(self, l, h);
        }
        (self << (7 - h)) >> (7 - h + l)
    }

    fn insert_range(self, low: usize, high: usize, new: Self) -> (r: Self) {
        let l = low as u32;
        let h = high as u32;
        let old_field = self.extract_range(low, high);
        let new_field = new.extract_range(0, high - low);
        proof {
            lemma_u8_insert(self, new, l, h, old_field, new_field);
        }
        (self ^ (old_field << l)) | (new_field << l)
    }
}

proof fn lemma_u8_insert(x: u8, v: u8, l: u32, h: u32, f: u8, g: u8)
    by (bit_vector)
    requires
        l <= h < 8,
        f as u64 == bits_of(x as u64, l as u64, h as u64),
        g as u64 == bits_of(v as u64, 0, (h - l) as u64),
    ensures
        ((x ^ (f << l)) | (g << l)) as u64 == with_bits(x as u64, l as u64, h as u64, v as u64),
{
}

proof fn lemma_u16_extract(x: u16, l: u32, h: u32)
    by (bit_vector)
    requires
        l <= h < 16,
    ensures
        ((x << ((15 - h) as u32)) >> ((15 - h + l) as u32)) as u64 == bits_of(x as u64, l as u64, h as u64),
{
}

impl BitContainer for u16 {
    open spec fn bits() -> u64 {
        16
    }

    fn width() -> (r: u64) {
        16
    }

    open spec fn wide(self) -> u64 {
        self as u64
    }

    proof fn lemma_fits(self) {
        assert((self as u64) & low_ones(16) == self as u64) by (bit_vector);
    }

    proof fn lemma_wide_injective(a: Self, b: Self) {
    }

    fn to_wide(self) -> (r: u64) {
        self as u64
    }

    fn extract_range(self, low: usize, high: usize) -> (r: Self) {
        let l = low as u32;
        let h = high as u32;
        proof {
            lemma_u16_extract(self, l, h);
        }
        (self << (15 - h)) >> (15 - h + l)
    }

    fn insert_range(self, low: usize, high: usize, new: Self) -> (r: Self) {
        let l = low as u32;
        let h = high as u32;
        let old_field = self.extract_range(low, high);
        let new_field = new.extract_range(0, high - low);
        proof {
            lemma_u16_insert(self, new, l, h, old_field, new_field);
        }
        (self ^ (old_field << l)) | (new_field << l)
    }
}

proof fn lemma_u16_insert(x: u16, v: u16, l: u32, h: u32, f: u16, g: u16)
    by (bit_vector)
    requires
        l <= h < 16,
        f as u64 == bits_of(x as u64, l as u64, h as u64),
        g as u64 == bits_of(v as u64, 0, (h - l) as u64),
    ensures
        ((x ^ (f << l)) | (g << l)) as u64 == with_bits(x as u64, l as u64, h as u64, v as u64),
{
}

proof fn lemma_u32_extract(x: u32, l: u32, h: u32)
    by (bit_vector)
    requires
        l <= h < 32,
    ensures
        ((x << ((31 - h) as u32)) >> ((31 - h + l) as u32)) as u64 == bits_of(x as u64, l as u64, h as u64),
{
}

impl BitContainer for u32 {
    open spec fn bits() -> u64 {
        32
    }

    fn width() -> (r: u64) {
        32
    }

    open spec fn wide(self) -> u64 {
        self as u64
    }

    proof fn lemma_fits(self) {
        assert((self as u64) & low_ones(32) == self as u64) by (bit_vector);
    }

    proof fn lemma_wide_injective(a: Self, b: Self) {
    }

    fn to_wide(self) -> (r: u64) {
        self as u64
    }

    fn extract_range(self, low: usize, high: usize) -> (r: Self) {
        let l = low as u32;
        let h = high as u32;
        proof {
            lemma_u32_extract(self, l, h);
        }
        (self << (31 - h)) >> (31 - h + l)
    }

    fn insert_range(self, low: usize, high: usize, new: Self) -> (r: Self) {
        let l = low as u32;
        let h = high as u32;
        let old_field = self.extract_range(low, high);
        let new_field = new.extract_range(0, high - low);
        proof {
            lemma_u32_insert(self, new, l, h, old_field, new_field);
        }
        (self ^ (old_field << l)) | (new_field << l)
    }
}

proof fn lemma_u32_insert(x: u32, v: u32, l: u32, h: u32, f: u32, g: u32)
    by (bit_vector)
    requires
        l <= h < 32,
        f as u64 == bits_of(x as u64, l as u64, h as u64),
        g as u64 == bits_of(v as u64, 0, (h - l) as u64),
    ensures
        ((x ^ (f << l)) | (g << l)) as u64 == with_bits(x as u64, l as u64, h as u64, v as u64),
{
}

proof fn lemma_u64_extract(x: u64, l: u64, h: u64)
    requires
        l <= h < 64,
    ensures
        (x << ((63 - h) as u64)) >> ((63 - h + l) as u64) == bits_of(x, l, h),
{
    let s = (63 - h) as u64;
    let y = x << s;
    assert(y >> ((s + l) as u64) == (y >> s) >> l) by {
        lemma_u64_shr_is_div(y, (s + l) as u64);
        lemma_u64_shr_is_div(y, s);
        lemma_u64_shr_is_div(y >> s, l);
        lemma_pow2_pos(s as nat);
        lemma_pow2_pos(l as nat);
        lemma_pow2_adds(s as nat, l as nat);
        lemma_div_denominator(y as int, pow2(s as nat) as int, pow2(l as nat) as int);
    }
    assert((x << s) >> s == x & low_ones((64 - s) as u64)) by (bit_vector)
        requires
            s < 64,
    ;
    let m = low_ones((64 - s) as u64);
    assert((x & m) >> l == (x >> l) & (m >> l)) by (bit_vector);
    assert(low_ones((64 - s) as u64) >> l == low_ones((64 - s - l) as u64)) by (bit_vector)
        requires
            s + l < 64,
    ;
}

impl BitContainer for u64 {
    open spec fn bits() -> u64 {
        64
    }

    fn width() -> (r: u64) {
        64
    }

    open spec fn wide(self) -> u64 {
        self as u64
    }

    proof fn lemma_fits(self) {
        assert((self as u64) & low_ones(64) == self as u64) by (bit_vector);
    }

    proof fn lemma_wide_injective(a: Self, b: Self) {
    }

    fn to_wide(self) -> (r: u64) {
        self as u64
    }

    fn extract_range(self, low: usize, high: usize) -> (r: Self) {
        let l = low as u64;
        let h = high as u64;
        proof {
            lemma_u64_extract(self, l, h);
        }
        (self << (63 - h)) >> (63 - h + l)
    }

    fn insert_range(self, low: usize, high: usize, new: Self) -> (r: Self) {
        let l = low as u64;
        let h = high as u64;
        let old_field = self.extract_range(low, high);
        let new_field = new.extract_range(0, high - low);
        proof {
            lemma_u64_insert(self, new, l, h, old_field, new_field);
        }
        (self ^ (old_field << l)) | (new_field << l)
    }
}

proof fn lemma_u64_insert(x: u64, v: u64, l: u64, h: u64, f: u64, g: u64)
    by (bit_vector)
    requires
        l <= h < 64,
        f as u64 == bits_of(x as u64, l as u64, h as u64),
        g as u64 == bits_of(v as u64, 0, (h - l) as u64),
    ensures
        ((x ^ (f << l)) | (g << l)) as u64 == with_bits(x as u64, l as u64, h as u64, v as u64),
{
}


/// `low_ones(w)` is `2^w - 1`.
pub proof fn lemma_low_ones_value(w: u64)
    requires
        0 < w <= 64,
    ensures
        low_ones(w) as nat == pow2(w as nat) - 1,
{
    if w < 64 {
        lemma_u64_pow2_no_overflow(w as nat);
        lemma_u64_shl_is_mul(1, w);
    } else {
        lemma2_to64_rest();
    }
}

/// Masking with `low_ones(w)` is reduction modulo `2^w`.
pub proof fn lemma_low_ones_is_mod(v: u64, w: u64)
    requires
        0 < w <= 64,
    ensures
        v & low_ones(w) == v as nat % pow2(w as nat),
{
    if w < 64 {
        lemma_u64_pow2_no_overflow(w as nat);
        lemma_u64_low_bits_mask_is_mod(v, w as nat);
        lemma_low_ones_value(w);
    } else {
        assert(v & low_ones(64) == v) by (bit_vector);
        lemma2_to64_rest();
        lemma_small_mod(v as nat, pow2(64));
    }
}

/// In plain arithmetic, a field is the container divided by `2^low`, reduced modulo
/// `2^(high - low + 1)`.
pub proof fn lemma_bits_of_arith(x: u64, low: u64, high: u64)
    requires
        low <= high < 64,
    ensures
        bits_of(x, low, high) as nat == (x as nat / pow2(low as nat)) % pow2(
            range_width(low, high) as nat,
        ),
{
    lemma_u64_shr_is_div(x, low);
    lemma_low_ones_is_mod(x >> low, range_width(low, high));
}

/// An extracted field fits in `high - low + 1` bits.
pub proof fn lemma_extract_fits(x: u64, low: u64, high: u64)
    requires
        low <= high < 64,
    ensures
        (bits_of(x, low, high) as nat) < pow2(range_width(low, high) as nat),
{
    let w = range_width(low, high);
    let y = x >> low;
    assert(y & low_ones(w) <= low_ones(w)) by (bit_vector);
    lemma_low_ones_value(w);
}

/// Reading back a field just written gives the written value reduced modulo
/// `2^(high - low + 1)`.
pub proof fn lemma_insert_then_extract(x: u64, low: u64, high: u64, v: u64)
    requires
        low <= high < 64,
    ensures
        bits_of(with_bits(x, low, high, v), low, high) as nat == v as nat % pow2(
            range_width(low, high) as nat,
        ),
{
    assert(bits_of(with_bits(x, low, high, v), low, high) == v & low_ones(range_width(low, high)))
        by (bit_vector)
        requires
            low <= high < 64,
    ;
    lemma_low_ones_is_mod(v, range_width(low, high));
}

/// A field that spans the whole container reads the whole value, and writing it replaces the
/// whole value.
pub proof fn lemma_full_width<T: BitContainer>(x: T, v: T)
    ensures
        bits_of(x.wide(), 0, (T::bits() - 1) as u64) == x.wide(),
        with_bits(x.wide(), 0, (T::bits() - 1) as u64, v.wide()) == v.wide(),
{
    x.lemma_fits();
    v.lemma_fits();
    let b = T::bits();
    let xw = x.wide();
    let vw = v.wide();
    assert(bits_of(xw, 0, (b - 1) as u64) == xw && with_bits(xw, 0, (b - 1) as u64, vw) == vw)
        by (bit_vector)
        requires
            8 <= b <= 64,
            xw & low_ones(b) == xw,
            vw & low_ones(b) == vw,
    ;
}

/// Writing a field leaves every bit outside `[low, high]` as it was.
pub proof fn lemma_insert_keeps_other_bits(x: u64, low: u64, high: u64, v: u64, i: u64)
    requires
        low <= high < 64,
        i < 64,
        i < low || high < i,
    ensures
        bits_of(with_bits(x, low, high, v), i, i) == bits_of(x, i, i),
{
    assert(bits_of(with_bits(x, low, high, v), i, i) == bits_of(x, i, i)) by (bit_vector)
        requires
            low <= high < 64,
            i < 64,
            i < low || high < i,
    ;
}

/// Bits `[low, high]` of `value`, right-aligned.
pub fn extract_bits<T: BitContainer>(value: T, low: usize, high: usize) -> (r: T)
    requires
        low <= high < T::bits(),
    ensures
        r.wide() == bits_of(value.wide(), low as u64, high as u64),
{
    value.extract_range(low, high)
}

/// Bit `bit` of `value`, as 0 or 1.
pub fn extract_bit<T: BitContainer>(value: T, bit: usize) -> (r: T)
    requires
        bit < T::bits(),
    ensures
        r.wide() == bits_of(value.wide(), bit as u64, bit as u64),
        r.wide() <= 1,
{
    let r = value.extract_range(bit, bit);
    proof {
        let w = value.wide();
        let b = bit as u64;
        assert(bits_of(w, b, b) <= 1) by (bit_vector);
    }
    r
}

/// The two's-complement value of the low `size` bits of `x`.
pub open spec fn signed_low_bits(x: u64, size: u64) -> int {
    let f = bits_of(x, 0, (size - 1) as u64);
    if f < (1u64 << ((size - 1) as u64)) {
        f as int
    } else {
        f - 2 * (1u64 << ((size - 1) as u64))
    }
}

proof fn lemma_sign_extend(data: u32, size: u32)
    by (bit_vector)
    requires
        0 < size <= 32,
    ensures
        ((((data << ((32 - size) as u32)) as i32) >> ((32 - size) as u32)) as int) == signed_low_bits(
            data as u64,
            size as u64,
        ),
{
}

/// Sign-extends the low `size` bits of `data`, read as a two's-complement number, to 32 bits.
pub fn sign_extend32(data: u32, size: u32) -> (r: i32)
    requires
        0 < size <= 32,
    ensures
        r as int == signed_low_bits(data as u64, size as u64),
{
    proof {
        lemma_sign_extend(data, size);
    }
    ((data << (32 - size)) as i32) >> (32 - size)
}

} // verus!
