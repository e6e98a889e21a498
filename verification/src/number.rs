//! Unsigned fixed-point numbers with fifteen decimal digits in 192 bits.
//!
//! A [`Number`] holds the three little-endian 64-bit words of a `jet_proto_math::Number`.
//! The arithmetic itself is that crate's: each operation below hands the words to it and
//! states, over the integer that the words spell, what comes back.
use vstd::prelude::*;

verus! {

/// The integer that stands for one.
pub open spec fn scale() -> nat {
    1_000_000_000_000_000
}

/// The first integer that no longer fits into three words.
pub open spec fn capacity() -> nat {
    0x1_0000_0000_0000_0000_0000_0000_0000_0000_0000_0000_0000_0000nat
}

/// The integer that three little-endian words spell.
pub open spec fn words_value(words: Seq<u64>) -> nat {
    (words[0] + words[1] * 0x1_0000_0000_0000_0000nat
        + words[2] * 0x1_0000_0000_0000_0000_0000_0000_0000_0000nat) as nat
}

/// The product of two fixed-point values, rounded down.
pub open spec fn product(a: nat, b: nat) -> nat {
    a * b / scale()
}

/// The quotient of two fixed-point values, rounded down.
pub open spec fn quotient(a: nat, b: nat) -> nat {
    a * scale() / b
}

/// The whole part of a fixed-point value.
pub open spec fn whole(a: nat) -> nat {
    a / scale()
}

/// The least whole number that is not below a fixed-point value.
pub open spec fn whole_ceil(a: nat) -> nat {
    ((a + scale() - 1) as nat) / scale()
}

/// The lesser of two values.
pub open spec fn lesser(a: nat, b: nat) -> nat {
    if a <= b {
        a
    } else {
        b
    }
}

/// An unsigned fixed-point number; its view is the scaled integer.
#[derive(Clone, Copy, Debug, PartialEq, Eq)]
pub struct Number {
    pub words: [u64; 3],
}

impl View for Number {
    type V = nat;

    open spec fn view(&self) -> nat {
        words_value(self.words@)
    }
}

impl Default for Number {
    fn default() -> (r: Number)
        ensures
            r@ == 0,
    {
        Number::zero()
    }
}

/// The operations of `jet_proto_math::Number` on which the rest is built.
impl Number {
    /// `jet_proto_math::Number::from` of a `u64`: the integer times the scale.
    #[verifier::external_body]
    pub(crate) fn from_u64(n: u64) -> (r: Number)
        ensures
            r@ == n * scale(),
    {
        let scaled = jet_proto_math::Number::from(n);
        Number { words: bytemuck::cast::<jet_proto_math::Number, [u64; 3]>(scaled) }
    }

    /// `+` of `jet_proto_math::Number`, which panics where the sum does not fit: the exact sum.
    #[verifier::external_body]
    pub(crate) fn plus(self, other: Number) -> (r: Number)
        requires
            self@ + other@ < capacity(),
        ensures
            r@ == self@ + other@,
    {
        let sum = bytemuck::cast::<[u64; 3], jet_proto_math::Number>(self.words)
            + bytemuck::cast::<[u64; 3], jet_proto_math::Number>(other.words);
        Number { words: bytemuck::cast::<jet_proto_math::Number, [u64; 3]>(sum) }
    }

    /// `-` of `jet_proto_math::Number`, which panics below zero: the exact difference.
    #[verifier::external_body]
    pub(crate) fn minus(self, other: Number) -> (r: Number)
        requires
            other@ <= self@,
        ensures
            r@ == self@ - other@,
    {
        let difference = bytemuck::cast::<[u64; 3], jet_proto_math::Number>(self.words)
            - bytemuck::cast::<[u64; 3], jet_proto_math::Number>(other.words);
        Number { words: bytemuck::cast::<jet_proto_math::Number, [u64; 3]>(difference) }
    }

    /// `*` of two `jet_proto_math::Number`s, which panics where the product of the scaled
    /// integers does not fit: that product over the scale, rounded down.
    #[verifier::external_body]
    pub(crate) fn times(self, other: Number) -> (r: Number)
        requires
            self@ * other@ < capacity(),
        ensures
            r@ == product(self@, other@),
    {
        let product = bytemuck::cast::<[u64; 3], jet_proto_math::Number>(self.words)
            * bytemuck::cast::<[u64; 3], jet_proto_math::Number>(other.words);
        Number { words: bytemuck::cast::<jet_proto_math::Number, [u64; 3]>(product) }
    }

    /// `/` of two `jet_proto_math::Number`s, which panics for a zero divisor and where the
    /// dividend times the scale does not fit: that product over the divisor, rounded down.
    #[verifier::external_body]
    pub(crate) fn over(self, other: Number) -> (r: Number)
        requires
            other@ > 0,
            self@ * scale() < capacity(),
        ensures
            r@ == quotient(self@, other@),
    {
        let quotient = bytemuck::cast::<[u64; 3], jet_proto_math::Number>(self.words)
            / bytemuck::cast::<[u64; 3], jet_proto_math::Number>(other.words);
        Number { words: bytemuck::cast::<jet_proto_math::Number, [u64; 3]>(quotient) }
    }

    /// `*` of a `jet_proto_math::Number` and an integer, which panics where the product does
    /// not fit: the scaled integer times the integer.
    #[verifier::external_body]
    pub(crate) fn times_integer(self, words: [u64; 3]) -> (r: Number)
        requires
            self@ * words_value(words@) < capacity(),
        ensures
            r@ == self@ * words_value(words@),
    {
        let product = bytemuck::cast::<[u64; 3], jet_proto_math::Number>(self.words)
            * jet_proto_math::U192(words);
        Number { words: bytemuck::cast::<jet_proto_math::Number, [u64; 3]>(product) }
    }

    /// `/` of a `jet_proto_math::Number` and an integer, which panics for zero: the scaled
    /// integer over the integer, rounded down.
    #[verifier::external_body]
    pub(crate) fn over_integer(self, words: [u64; 3]) -> (r: Number)
        requires
            words_value(words@) > 0,
        ensures
            r@ == self@ / words_value(words@),
    {
        let quotient = bytemuck::cast::<[u64; 3], jet_proto_math::Number>(self.words)
            / jet_proto_math::U192(words);
        Number { words: bytemuck::cast::<jet_proto_math::Number, [u64; 3]>(quotient) }
    }

    /// `jet_proto_math::Number::as_u64` at exponent zero, which panics where the whole part
    /// does not fit into 64 bits: the whole part.
    #[verifier::external_body]
    pub(crate) fn as_u64(self) -> (r: u64)
        requires
            whole(self@) <= u64::MAX,
        ensures
            r == whole(self@),
    {
        bytemuck::cast::<[u64; 3], jet_proto_math::Number>(self.words).as_u64(0)
    }

    /// `jet_proto_math::Number::as_u64_ceil` at exponent zero, which panics where the result
    /// does not fit into 64 bits: the value rounded up to a whole number.
    #[verifier::external_body]
    pub(crate) fn as_u64_ceil(self) -> (r: u64)
        requires
            whole_ceil(self@) <= u64::MAX,
        ensures
            r == whole_ceil(self@),
    {
        bytemuck::cast::<[u64; 3], jet_proto_math::Number>(self.words).as_u64_ceil(0)
    }

    /// `<=` of `jet_proto_math::Number`: the order of the scaled integers.
    #[verifier::external_body]
    pub(crate) fn at_most(self, other: Number) -> (r: bool)
        ensures
            r == (self@ <= other@),
    {
        bytemuck::cast::<[u64; 3], jet_proto_math::Number>(self.words)
            <= bytemuck::cast::<[u64; 3], jet_proto_math::Number>(other.words)
    }
}

impl Number {
    pub fn zero() -> (r: Number)
        ensures
            r@ == 0,
    {
        Number { words: [0, 0, 0] }
    }

    /// Whether the value is below another.
    pub fn below(self, other: Number) -> (r: bool)
        ensures
            r == (self@ < other@),
    {
        !other.at_most(self)
    }

    /// The lesser of two values.
    pub fn lesser_of(self, other: Number) -> (r: Number)
        ensures
            r@ == lesser(self@, other@),
    {
        if self.at_most(other) {
            self
        } else {
            other
        }
    }

    /// The sum, where it fits.
    pub fn checked_plus(self, other: Number) -> (r: Option<Number>)
        ensures
            r is Some <==> self@ + other@ < capacity(),
            r is Some ==> r->Some_0@ == self@ + other@,
    {
        let room = greatest().minus_within(other);
        if self.at_most(room) {
            Some(self.plus(other))
        } else {
            None
        }
    }

    /// The difference, where it is not negative.
    pub fn checked_minus(self, other: Number) -> (r: Option<Number>)
        ensures
            r is Some <==> other@ <= self@,
            r is Some ==> r->Some_0@ == self@ - other@,
    {
        if other.at_most(self) {
            Some(self.minus(other))
        } else {
            None
        }
    }

    /// The fixed-point product, where the product of the scaled integers fits.
    pub fn checked_times(self, other: Number) -> (r: Option<Number>)
        ensures
            r is Some <==> self@ * other@ < capacity(),
            r is Some ==> r->Some_0@ == product(self@, other@),
    {
        if product_fits(self, other.words) {
            Some(self.times(other))
        } else {
            None
        }
    }

    /// The fixed-point quotient, where the divisor is not zero and the scaled dividend fits.
    pub fn checked_over(self, other: Number) -> (r: Option<Number>)
        ensures
            r is Some <==> other@ > 0 && self@ * scale() < capacity(),
            r is Some ==> r->Some_0@ == quotient(self@, other@),
    {
        if other.at_most(Number::zero()) {
            None
        } else if product_fits(self, [1_000_000_000_000_000, 0, 0]) {
            Some(self.over(other))
        } else {
            None
        }
    }

    /// The product with a whole number, where it fits.
    pub fn checked_times_u64(self, n: u64) -> (r: Option<Number>)
        ensures
            r is Some <==> self@ * n < capacity(),
            r is Some ==> r->Some_0@ == self@ * n,
    {
        if product_fits(self, [n, 0, 0]) {
            Some(self.times_integer([n, 0, 0]))
        } else {
            None
        }
    }

    /// The quotient by a whole number other than zero.
    pub fn checked_over_u64(self, n: u64) -> (r: Option<Number>)
        ensures
            r is Some <==> n > 0,
            r is Some ==> r->Some_0@ == self@ / (n as nat),
    {
        if n == 0 {
            None
        } else {
            Some(self.over_integer([n, 0, 0]))
        }
    }

    /// The whole part, where it fits into 64 bits.
    pub fn checked_whole(self) -> (r: Option<u64>)
        ensures
            r is Some <==> whole(self@) <= u64::MAX,
            r is Some ==> r->Some_0 == whole(self@),
    {
        let bound = Number { words: [0, 1_000_000_000_000_000, 0] };
        if self.below(bound) {
            Some(self.as_u64())
        } else {
            None
        }
    }

    /// The value rounded up, where it fits into 64 bits.
    pub fn checked_whole_ceil(self) -> (r: Option<u64>)
        ensures
            r is Some <==> whole_ceil(self@) <= u64::MAX,
            r is Some ==> r->Some_0 == whole_ceil(self@),
    {
        if self.at_most(Number::from_u64(u64::MAX)) {
            Some(self.as_u64_ceil())
        } else {
            None
        }
    }

    fn minus_within(self, other: Number) -> (r: Number)
        requires
            self@ == capacity() - 1,
        ensures
            r@ == self@ - other@,
    {
        proof {
            lemma_words_below_capacity(other.words@);
        }
        self.minus(other)
    }
}

/// Three words spell an integer below the capacity.
proof fn lemma_words_below_capacity(words: Seq<u64>)
    ensures
        words_value(words) < capacity(),
{
}

/// What three words spell is below the capacity, and the greatest words spell the greatest integer
/// below it; one is spelled by a first word of ten to the fifteenth.
pub proof fn law_capacity_is_what_three_words_spell(words: Seq<u64>)
    ensures
        words_value(words) < capacity(),
        words_value(seq![u64::MAX, u64::MAX, u64::MAX]) + 1 == capacity(),
        words_value(seq![1_000_000_000_000_000u64, 0u64, 0u64]) == scale(),
{
    lemma_words_below_capacity(words);
}

/// The greatest value.
fn greatest() -> (r: Number)
    ensures
        r@ == capacity() - 1,
{
    Number { words: [u64::MAX, u64::MAX, u64::MAX] }
}

/// Whether the product of a scaled integer and an integer fits.
fn product_fits(a: Number, words: [u64; 3]) -> (r: bool)
    ensures
        r == (a@ * words_value(words@) < capacity()),
{
    if words[0] == 0 && words[1] == 0 && words[2] == 0 {
        return true;
    }
    let bound = greatest().over_integer(words);
    proof {
        lemma_product_fits(a@, words_value(words@), (capacity() - 1) as nat);
    }
    a.at_most(bound)
}

/// A product is within a bound exactly where one factor is within the bound over the other.
pub(crate) proof fn lemma_product_fits(a: nat, b: nat, bound: nat)
    requires
        b > 0,
    ensures
        a * b <= bound <==> a <= bound / b,
{
    let q = bound / b;
    vstd::arithmetic::div_mod::lemma_fundamental_div_mod(bound as int, b as int);
    if a <= q {
        assert(a * b <= q * b) by (nonlinear_arith)
            requires
                a <= q,
        ;
        assert(b * q == q * b) by (nonlinear_arith);
    } else {
        assert(a * b >= (q + 1) * b) by (nonlinear_arith)
            requires
                a >= q + 1,
        ;
        assert((q + 1) * b == b * q + b) by (nonlinear_arith);
    }
}

} // verus!
