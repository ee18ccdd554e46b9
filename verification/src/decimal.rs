//! Exact decimal numbers for money and quantities.
//!
//! A [`Decimal`] holds the plain values that describe a `rust_decimal`
//! number: a signed mantissa of at most 96 bits, a power-of-ten scale of at
//! most 28, so that its value is `mantissa / 10^scale`, and the sign flag,
//! which also tells a negative zero (written `-0`) from zero. All arithmetic is done
//! by `rust_decimal` itself, through the trusted wrappers at the bottom of this
//! file; this module only carries the numbers and states what is known of the
//! operations.

use vstd::prelude::*;

verus! {

/// The largest mantissa magnitude a decimal can hold (`2^96 - 1`).
pub const MAX_MANTISSA: i128 = 79228162514264337593543950335i128;

/// The largest scale (number of fractional digits) a decimal can hold.
pub const MAX_SCALE: u32 = 28u32;

/// `10^n`.
pub open spec fn pow10(n: nat) -> int
    decreases n,
{
    if n == 0 {
        1
    } else {
        10 * pow10((n - 1) as nat)
    }
}

/// A decimal's plain description: `(mantissa, scale, negative)`, worth
/// `mantissa / 10^scale`; `negative` is the sign flag, set for values below
/// zero and for a negative zero.
pub type DecimalView = (int, nat, bool);

/// The view of zero, the value every running total starts from.
pub open spec fn zero_view() -> DecimalView {
    (0int, 0nat, false)
}

/// `a` is numerically smaller than `b` (compared as fractions, whatever the scales).
pub open spec fn value_lt(a: DecimalView, b: DecimalView) -> bool {
    a.0 * pow10(b.1) < b.0 * pow10(a.1)
}

/// `a` and `b` denote the same number (compared as fractions, whatever the scales).
pub open spec fn value_eq(a: DecimalView, b: DecimalView) -> bool {
    a.0 * pow10(b.1) == b.0 * pow10(a.1)
}

/// `a` is strictly greater than zero.
pub open spec fn value_positive(a: DecimalView) -> bool {
    a.0 > 0
}

/// `a` is zero or greater.
pub open spec fn value_nonnegative(a: DecimalView) -> bool {
    a.0 >= 0
}

/// A view that a `rust_decimal` number can have.
pub open spec fn representable(a: DecimalView) -> bool {
    &&& -MAX_MANTISSA <= a.0 <= MAX_MANTISSA
    &&& a.1 <= MAX_SCALE
    &&& a.0 != 0 ==> a.2 == (a.0 < 0)
}

/// `a` with the sign flag of a zero cleared: a negative zero read back from
/// its text is an ordinary zero.
pub open spec fn without_zero_sign(a: DecimalView) -> DecimalView {
    if a.0 == 0 {
        (0, a.1, false)
    } else {
        a
    }
}

/// The product of `a` and `b` can be written exactly: its scale, the sum of
/// theirs, is at most 28, and its mantissa fits in 96 bits.
pub open spec fn product_fits(a: DecimalView, b: DecimalView) -> bool {
    a.1 + b.1 <= MAX_SCALE && -MAX_MANTISSA <= a.0 * b.0 <= MAX_MANTISSA
}

/// The exact product of `a` and `b`: mantissas multiplied and scales added,
/// or a plain zero when either is zero.
pub open spec fn exact_product(a: DecimalView, b: DecimalView) -> DecimalView {
    if a.0 == 0 || b.0 == 0 {
        zero_view()
    } else {
        (a.0 * b.0, a.1 + b.1, a.0 * b.0 < 0)
    }
}

/// The mantissa `a` has at scale `s` (for `s` at least `a`'s scale): its
/// value times `10^s`.
pub open spec fn scaled(a: DecimalView, s: nat) -> int {
    a.0 * pow10((s - a.1) as nat)
}

/// Both `a` and `b` can be written at scale `s`, and so can `total`, which is
/// what the exact sum or difference comes to at that scale.
pub open spec fn fits_at(a: DecimalView, b: DecimalView, s: nat, total: int) -> bool {
    a.1 <= s && b.1 <= s && s <= MAX_SCALE && -MAX_MANTISSA <= total <= MAX_MANTISSA
}

/// `total` is `a + b`, exactly, at every scale `s` that holds both and at
/// which the sum fits in 96 bits.
pub open spec fn exact_sum_at_fitting_scales(a: DecimalView, b: DecimalView, total: DecimalView) -> bool {
    forall|s: nat|
        #[trigger] fits_at(a, b, s, scaled(a, s) + scaled(b, s)) ==> total.1 <= s && scaled(total, s)
            == scaled(a, s) + scaled(b, s)
}

/// `a + b`, as `rust_decimal` computes it, is the exact sum (compared at
/// scale 28, where every decimal can be written).
pub open spec fn adds_exactly(a: DecimalView, b: DecimalView) -> bool {
    decimal_checked_add(a, b) matches Some(x) && scaled(x, 28) == scaled(a, 28) + scaled(b, 28)
}

/// `a * b`, as `rust_decimal` computes it, is the exact product (compared at
/// scale 28: the product of two such figures carries `10^28` once more).
pub open spec fn multiplies_exactly(a: DecimalView, b: DecimalView) -> bool {
    decimal_checked_mul(a, b) matches Some(x) && scaled(x, 28) * pow10(28) == scaled(a, 28) * scaled(
        b,
        28,
    )
}

/// `a / b`, as `rust_decimal` computes it, is the exact quotient: times `b`
/// it gives back `a`.
pub open spec fn divides_exactly(a: DecimalView, b: DecimalView) -> bool {
    decimal_checked_div(a, b) matches Some(x) && scaled(x, 28) * scaled(b, 28) == scaled(a, 28) * pow10(
        28,
    )
}

/// Zero is zero at every scale.
pub proof fn lemma_scaled_zero(a: DecimalView, s: nat)
    requires
        a.0 == 0,
    ensures
        scaled(a, s) == 0,
{
    assert(a.0 * pow10((s - a.1) as nat) == 0) by (nonlinear_arith)
        requires
            a.0 == 0,
    ;
}

/// What `rust_decimal::Decimal::checked_add` returns for two decimals, by view
/// (`None` on overflow; the sum is rounded when it needs more than 96 bits).
pub uninterp spec fn decimal_checked_add(a: DecimalView, b: DecimalView) -> Option<DecimalView>;

/// What `rust_decimal::Decimal::checked_sub` returns for two decimals, by view.
pub uninterp spec fn decimal_checked_sub(a: DecimalView, b: DecimalView) -> Option<DecimalView>;

/// What `rust_decimal::Decimal::checked_mul` returns for two decimals, by view.
pub uninterp spec fn decimal_checked_mul(a: DecimalView, b: DecimalView) -> Option<DecimalView>;

/// What `rust_decimal::Decimal::checked_div` returns for two decimals, by view
/// (`None` on a zero divisor or overflow; the quotient is rounded to fit).
pub uninterp spec fn decimal_checked_div(a: DecimalView, b: DecimalView) -> Option<DecimalView>;

/// The text `rust_decimal::Decimal`'s `Display` writes for a decimal.
pub uninterp spec fn decimal_display(d: DecimalView) -> Seq<char>;

/// What `rust_decimal::Decimal`'s `FromStr` reads from a text (`None` for
/// text it rejects).
pub uninterp spec fn decimal_from_str(text: Seq<char>) -> Option<DecimalView>;

/// A decimal number: `mantissa / 10^scale`.
///
/// Equality is numeric, as in `rust_decimal`: `2.50` equals `2.5`.
#[derive(Clone, Copy, Debug)]
pub struct Decimal {
    pub(crate) mantissa: i128,
    pub(crate) scale: u32,
    pub(crate) negative: bool,
}

/// The view of an optional decimal.
pub open spec fn option_view(d: Option<Decimal>) -> Option<DecimalView> {
    match d {
        Some(x) => Some(x@),
        None => None,
    }
}

impl Decimal {
    /// Every decimal fits in `rust_decimal`'s representation.
    #[verifier::type_invariant]
    spec fn well_formed(self) -> bool {
        representable(self@)
    }

    pub open(crate) spec fn view(&self) -> DecimalView {
        (self.mantissa as int, self.scale as nat, self.negative)
    }

    /// `num / 10^scale`. The scale may be at most 28.
    pub fn new(num: i64, scale: u32) -> (r: Decimal)
        requires
            scale <= MAX_SCALE,
        ensures
            r@ == (num as int, scale as nat, num < 0),
    {
        Decimal { mantissa: num as i128, scale, negative: num < 0 }
    }

    /// `num / 10^scale`, for a mantissa of at most 96 bits and a scale of at most 28.
    pub fn from_i128_with_scale(num: i128, scale: u32) -> (r: Decimal)
        requires
            -MAX_MANTISSA <= num <= MAX_MANTISSA,
            scale <= MAX_SCALE,
        ensures
            r@ == (num as int, scale as nat, num < 0),
    {
        Decimal { mantissa: num, scale, negative: num < 0 }
    }

    /// `mantissa / 10^scale` with the given sign flag, which only a zero
    /// may carry against its mantissa's sign (a negative zero).
    pub fn from_parts(mantissa: i128, scale: u32, negative: bool) -> (r: Decimal)
        requires
            representable((mantissa as int, scale as nat, negative)),
        ensures
            r@ == (mantissa as int, scale as nat, negative),
    {
        Decimal { mantissa, scale, negative }
    }

    /// Zero, with scale zero.
    pub fn zero() -> (r: Decimal)
        ensures
            r@ == zero_view(),
    {
        Decimal { mantissa: 0, scale: 0, negative: false }
    }

    /// The decimal written out, e.g. `-2.50`.
    pub fn to_string(&self) -> (r: String)
        ensures
            r@ == decimal_display(self@),
            representable(self@),
    {
        proof {
            use_type_invariant(self);
        }
        format_decimal(self)
    }

    /// Reads a decimal number; rejected text yields the parser's message.
    pub fn parse(text: &str) -> (r: Result<Decimal, String>)
        ensures
            r is Ok <==> decimal_from_str(text@) is Some,
            r matches Ok(d) ==> decimal_from_str(text@) == Some(d@),
            r is Err ==> forall|v: DecimalView| !(representable(v) && text@ == decimal_display(v)),
            r matches Ok(x) ==> forall|v: DecimalView|
                representable(v) && text@ == decimal_display(v) ==> x@ == without_zero_sign(v),
    {
        parse_decimal(text)
    }

    pub fn mantissa(&self) -> (r: i128)
        ensures
            r == self@.0,
    {
        self.mantissa
    }

    pub fn scale(&self) -> (r: u32)
        ensures
            r == self@.1,
    {
        self.scale
    }
}

/// Comparing against zero reads the sign of the mantissa.
pub proof fn lemma_compare_with_zero(a: DecimalView)
    ensures
        value_lt(zero_view(), a) <==> value_positive(a),
        value_lt(a, zero_view()) <==> a.0 < 0,
        value_eq(a, zero_view()) <==> a.0 == 0,
{
    assert(pow10(0) == 1);
    assert(pow10(a.1) >= 1) by {
        lemma_pow10_positive(a.1);
    }
    assert(0 * pow10(a.1) == 0);
    if a.0 > 0 {
        assert(a.0 * pow10(0) == a.0);
    }
}

/// Powers of ten are positive.
pub proof fn lemma_pow10_positive(n: nat)
    ensures
        pow10(n) >= 1,
    decreases n,
{
    if n > 0 {
        lemma_pow10_positive((n - 1) as nat);
    }
}

impl PartialEq for Decimal {
    fn eq(&self, other: &Decimal) -> (r: bool) {
        decimal_eq(self, other)
    }
}

impl vstd::std_specs::cmp::PartialEqSpecImpl for Decimal {
    open spec fn obeys_eq_spec() -> bool {
        true
    }

    open spec fn eq_spec(&self, other: &Decimal) -> bool {
        value_eq(self@, other@)
    }
}

impl Eq for Decimal {

}

/// `rust_decimal::Decimal::checked_add`: the sum, or `None` on overflow.
/// The crate adds exactly at the larger of the two scales (an operand that is
/// zero gives back the other one as it is) and rounds only a sum wider than
/// 96 bits to a smaller scale. Stated: the sign this keeps (a sum of values
/// at or above zero is at or above zero, and above zero when one of them is),
/// and that a sum which fits in 96 bits at a common scale `s` comes out
/// exact, at a scale no larger than `s`. The rounded value is left to the
/// name.
#[verifier::external_body]
pub(crate) fn checked_add(a: &Decimal, b: &Decimal) -> (r: Option<Decimal>)
    ensures
        option_view(r) == decimal_checked_add(a@, b@),
        r matches Some(s) ==> (value_nonnegative(a@) && value_nonnegative(b@) ==> value_nonnegative(s@)),
        r matches Some(s) ==> (value_nonnegative(a@) && value_positive(b@) ==> value_positive(s@)),
        r is None ==> forall|s: nat| !#[trigger] fits_at(a@, b@, s, scaled(a@, s) + scaled(b@, s)),
        r matches Some(x) ==> forall|s: nat|
            #[trigger] fits_at(a@, b@, s, scaled(a@, s) + scaled(b@, s)) ==> x@.1 <= s && scaled(x@, s)
                == scaled(a@, s) + scaled(b@, s),
{
    let mut x = rust_decimal::Decimal::from_i128_with_scale(a.mantissa, a.scale);
    x.set_sign_negative(a.negative);
    let mut y = rust_decimal::Decimal::from_i128_with_scale(b.mantissa, b.scale);
    y.set_sign_negative(b.negative);
    match x.checked_add(y) {
        Some(s) => Some(Decimal { mantissa: s.mantissa(), scale: s.scale(), negative: s.is_sign_negative() }),
        None => None,
    }
}

/// `rust_decimal::Decimal::checked_sub`: the difference, or `None` on overflow.
/// Computed as the sum with `b` negated, so it is exact in the same way: a
/// difference that fits in 96 bits at a common scale `s` comes out exact, at
/// a scale no larger than `s`, and subtracting a value not above `a` leaves a
/// difference at or above zero. The rounded value is left to the name.
#[verifier::external_body]
pub(crate) fn checked_sub(a: &Decimal, b: &Decimal) -> (r: Option<Decimal>)
    ensures
        option_view(r) == decimal_checked_sub(a@, b@),
        r matches Some(s) ==> (!value_lt(a@, b@) ==> value_nonnegative(s@)),
        r is None ==> forall|s: nat| !#[trigger] fits_at(a@, b@, s, scaled(a@, s) - scaled(b@, s)),
        r matches Some(x) ==> forall|s: nat|
            #[trigger] fits_at(a@, b@, s, scaled(a@, s) - scaled(b@, s)) ==> x@.1 <= s && scaled(x@, s)
                == scaled(a@, s) - scaled(b@, s),
{
    let mut x = rust_decimal::Decimal::from_i128_with_scale(a.mantissa, a.scale);
    x.set_sign_negative(a.negative);
    let mut y = rust_decimal::Decimal::from_i128_with_scale(b.mantissa, b.scale);
    y.set_sign_negative(b.negative);
    match x.checked_sub(y) {
        Some(s) => Some(Decimal { mantissa: s.mantissa(), scale: s.scale(), negative: s.is_sign_negative() }),
        None => None,
    }
}

/// `rust_decimal::Decimal::checked_mul`: the product, or `None` on overflow.
/// A zero operand gives a plain zero; otherwise the crate multiplies the
/// mantissas, adds the scales, and rounds only a product beyond 28
/// fractional digits or 96 bits. Stated: a product that fits is exact; the
/// rounded value is left to the name.
#[verifier::external_body]
pub(crate) fn checked_mul(a: &Decimal, b: &Decimal) -> (r: Option<Decimal>)
    ensures
        option_view(r) == decimal_checked_mul(a@, b@),
        r is None ==> !product_fits(a@, b@),
        r matches Some(x) ==> (product_fits(a@, b@) ==> x@ == exact_product(a@, b@)),
{
    let mut x = rust_decimal::Decimal::from_i128_with_scale(a.mantissa, a.scale);
    x.set_sign_negative(a.negative);
    let mut y = rust_decimal::Decimal::from_i128_with_scale(b.mantissa, b.scale);
    y.set_sign_negative(b.negative);
    match x.checked_mul(y) {
        Some(s) => Some(Decimal { mantissa: s.mantissa(), scale: s.scale(), negative: s.is_sign_negative() }),
        None => None,
    }
}

/// `rust_decimal::Decimal::checked_div`: the quotient, or `None` on a zero
/// divisor or overflow. Stated: a zero divisor gives `None`, and a zero
/// dividend over any other divisor gives a plain zero. The quotient, which
/// the crate rounds to fit and trims of trailing zeros, is left to the name.
#[verifier::external_body]
pub(crate) fn checked_div(a: &Decimal, b: &Decimal) -> (r: Option<Decimal>)
    ensures
        option_view(r) == decimal_checked_div(a@, b@),
        r is None ==> b@.0 == 0 || a@.0 != 0,
        r matches Some(x) ==> b@.0 != 0 && (a@.0 == 0 ==> x@ == zero_view()),
{
    let mut x = rust_decimal::Decimal::from_i128_with_scale(a.mantissa, a.scale);
    x.set_sign_negative(a.negative);
    let mut y = rust_decimal::Decimal::from_i128_with_scale(b.mantissa, b.scale);
    y.set_sign_negative(b.negative);
    match x.checked_div(y) {
        Some(s) => Some(Decimal { mantissa: s.mantissa(), scale: s.scale(), negative: s.is_sign_negative() }),
        None => None,
    }
}

/// `<` on `rust_decimal::Decimal`, which compares numeric values.
#[verifier::external_body]
pub(crate) fn decimal_lt(a: &Decimal, b: &Decimal) -> (r: bool)
    ensures
        r == value_lt(a@, b@),
{
    let mut x = rust_decimal::Decimal::from_i128_with_scale(a.mantissa, a.scale);
    x.set_sign_negative(a.negative);
    let mut y = rust_decimal::Decimal::from_i128_with_scale(b.mantissa, b.scale);
    y.set_sign_negative(b.negative);
    x < y
}

/// `==` on `rust_decimal::Decimal`, which compares numeric values.
#[verifier::external_body]
pub(crate) fn decimal_eq(a: &Decimal, b: &Decimal) -> (r: bool)
    ensures
        r == value_eq(a@, b@),
{
    let mut x = rust_decimal::Decimal::from_i128_with_scale(a.mantissa, a.scale);
    x.set_sign_negative(a.negative);
    let mut y = rust_decimal::Decimal::from_i128_with_scale(b.mantissa, b.scale);
    y.set_sign_negative(b.negative);
    x == y
}

/// `rust_decimal::Decimal`'s `Display`, named by [`decimal_display`].
#[verifier::external_body]
fn format_decimal(d: &Decimal) -> (r: String)
    ensures
        r@ == decimal_display(d@),
{
    let mut x = rust_decimal::Decimal::from_i128_with_scale(d.mantissa, d.scale);
    x.set_sign_negative(d.negative);
    x.to_string()
}

/// `rust_decimal::Decimal`'s `FromStr`, named by [`decimal_from_str`]; a
/// rejection becomes the error's message, whose text is not stated. The
/// text `Display` writes for a decimal (its digits, with the point `scale`
/// places from the right) reads back to the same mantissa and scale.
#[verifier::external_body]
fn parse_decimal(text: &str) -> (r: Result<Decimal, String>)
    ensures
        r is Ok <==> decimal_from_str(text@) is Some,
        r matches Ok(d) ==> decimal_from_str(text@) == Some(d@),
        r is Err ==> forall|v: DecimalView| !(representable(v) && text@ == decimal_display(v)),
        r matches Ok(x) ==> forall|v: DecimalView|
            representable(v) && text@ == decimal_display(v) ==> x@ == without_zero_sign(v),
{
    match text.parse::<rust_decimal::Decimal>() {
        Ok(d) => Ok(Decimal { mantissa: d.mantissa(), scale: d.scale(), negative: d.is_sign_negative() }),
        Err(e) => Err(e.to_string()),
    }
}

} // verus!
