//! Decimal texts and the numbers they write.
//!
//! A decimal text is made of decimal digits and at most one point: `7`, `0.92`,
//! `12.`, `.5`. There is no sign and no exponent, and at least one digit is
//! needed. The number it writes is non-negative and exact, whatever the length
//! of the text.

use vstd::prelude::*;
use vstd::utf8::is_ascii_chars;

verus! {

/// `c` is one of the ten decimal digits.
pub open spec fn is_digit(c: char) -> bool {
    '0' <= c && c <= '9'
}

/// The number that the digit `c` stands for.
pub open spec fn digit_value(c: char) -> nat {
    (c as nat - '0' as nat) as nat
}

/// Every character of `s` is a decimal digit.
pub open spec fn all_digits(s: Seq<char>) -> bool {
    forall|i: int| 0 <= i < s.len() ==> is_digit(#[trigger] s[i])
}

/// The number that the digit string `s` writes, most significant digit first.
/// The empty string writes zero.
pub open spec fn digits_value(s: Seq<char>) -> nat
    decreases s.len(),
{
    if s.len() == 0 {
        0
    } else {
        10 * digits_value(s.drop_last()) + digit_value(s.last())
    }
}

/// Ten to the power `n`.
pub open spec fn pow10(n: nat) -> nat
    decreases n,
{
    if n == 0 {
        1
    } else {
        10 * pow10((n - 1) as nat)
    }
}

/// The position of the first point in `s`, or the length of `s` if it has none.
pub open spec fn point_index(s: Seq<char>) -> int
    decreases s.len(),
{
    if s.len() == 0 || s[0] == '.' {
        0
    } else {
        1 + point_index(s.drop_first())
    }
}

/// What stands before the first point.
pub open spec fn whole_part(s: Seq<char>) -> Seq<char> {
    s.take(point_index(s))
}

/// What stands after the first point; empty if there is no point.
pub open spec fn fraction_part(s: Seq<char>) -> Seq<char> {
    if point_index(s) < s.len() {
        s.skip(point_index(s) + 1)
    } else {
        Seq::empty()
    }
}

/// `s` writes a decimal number: digits, at most one point among them, and at
/// least one digit.
pub open spec fn is_decimal_text(s: Seq<char>) -> bool {
    &&& all_digits(whole_part(s))
    &&& all_digits(fraction_part(s))
    &&& whole_part(s).len() + fraction_part(s).len() > 0
}

/// A non-negative decimal number: `mantissa` divided by ten to the `scale`.
pub ghost struct Decimal {
    pub mantissa: nat,
    pub scale: nat,
}

impl Decimal {
    /// `self >= other` as numbers: the quotients are compared by
    /// cross-multiplication, which is exact.
    pub open spec fn not_less_than(self, other: Decimal) -> bool {
        self.mantissa * pow10(other.scale) >= other.mantissa * pow10(self.scale)
    }
}

/// The number that a decimal text writes: its digits without the point, scaled
/// down by the number of digits behind the point.
pub open spec fn decimal_of(s: Seq<char>) -> Decimal {
    Decimal {
        mantissa: digits_value(whole_part(s) + fraction_part(s)),
        scale: fraction_part(s).len(),
    }
}

/// The validator: a proposed score is acceptable when it is not lower than the
/// current one. Equal scores are acceptable.
pub open spec fn acceptable(current: Seq<char>, proposed: Seq<char>) -> bool {
    decimal_of(proposed).not_less_than(decimal_of(current))
}

/// Every number is acceptable after itself: equal scores pass.
pub proof fn lemma_not_less_reflexive(a: Decimal)
    ensures
        a.not_less_than(a),
{
}

/// Of two numbers, one is not less than the other.
pub proof fn lemma_not_less_total(a: Decimal, b: Decimal)
    ensures
        a.not_less_than(b) || b.not_less_than(a),
{
}

/// Not being less carries over a number in between.
pub proof fn lemma_not_less_transitive(a: Decimal, b: Decimal, c: Decimal)
    requires
        a.not_less_than(b),
        b.not_less_than(c),
    ensures
        a.not_less_than(c),
{
    let (pa, pb, pc) = (pow10(a.scale), pow10(b.scale), pow10(c.scale));
    lemma_pow10_positive(a.scale);
    lemma_pow10_positive(b.scale);
    lemma_pow10_positive(c.scale);
    // the two orders, each multiplied by the third power of ten
    assert((a.mantissa * pb) * pc >= (b.mantissa * pa) * pc) by (nonlinear_arith)
        requires
            a.mantissa * pb >= b.mantissa * pa,
    ;
    assert((b.mantissa * pc) * pa >= (c.mantissa * pb) * pa) by (nonlinear_arith)
        requires
            b.mantissa * pc >= c.mantissa * pb,
    ;
    assert((b.mantissa * pa) * pc == (b.mantissa * pc) * pa) by (nonlinear_arith);
    assert((a.mantissa * pb) * pc == (a.mantissa * pc) * pb) by (nonlinear_arith);
    assert((c.mantissa * pb) * pa == (c.mantissa * pa) * pb) by (nonlinear_arith);
    lemma_scale_order(a.mantissa * pc, c.mantissa * pa, pb);
}

/// `point_index` is where the first point stands.
pub proof fn lemma_point_index(s: Seq<char>)
    ensures
        0 <= point_index(s) <= s.len(),
        point_index(s) < s.len() ==> s[point_index(s)] == '.',
        forall|i: int| 0 <= i < point_index(s) ==> #[trigger] s[i] != '.',
    decreases s.len(),
{
    if s.len() == 0 || s[0] == '.' {
    } else {
        let t = s.drop_first();
        lemma_point_index(t);
        assert forall|i: int| 0 <= i < point_index(s) implies #[trigger] s[i] != '.' by {
            if i > 0 {
                assert(s[i] == t[i - 1]);
            }
        }
        if point_index(s) < s.len() {
            assert(s[point_index(s)] == t[point_index(t)]);
        }
    }
}

/// A position with a point or the end, and no point before it, is `point_index`.
pub proof fn lemma_point_index_is(s: Seq<char>, p: int)
    requires
        0 <= p <= s.len(),
        p < s.len() ==> s[p] == '.',
        forall|i: int| 0 <= i < p ==> #[trigger] s[i] != '.',
    ensures
        point_index(s) == p,
{
    lemma_point_index(s);
    let q = point_index(s);
    if q < p {
        assert(s[q] != '.');
    } else if p < q {
        assert(s[p] != '.');
    }
}

/// A decimal text consists of digits and at most one point.
pub proof fn lemma_decimal_text_chars(s: Seq<char>)
    requires
        is_decimal_text(s),
    ensures
        forall|i: int| 0 <= i < s.len() ==> is_digit(#[trigger] s[i]) || s[i] == '.',
        is_ascii_chars(s),
{
    lemma_point_index(s);
    let p = point_index(s);
    assert forall|i: int| 0 <= i < s.len() implies is_digit(#[trigger] s[i]) || s[i] == '.' by {
        if i < p {
            assert(whole_part(s)[i] == s[i]);
        } else if i > p {
            assert(fraction_part(s)[i - p - 1] == s[i]);
        }
    }
}

/// Ten to any power is positive.
pub proof fn lemma_pow10_positive(n: nat)
    ensures
        pow10(n) > 0,
    decreases n,
{
    if n > 0 {
        lemma_pow10_positive((n - 1) as nat);
    }
}

/// Powers of ten multiply by adding the exponents.
pub proof fn lemma_pow10_add(a: nat, b: nat)
    ensures
        pow10(a + b) == pow10(a) * pow10(b),
    decreases a,
{
    if a == 0 {
        assert(pow10(a) == 1);
        assert(1 * pow10(b) == pow10(b));
    } else {
        let a0 = (a - 1) as nat;
        lemma_pow10_add(a0, b);
        assert(pow10(a + b) == 10 * pow10(a0 + b));
        assert(pow10(a) == 10 * pow10(a0));
        assert(10 * (pow10(a0) * pow10(b)) == (10 * pow10(a0)) * pow10(b)) by (nonlinear_arith);
    }
}

/// Multiplying both sides by a positive number keeps an order as it is.
pub(crate) proof fn lemma_scale_order(x: nat, y: nat, m: nat)
    by (nonlinear_arith)
    requires
        m > 0,
    ensures
        (x >= y) == (x * m >= y * m),
{
}

/// `n` zero digits.
pub open spec fn zeros(n: nat) -> Seq<char> {
    Seq::new(n, |i: int| '0')
}

/// A string of zeros writes zero.
pub(crate) proof fn lemma_value_zeros(n: nat)
    ensures
        digits_value(zeros(n)) == 0,
    decreases n,
{
    if n > 0 {
        lemma_value_zeros((n - 1) as nat);
        assert(zeros(n).drop_last() =~= zeros((n - 1) as nat));
    }
}

/// Zeros in front of a digit string do not change the number it writes.
pub(crate) proof fn lemma_value_leading_zeros(n: nat, s: Seq<char>)
    ensures
        digits_value(zeros(n) + s) == digits_value(s),
    decreases s.len(),
{
    if s.len() == 0 {
        assert(zeros(n) + s =~= zeros(n));
        lemma_value_zeros(n);
    } else {
        lemma_value_leading_zeros(n, s.drop_last());
        assert((zeros(n) + s).drop_last() =~= zeros(n) + s.drop_last());
    }
}

/// Each zero behind a digit string multiplies the number it writes by ten.
pub(crate) proof fn lemma_value_trailing_zeros(s: Seq<char>, n: nat)
    ensures
        digits_value(s + zeros(n)) == digits_value(s) * pow10(n),
    decreases n,
{
    if n == 0 {
        assert(s + zeros(n) =~= s);
        assert(pow10(n) == 1);
        assert(digits_value(s) * 1 == digits_value(s));
    } else {
        let m = (n - 1) as nat;
        lemma_value_trailing_zeros(s, m);
        assert((s + zeros(n)).drop_last() =~= s + zeros(m));
        assert((s + zeros(n)).last() == '0');
        assert(pow10(n) == 10 * pow10(m));
        assert(10 * (digits_value(s) * pow10(m)) == digits_value(s) * (10 * pow10(m)))
            by (nonlinear_arith);
    }
}

/// Of two digit strings of one length, the one with the smaller digit at the
/// first place where they differ writes the smaller number.
pub(crate) proof fn lemma_value_first_difference(a: Seq<char>, b: Seq<char>, k: int)
    requires
        a.len() == b.len(),
        all_digits(a),
        all_digits(b),
        0 <= k < a.len(),
        forall|i: int| 0 <= i < k ==> a[i] == b[i],
        a[k] < b[k],
    ensures
        digits_value(a) < digits_value(b),
    decreases a.len(),
{
    let a0 = a.drop_last();
    let b0 = b.drop_last();
    assert(is_digit(a.last()) && is_digit(b.last()));
    if k == a.len() - 1 {
        assert(a0 =~= b0);
    } else {
        assert(all_digits(a0)) by {
            assert forall|i: int| 0 <= i < a0.len() implies is_digit(#[trigger] a0[i]) by {
                assert(a0[i] == a[i]);
            }
        }
        assert(all_digits(b0)) by {
            assert forall|i: int| 0 <= i < b0.len() implies is_digit(#[trigger] b0[i]) by {
                assert(b0[i] == b[i]);
            }
        }
        lemma_value_first_difference(a0, b0, k);
    }
}

/// A decimal text with `w` places before the point and `f` places behind it:
/// zeros fill the places that the text leaves out.
pub open spec fn padded(s: Seq<char>, w: nat, f: nat) -> Seq<char> {
    zeros((w - whole_part(s).len()) as nat) + whole_part(s) + fraction_part(s) + zeros(
        (f - fraction_part(s).len()) as nat,
    )
}

/// What `padded` holds at each place, and the number it writes.
pub(crate) proof fn lemma_padded(s: Seq<char>, w: nat, f: nat)
    requires
        is_decimal_text(s),
        whole_part(s).len() <= w,
        fraction_part(s).len() <= f,
    ensures
        padded(s, w, f).len() == w + f,
        all_digits(padded(s, w, f)),
        forall|j: int|
            0 <= j < w ==> #[trigger] padded(s, w, f)[j] == if j < w - whole_part(s).len() {
                '0'
            } else {
                s[j - (w - whole_part(s).len())]
            },
        forall|j: int|
            0 <= j < f ==> #[trigger] padded(s, w, f)[w + j] == if j < fraction_part(s).len() {
                s[point_index(s) + 1 + j]
            } else {
                '0'
            },
        digits_value(padded(s, w, f)) == decimal_of(s).mantissa * pow10(
            (f - fraction_part(s).len()) as nat,
        ),
{
    lemma_point_index(s);
    let wp = whole_part(s);
    let fp = fraction_part(s);
    let lead = zeros((w - wp.len()) as nat);
    let trail = zeros((f - fp.len()) as nat);
    let q = padded(s, w, f);
    assert forall|j: int| 0 <= j < w implies #[trigger] q[j] == if j < w - wp.len() {
        '0'
    } else {
        s[j - (w - wp.len())]
    } by {
        if j >= w - wp.len() {
            assert(q[j] == wp[j - (w - wp.len())]);
        }
    }
    assert forall|j: int| 0 <= j < f implies #[trigger] q[w + j] == if j < fp.len() {
        s[point_index(s) + 1 + j]
    } else {
        '0'
    } by {
        if j < fp.len() {
            assert(q[w + j] == fp[j]);
        }
    }
    assert forall|j: int| 0 <= j < q.len() implies is_digit(#[trigger] q[j]) by {
        if j < w {
            if j >= w - wp.len() {
                assert(q[j] == wp[j - (w - wp.len())]);
            }
        } else if j - w < fp.len() {
            assert(q[j] == fp[j - w]);
        }
    }
    assert(q =~= lead + ((wp + fp) + trail));
    lemma_value_leading_zeros((w - wp.len()) as nat, (wp + fp) + trail);
    lemma_value_trailing_zeros(wp + fp, (f - fp.len()) as nat);
}

/// Comparing two decimal texts padded to the same places compares the numbers
/// they write.
pub(crate) proof fn lemma_padded_order(current: Seq<char>, proposed: Seq<char>, w: nat, f: nat)
    requires
        is_decimal_text(current),
        is_decimal_text(proposed),
        whole_part(current).len() <= w,
        whole_part(proposed).len() <= w,
        fraction_part(current).len() <= f,
        fraction_part(proposed).len() <= f,
    ensures
        acceptable(current, proposed) == (digits_value(padded(proposed, w, f)) >= digits_value(
            padded(current, w, f),
        )),
{
    lemma_padded(current, w, f);
    lemma_padded(proposed, w, f);
    let mc = decimal_of(current).mantissa;
    let mp = decimal_of(proposed).mantissa;
    let sc = decimal_of(current).scale;
    let sp = decimal_of(proposed).scale;
    let uc = pow10((f - sc) as nat);
    let up = pow10((f - sp) as nat);
    let xc = pow10(sc);
    let xp = pow10(sp);
    let t = pow10(f);
    lemma_pow10_add((f - sc) as nat, sc);
    lemma_pow10_add((f - sp) as nat, sp);
    lemma_pow10_positive(f);
    lemma_pow10_positive(sc);
    lemma_pow10_positive(sp);
    assert(xc * xp > 0) by (nonlinear_arith)
        requires
            xc > 0,
            xp > 0,
    ;
    lemma_scale_order(mp * up, mc * uc, xc * xp);
    assert((mp * up) * (xc * xp) == (mp * xc) * t) by (nonlinear_arith)
        requires
            up * xp == t,
    ;
    assert((mc * uc) * (xc * xp) == (mc * xp) * t) by (nonlinear_arith)
        requires
            uc * xc == t,
    ;
    lemma_scale_order(mp * xc, mc * xp, t);
}

} // verus!
