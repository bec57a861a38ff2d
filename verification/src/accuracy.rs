//! Accuracy scores, and the rule that a new score may not be lower than the
//! recorded one.

use crate::decimal::{
    acceptable, all_digits, digits_value, fraction_part, is_decimal_text, is_digit,
    lemma_decimal_text_chars, lemma_padded, lemma_padded_order, lemma_point_index,
    lemma_point_index_is, lemma_value_first_difference, padded, point_index, whole_part,
};
use vstd::prelude::*;
use vstd::string::*;
use vstd::utf8::is_ascii_chars;

verus! {

/// An accuracy score: a decimal text that has been checked.
#[derive(Debug, PartialEq, Eq)]
pub struct Accuracy {
    text: String,
    point: usize,
}

impl View for Accuracy {
    type V = Seq<char>;

    /// The text of the score, as it was given.
    closed spec fn view(&self) -> Seq<char> {
        self.text@
    }
}

impl Accuracy {
    /// What holds of every score: its text is a decimal text.
    #[verifier::type_invariant]
    pub closed spec fn well_formed(self) -> bool {
        &&& is_decimal_text(self.text@)
        &&& self.point == point_index(self.text@)
    }

    /// A well-formed score holds a decimal text.
    pub proof fn lemma_decimal_text(self)
        requires
            self.well_formed(),
        ensures
            is_decimal_text(self@),
    {
    }

    /// Reads a score from `text`. It is there exactly when `text` is a decimal
    /// text, and then keeps `text` as it is.
    pub fn parse(text: &str) -> (score: Option<Accuracy>)
        ensures
            score is Some <==> is_decimal_text(text@),
            score matches Some(a) ==> a@ == text@,
    {
        if !text.is_ascii() {
            proof {
                if is_decimal_text(text@) {
                    lemma_decimal_text_chars(text@);
                }
            }
            return None;
        }
        let bytes = text.as_bytes();
        let n = bytes.len();
        proof {
            is_ascii_spec_bytes(text);
            lemma_point_index(text@);
        }
        let mut i: usize = 0;
        while i < n && is_digit_byte(bytes[i])
            invariant
                i <= n,
                n == text@.len(),
                is_ascii_chars(text@),
                bytes@ == Seq::new(text@.len(), |k: int| text@[k] as u8),
                forall|k: int| 0 <= k < i ==> is_digit(#[trigger] text@[k]),
            decreases n - i,
        {
            i += 1;
        }
        let point = i;
        if point < n && bytes[point] != 46u8 {
            proof {
                let c = text@[point as int];
                assert(!is_digit(c) && c != '.');
                let p = point_index(text@);
                if point < p {
                    assert(whole_part(text@)[point as int] == c);
                } else {
                    assert(fraction_part(text@)[point - p - 1] == c);
                }
            }
            return None;
        }
        proof {
            lemma_point_index_is(text@, point as int);
        }
        let mut j: usize = if point < n { point + 1 } else { n };
        while j < n
            invariant
                point < j || j == n,
                j <= n,
                n == text@.len(),
                is_ascii_chars(text@),
                point == point_index(text@),
                bytes@ == Seq::new(text@.len(), |k: int| text@[k] as u8),
                forall|k: int| point < k < j ==> is_digit(#[trigger] text@[k]),
            decreases n - j,
        {
            if !is_digit_byte(bytes[j]) {
                proof {
                    assert(fraction_part(text@)[j - point - 1] == text@[j as int]);
                }
                return None;
            }
            j += 1;
        }
        proof {
            assert(all_digits(whole_part(text@)));
            assert(all_digits(fraction_part(text@))) by {
                let fp = fraction_part(text@);
                assert forall|k: int| 0 <= k < fp.len() implies is_digit(#[trigger] fp[k]) by {
                    assert(fp[k] == text@[point + 1 + k]);
                }
            }
        }
        if n == 0 || (n == 1 && point == 0) {
            return None;
        }
        Some(Accuracy { text: text.to_owned(), point })
    }

    /// The score zero, written `0`.
    pub fn zero() -> (score: Accuracy)
        ensures
            score@ == seq!['0'],
            is_decimal_text(score@),
    {
        let text = "0";
        proof {
            reveal_strlit("0");
            let s = text@;
            assert(s =~= seq!['0']);
            assert(s.drop_first().len() == 0);
            assert(point_index(s.drop_first()) == 0);
            assert(point_index(s) == 1);
            assert(whole_part(s) =~= s);
        }
        Accuracy { text: text.to_owned(), point: 1 }
    }

    /// The text of the score.
    pub fn text(&self) -> (t: &str)
        ensures
            t@ == self@,
            is_decimal_text(t@),
    {
        proof {
            use_type_invariant(self);
        }
        self.text.as_str()
    }
}

impl Clone for Accuracy {
    fn clone(&self) -> (copy: Accuracy)
        ensures
            copy@ == self@,
    {
        proof {
            use_type_invariant(self);
        }
        Accuracy { text: self.text.clone(), point: self.point }
    }
}

/// `b` is the byte of a decimal digit.
fn is_digit_byte(b: u8) -> (yes: bool)
    ensures
        yes == (48 <= b <= 57),
{
    48u8 <= b && b <= 57u8
}

/// The digit that `text`, a decimal text with its point at `point`, has at
/// place `j` of `w` places before the point.
fn whole_digit(bytes: &[u8], point: usize, w: usize, j: usize) -> (d: u8)
    requires
        point <= bytes.len(),
        point <= w,
        j < w,
    ensures
        d == if j < w - point {
            48u8
        } else {
            bytes[j - (w - point)]
        },
{
    if j < w - point {
        48u8
    } else {
        bytes[j - (w - point)]
    }
}

/// The digit that a decimal text has at place `j` behind its point at `point`.
fn fraction_digit(bytes: &[u8], point: usize, j: usize) -> (d: u8)
    requires
        point <= bytes.len(),
    ensures
        d == if point < bytes.len() && j < bytes.len() - point - 1 {
            bytes[point + 1 + j]
        } else {
            48u8
        },
{
    if point < bytes.len() && j < bytes.len() - point - 1 {
        bytes[point + 1 + j]
    } else {
        48u8
    }
}

/// The validator: whether `proposed` may replace `current`, which it may when
/// it is not the lower number of the two.
pub fn is_acceptable_accuracy(current: &Accuracy, proposed: &Accuracy) -> (ok: bool)
    ensures
        ok == acceptable(current@, proposed@),
{
    let c = current.text.as_str();
    let p = proposed.text.as_str();
    proof {
        use_type_invariant(current);
        use_type_invariant(proposed);
        lemma_decimal_text_chars(c@);
        lemma_decimal_text_chars(p@);
        is_ascii_spec_bytes(c);
        is_ascii_spec_bytes(p);
        lemma_point_index(c@);
        lemma_point_index(p@);
    }
    let cb = c.as_bytes();
    let pb = p.as_bytes();
    let cw = current.point;
    let pw = proposed.point;
    let cf: usize = if cw < cb.len() { cb.len() - cw - 1 } else { 0 };
    let pf: usize = if pw < pb.len() { pb.len() - pw - 1 } else { 0 };
    let w = if cw < pw { pw } else { cw };
    let f = if cf < pf { pf } else { cf };
    let ghost cq = padded(c@, w as nat, f as nat);
    let ghost pq = padded(p@, w as nat, f as nat);
    proof {
        lemma_padded(c@, w as nat, f as nat);
        lemma_padded(p@, w as nat, f as nat);
        lemma_padded_order(c@, p@, w as nat, f as nat);
    }
    let mut i: usize = 0;
    while i < w
        invariant
            i <= w,
            cw <= w,
            pw <= w,
            cw <= cb.len(),
            pw <= pb.len(),
            cw == whole_part(c@).len(),
            pw == whole_part(p@).len(),
            cb@ == Seq::new(c@.len(), |k: int| c@[k] as u8),
            pb@ == Seq::new(p@.len(), |k: int| p@[k] as u8),
            cq.len() == w + f,
            pq.len() == w + f,
            all_digits(cq),
            all_digits(pq),
            forall|j: int|
                0 <= j < w ==> #[trigger] cq[j] == if j < w - cw {
                    '0'
                } else {
                    c@[j - (w - cw)]
                },
            forall|j: int|
                0 <= j < w ==> #[trigger] pq[j] == if j < w - pw {
                    '0'
                } else {
                    p@[j - (w - pw)]
                },
            forall|j: int| 0 <= j < i ==> cq[j] == pq[j],
            acceptable(current@, proposed@) == (digits_value(pq) >= digits_value(cq)),
        decreases w - i,
    {
        let dc = whole_digit(cb, cw, w, i);
        let dp = whole_digit(pb, pw, w, i);
        proof {
            assert(is_digit(cq[i as int]) && is_digit(pq[i as int]));
            assert(cq[i as int] as u8 == dc);
            assert(pq[i as int] as u8 == dp);
        }
        if dp < dc {
            proof {
                lemma_value_first_difference(pq, cq, i as int);
            }
            return false;
        }
        if dc < dp {
            proof {
                lemma_value_first_difference(cq, pq, i as int);
            }
            return true;
        }
        i += 1;
    }
    let mut j: usize = 0;
    while j < f
        invariant
            j <= f,
            cw <= cb.len(),
            pw <= pb.len(),
            cw == point_index(c@),
            pw == point_index(p@),
            cf == fraction_part(c@).len(),
            pf == fraction_part(p@).len(),
            cf <= f,
            pf <= f,
            cb@ == Seq::new(c@.len(), |k: int| c@[k] as u8),
            pb@ == Seq::new(p@.len(), |k: int| p@[k] as u8),
            cq.len() == w + f,
            pq.len() == w + f,
            all_digits(cq),
            all_digits(pq),
            forall|k: int|
                0 <= k < f ==> #[trigger] cq[w + k] == if k < cf {
                    c@[cw + 1 + k]
                } else {
                    '0'
                },
            forall|k: int|
                0 <= k < f ==> #[trigger] pq[w + k] == if k < pf {
                    p@[pw + 1 + k]
                } else {
                    '0'
                },
            forall|k: int| 0 <= k < w + j ==> cq[k] == pq[k],
            acceptable(current@, proposed@) == (digits_value(pq) >= digits_value(cq)),
        decreases f - j,
    {
        let dc = fraction_digit(cb, cw, j);
        let dp = fraction_digit(pb, pw, j);
        proof {
            assert(is_digit(cq[w + j]) && is_digit(pq[w + j]));
            assert(cq[w + j] as u8 == dc);
            assert(pq[w + j] as u8 == dp);
        }
        if dp < dc {
            proof {
                lemma_value_first_difference(pq, cq, w + j);
            }
            return false;
        }
        if dc < dp {
            proof {
                lemma_value_first_difference(cq, pq, w + j);
            }
            return true;
        }
        j += 1;
    }
    proof {
        assert(cq =~= pq);
    }
    true
}

} // verus!
