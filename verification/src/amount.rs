//! Transaction amounts.
//!
//! An amount field is a plain unsigned decimal: a run of digits, optionally
//! followed by a decimal point and a further run of digits, fifteen digits
//! in all at most. An `Amount` keeps the source text verbatim together with
//! its value as an integer mantissa and a decimal scale:
//! the numeric value is `mantissa / 10^scale`.

use crate::text::{
    all_digit_chars, digits_val, find_char, find_char_from, lemma_digits_val_bound,
    lemma_digits_val_concat, lemma_pow10_15, lemma_pow10_add, lemma_pow10_mono, pow10,
    read_digits_u64,
};
use vstd::prelude::*;
use vstd::string::*;

verus! {

#[derive(Debug, Clone)]
pub struct Amount {
    /// The source field, verbatim.
    pub text: String,
    /// All digits of the source field read as one integer.
    pub mantissa: u64,
    /// How many of the mantissa's trailing digits stand after the point.
    pub scale: u32,
}

#[verifier::ext_equal]
pub ghost struct AmountView {
    pub text: Seq<char>,
    pub mantissa: nat,
    pub scale: nat,
}

impl View for Amount {
    type V = AmountView;

    open spec fn view(&self) -> AmountView {
        AmountView { text: self.text@, mantissa: self.mantissa as nat, scale: self.scale as nat }
    }
}

impl DeepView for Amount {
    type V = AmountView;

    open spec fn deep_view(&self) -> AmountView {
        self.view()
    }
}

/// The (mantissa, scale) reading of `s` as an unsigned decimal numeral, or
/// `None` when `s` is not one of at most fifteen digits.
pub open spec fn amount_parts(s: Seq<char>) -> Option<(nat, nat)> {
    let p = find_char_from(s, '.', 0);
    if p == s.len() {
        if 1 <= s.len() <= 15 && all_digit_chars(s) {
            Some((digits_val(s), 0))
        } else {
            None
        }
    } else {
        let whole = s.subrange(0, p);
        let frac = s.subrange(p + 1, s.len() as int);
        if whole.len() >= 1 && frac.len() >= 1 && s.len() <= 16 && all_digit_chars(whole)
            && all_digit_chars(frac) {
            Some((digits_val(whole + frac), frac.len()))
        } else {
            None
        }
    }
}

pub open spec fn amount_wf(a: AmountView) -> bool {
    amount_parts(a.text) == Some((a.mantissa, a.scale))
}

fn pow10_u64(n: usize) -> (r: u64)
    requires
        n <= 15,
    ensures
        r == pow10(n as nat),
{
    let mut r: u64 = 1;
    let mut i: usize = 0;
    while i < n
        invariant
            0 <= i <= n <= 15,
            r == pow10(i as nat),
        decreases n - i,
    {
        proof {
            lemma_pow10_mono(i as nat, 14);
            lemma_pow10_15();
            assert(pow10(14) * 10 == pow10(15));
        }
        r = r * 10;
        i = i + 1;
    }
    r
}

/// Parses an amount field, keeping its text verbatim beside its value.
pub fn parse_amount(s: &str) -> (r: Option<Amount>)
    ensures
        match r {
            Some(a) => amount_parts(s@) == Some((a.mantissa as nat, a.scale as nat)) && a.text@
                == s@ && amount_wf(a@),
            None => amount_parts(s@) is None,
        },
{
    let n = s.unicode_len();
    let p = find_char(s, '.', 0);
    if p == n {
        if n < 1 || n > 15 {
            return None;
        }
        match read_digits_u64(s, 0, n) {
            Some(v) => {
                proof {
                    assert(s@.subrange(0, n as int) =~= s@);
                }
                Some(Amount { text: s.to_owned(), mantissa: v, scale: 0 })
            },
            None => {
                proof {
                    assert(s@.subrange(0, n as int) =~= s@);
                }
                None
            },
        }
    } else {
        let fl = n - p - 1;
        if p < 1 || fl < 1 || n > 16 {
            return None;
        }
        let w = match read_digits_u64(s, 0, p) {
            Some(v) => v,
            None => {
                return None;
            },
        };
        let f = match read_digits_u64(s, p + 1, n) {
            Some(v) => v,
            None => {
                return None;
            },
        };
        let ghost whole = s@.subrange(0, p as int);
        let ghost frac = s@.subrange(p + 1, n as int);
        let mult = pow10_u64(fl);
        proof {
            lemma_digits_val_bound(whole);
            lemma_digits_val_bound(frac);
            lemma_pow10_add(whole.len(), frac.len());
            lemma_pow10_mono((whole.len() + frac.len()) as nat, 15);
            lemma_pow10_15();
            assert(w * mult <= (pow10(whole.len()) - 1) * pow10(frac.len())) by (nonlinear_arith)
                requires
                    w <= pow10(whole.len()) - 1,
                    mult == pow10(frac.len()),
                    mult >= 0,
            ;
            assert((pow10(whole.len()) - 1) * pow10(frac.len()) == pow10(whole.len()) * pow10(
                frac.len(),
            ) - pow10(frac.len())) by (nonlinear_arith);
            lemma_digits_val_concat(whole, frac);
        }
        let mantissa = w * mult + f;
        Some(Amount { text: s.to_owned(), mantissa, scale: fl as u32 })
    }
}

} // verus!
