//! The digit side of a conversion: the buffer of emitted digits, the
//! round-to-nearest-even decision with its backward carry walk, and the
//! assembly of the final string.

use vstd::pervasive::VecAdditionalExecFns;
use vstd::prelude::*;
use vstd::string::StringExecFns;

verus! {

/// The character standing for a digit value: `0`-`9` for values below ten,
/// then lowercase `a`-`z`.
pub open spec fn digit_char(d: u8) -> char {
    if d < 10 {
        (d + 48) as char
    } else {
        (d + 87) as char
    }
}

/// Returns the character standing for a digit value.
pub fn digit_to_char(d: u8) -> (c: char)
    requires
        d < 36,
    ensures
        c == digit_char(d),
{
    if d < 10 {
        (d + 48) as char
    } else {
        (d + 87) as char
    }
}

/// Outcome of one fractional-digit step.
#[derive(Clone, Copy, Debug, PartialEq, Eq, Structural)]
pub enum FracStep {
    /// More fractional digits are owed.
    Continue,
    /// The fractional part is complete.
    Done,
    /// The fractional part is complete and the round-up walked off its left
    /// end: the caller owes one to the integer part.
    CarryInteger,
}

/// The backward carry walk over emitted fractional digits: the last digit
/// that is below `base - 1` is incremented and everything to its right is
/// dropped; if every digit equals `base - 1`, all of them are dropped and
/// the carry leaves the fractional part (second component `true`).
pub open spec fn spec_carry(frac: Seq<u8>, base: u8) -> (Seq<u8>, bool)
    decreases frac.len(),
{
    if frac.len() == 0 {
        (frac, true)
    } else if frac.last() + 1 < base {
        (frac.drop_last().push((frac.last() + 1) as u8), false)
    } else {
        spec_carry(frac.drop_last(), base)
    }
}

/// Round-to-nearest-even: round up when the remaining fraction exceeds one
/// half, or ties with an odd last digit, provided the remainder plus the
/// precision unit still crosses one.
pub open spec fn spec_needs_round_up(
    digit: u8,
    gt_half: bool,
    eq_half: bool,
    sum_gt_one: bool,
) -> bool {
    (gt_half || (eq_half && digit % 2 == 1)) && sum_gt_one
}

/// One fractional-digit step: the digit is appended, then either the
/// round-up carry rewrites the tail, or the step reports whether the
/// precision limit (`below_delta`) has been reached.
pub open spec fn spec_frac_step(
    frac: Seq<u8>,
    base: u8,
    digit: u8,
    gt_half: bool,
    eq_half: bool,
    sum_gt_one: bool,
    below_delta: bool,
) -> (Seq<u8>, FracStep) {
    let pushed = frac.push(digit);
    if spec_needs_round_up(digit, gt_half, eq_half, sum_gt_one) {
        let (rounded, carry) = spec_carry(pushed, base);
        (rounded, if carry { FracStep::CarryInteger } else { FracStep::Done })
    } else if below_delta {
        (pushed, FracStep::Done)
    } else {
        (pushed, FracStep::Continue)
    }
}

/// Every digit of `s` lies below `b`.
pub open spec fn all_digits_below(s: Seq<u8>, b: u8) -> bool {
    forall|i: int| 0 <= i < s.len() ==> #[trigger] s[i] < b
}

proof fn lemma_push_below(s: Seq<u8>, d: u8, b: u8)
    requires
        all_digits_below(s, b),
        d < b,
    ensures
        all_digits_below(s.push(d), b),
{
    assert forall|i: int| 0 <= i < s.push(d).len() implies #[trigger] s.push(d)[i] < b by {
        if i < s.len() {
            assert(s[i] < b);
        }
    }
}

proof fn lemma_drop_last_below(s: Seq<u8>, b: u8)
    requires
        all_digits_below(s, b),
        s.len() > 0,
    ensures
        all_digits_below(s.drop_last(), b),
{
    assert forall|i: int| 0 <= i < s.drop_last().len() implies #[trigger] s.drop_last()[i] < b by {
        assert(s[i] < b);
    }
}

/// The digit buffer of one conversion: integer digits are collected least
/// significant first, fractional digits in emission order, and the sign is
/// fixed at construction.
pub struct DigitBuilder {
    base: u8,
    negative: bool,
    int_lsd: Vec<u8>,
    frac: Vec<u8>,
}

impl DigitBuilder {
    /// The base the builder was constructed with.
    pub closed spec fn base_spec(&self) -> u8 {
        self.base
    }

    /// Whether the converted value was negative.
    pub closed spec fn negative_spec(&self) -> bool {
        self.negative
    }

    /// The integer digits collected so far, least significant first.
    pub closed spec fn int_digits(&self) -> Seq<u8> {
        self.int_lsd@
    }

    /// The fractional digits collected so far, in emission order.
    pub closed spec fn frac_digits(&self) -> Seq<u8> {
        self.frac@
    }

    /// The builder's invariant: a base in range, and every digit below it.
    pub open spec fn wf(&self) -> bool {
        &&& crate::MIN_BASE <= self.base_spec() <= crate::MAX_BASE
        &&& all_digits_below(self.int_digits(), self.base_spec())
        &&& all_digits_below(self.frac_digits(), self.base_spec())
    }

    /// Starts an empty buffer for one conversion.
    pub fn new(base: u8, negative: bool) -> (b: DigitBuilder)
        requires
            crate::MIN_BASE <= base <= crate::MAX_BASE,
        ensures
            b.wf(),
            b.base_spec() == base,
            b.negative_spec() == negative,
            b.int_digits() == Seq::<u8>::empty(),
            b.frac_digits() == Seq::<u8>::empty(),
    {
        DigitBuilder { base, negative, int_lsd: Vec::new(), frac: Vec::new() }
    }

    /// Appends one integer digit (the next less significant one, or a
    /// placeholder zero for magnitudes beyond the value's precision).
    pub fn push_int_digit(&mut self, digit: u8)
        requires
            old(self).wf(),
            digit < old(self).base_spec(),
        ensures
            final(self).wf(),
            final(self).base_spec() == old(self).base_spec(),
            final(self).negative_spec() == old(self).negative_spec(),
            final(self).frac_digits() == old(self).frac_digits(),
            final(self).int_digits() == old(self).int_digits().push(digit),
    {
        self.int_lsd.push(digit);
        proof {
            lemma_push_below(old(self).int_digits(), digit, old(self).base_spec());
        }
    }

    /// One step of fractional digit generation: `digit` is the integer part
    /// of the scaled fraction, and the three comparison outcomes describe
    /// the remainder against one half and against one. Decides, exactly as
    /// [`spec_frac_step`] states, whether to round up (walking the carry
    /// backward through the digits already written), to stop at the
    /// precision limit, or to continue.
    #[verifier::loop_isolation(false)]
    pub fn frac_step(
        &mut self,
        digit: u8,
        gt_half: bool,
        eq_half: bool,
        sum_gt_one: bool,
        below_delta: bool,
    ) -> (r: FracStep)
        requires
            old(self).wf(),
            digit < old(self).base_spec(),
        ensures
            final(self).wf(),
            final(self).base_spec() == old(self).base_spec(),
            final(self).negative_spec() == old(self).negative_spec(),
            final(self).int_digits() == old(self).int_digits(),
            ({
                let (digits, step) = spec_frac_step(
                    old(self).frac_digits(),
                    old(self).base_spec(),
                    digit,
                    gt_half,
                    eq_half,
                    sum_gt_one,
                    below_delta,
                );
                final(self).frac_digits() == digits && r == step
            }),
    {
        self.frac.push(digit);
        let ghost pushed: Seq<u8> = self.frac@;
        proof {
            lemma_push_below(old(self).frac_digits(), digit, old(self).base_spec());
        }

        if (gt_half || (eq_half && digit % 2 == 1)) && sum_gt_one {
            loop
                invariant
                    self.base == old(self).base,
                    self.negative == old(self).negative,
                    self.int_lsd@ == old(self).int_lsd@,
                    all_digits_below(self.frac@, self.base),
                    spec_carry(self.frac@, self.base) == spec_carry(pushed, self.base),
                decreases self.frac@.len(),
            {
                let n = self.frac.len();
                if n == 0 {
                    return FracStep::CarryInteger;
                }

                let last = self.frac[n - 1];
                if last + 1 < self.base {
                    let ghost before = self.frac@;
                    self.frac.set(n - 1, last + 1);
                    proof {
                        assert(before.last() == last);
                        assert(self.frac@ =~= before.drop_last().push((last + 1) as u8));
                        lemma_drop_last_below(before, self.base);
                        lemma_push_below(before.drop_last(), (last + 1) as u8, self.base);
                    }
                    return FracStep::Done;
                }

                let ghost before = self.frac@;
                self.frac.pop();
                proof {
                    assert(self.frac@ =~= before.drop_last());
                    lemma_drop_last_below(before, self.base);
                }
            }
        } else if below_delta {
            FracStep::Done
        } else {
            FracStep::Continue
        }
    }

    /// Assembles the final string: the optional minus sign, the integer
    /// digits most significant first, and, if any fractional digits were
    /// kept, the decimal point followed by them.
    #[verifier::loop_isolation(false)]
    pub fn finish(&self) -> (s: String)
        requires
            self.wf(),
            self.int_digits().len() > 0,
        ensures
            s@ == spec_radix_string(self.negative_spec(), self.int_digits(), self.frac_digits()),
    {
        proof {
            reveal_strlit("");
            reveal_strlit("-");
            reveal_strlit(".");
        }

        let mut s = String::from_str("");
        if self.negative {
            s.append("-");
        }
        proof {
            assert(s@ =~= spec_sign_seq(self.negative_spec()));
        }
        let ghost sign_part: Seq<char> = s@;

        let n = self.int_lsd.len();
        let mut j: usize = 0;
        while j < n
            invariant
                j <= n,
                s@ == sign_part + spec_digit_chars(self.int_digits().reverse().take(j as int)),
            decreases n - j,
        {
            let d = self.int_lsd[n - 1 - j];
            proof {
                assert(self.int_digits()[n - 1 - j as int] < self.base_spec());
                assert(self.int_digits().reverse()[j as int] == d);
            }
            s.append(digit_str(d));
            proof {
                assert(spec_digit_chars(self.int_digits().reverse().take(j + 1)) =~= spec_digit_chars(
                    self.int_digits().reverse().take(j as int),
                ).push(digit_char(d)));
                assert(s@ =~= sign_part + spec_digit_chars(
                    self.int_digits().reverse().take(j + 1),
                ));
            }
            j += 1;
        }
        proof {
            assert(self.int_digits().reverse().take(n as int) =~= self.int_digits().reverse());
        }
        let ghost int_part: Seq<char> = s@;

        if self.frac.len() > 0 {
            s.append(".");
            proof {
                assert(s@ =~= int_part + seq!['.'] + spec_digit_chars(
                    self.frac_digits().take(0),
                ));
            }
            let m = self.frac.len();
            let mut k: usize = 0;
            while k < m
                invariant
                    k <= m,
                    s@ == int_part + seq!['.'] + spec_digit_chars(self.frac_digits().take(k as int)),
                decreases m - k,
            {
                let d = self.frac[k];
                proof {
                    assert(self.frac_digits()[k as int] < self.base_spec());
                }
                s.append(digit_str(d));
                proof {
                    assert(spec_digit_chars(self.frac_digits().take(k + 1)) =~= spec_digit_chars(
                        self.frac_digits().take(k as int),
                    ).push(digit_char(d)));
                    assert(s@ =~= int_part + seq!['.'] + spec_digit_chars(
                        self.frac_digits().take(k + 1),
                    ));
                }
                k += 1;
            }
            proof {
                assert(self.frac_digits().take(m as int) =~= self.frac_digits());
            }
        }

        proof {
            assert(s@ =~= spec_radix_string(
                self.negative_spec(),
                self.int_digits(),
                self.frac_digits(),
            ));
        }
        s
    }
}

/// The sign prefix of a conversion: a minus sign for negative values,
/// nothing otherwise.
pub open spec fn spec_sign_seq(negative: bool) -> Seq<char> {
    if negative {
        seq!['-']
    } else {
        Seq::<char>::empty()
    }
}

/// The characters standing for a sequence of digit values.
pub open spec fn spec_digit_chars(ds: Seq<u8>) -> Seq<char> {
    ds.map_values(|d: u8| digit_char(d))
}

/// The fractional suffix: the decimal point followed by the fractional
/// digits, or nothing when no fractional digit was kept.
pub open spec fn spec_fraction_part(frac: Seq<u8>) -> Seq<char> {
    if frac.len() > 0 {
        seq!['.'] + spec_digit_chars(frac)
    } else {
        Seq::<char>::empty()
    }
}

/// The complete text of a conversion, from the sign and the two digit
/// sequences (integer digits least significant first).
pub open spec fn spec_radix_string(negative: bool, int_lsd: Seq<u8>, frac: Seq<u8>) -> Seq<char> {
    spec_sign_seq(negative) + spec_digit_chars(int_lsd.reverse()) + spec_fraction_part(frac)
}

/// Returns a one-character string slice standing for a digit value.
pub fn digit_str(d: u8) -> (s: &'static str)
    requires
        d < 36,
    ensures
        s@.len() == 1,
        s@[0] == digit_char(d),
{
    proof {
        reveal_strlit("0");
        reveal_strlit("1");
        reveal_strlit("2");
        reveal_strlit("3");
        reveal_strlit("4");
        reveal_strlit("5");
        reveal_strlit("6");
        reveal_strlit("7");
        reveal_strlit("8");
        reveal_strlit("9");
        reveal_strlit("a");
        reveal_strlit("b");
        reveal_strlit("c");
        reveal_strlit("d");
        reveal_strlit("e");
        reveal_strlit("f");
        reveal_strlit("g");
        reveal_strlit("h");
        reveal_strlit("i");
        reveal_strlit("j");
        reveal_strlit("k");
        reveal_strlit("l");
        reveal_strlit("m");
        reveal_strlit("n");
        reveal_strlit("o");
        reveal_strlit("p");
        reveal_strlit("q");
        reveal_strlit("r");
        reveal_strlit("s");
        reveal_strlit("t");
        reveal_strlit("u");
        reveal_strlit("v");
        reveal_strlit("w");
        reveal_strlit("x");
        reveal_strlit("y");
        reveal_strlit("z");
    }
    match d {
        0 => "0",
        1 => "1",
        2 => "2",
        3 => "3",
        4 => "4",
        5 => "5",
        6 => "6",
        7 => "7",
        8 => "8",
        9 => "9",
        10 => "a",
        11 => "b",
        12 => "c",
        13 => "d",
        14 => "e",
        15 => "f",
        16 => "g",
        17 => "h",
        18 => "i",
        19 => "j",
        20 => "k",
        21 => "l",
        22 => "m",
        23 => "n",
        24 => "o",
        25 => "p",
        26 => "q",
        27 => "r",
        28 => "s",
        29 => "t",
        30 => "u",
        31 => "v",
        32 => "w",
        33 => "x",
        34 => "y",
        _ => "z",
    }
}

/// Law: a negative conversion's text is the minus sign followed by the text
/// of the same digits taken positive — the sign changes nothing else.
pub proof fn lemma_sign_propagation(int_lsd: Seq<u8>, frac: Seq<u8>)
    ensures
        spec_radix_string(true, int_lsd, frac) == seq!['-'] + spec_radix_string(
            false,
            int_lsd,
            frac,
        ),
{
    assert(spec_radix_string(true, int_lsd, frac) =~= seq!['-'] + spec_radix_string(
        false,
        int_lsd,
        frac,
    ));
}

/// Law (determinism): the assembled text is a function of the sign and the
/// collected digits alone, so two conversions that reached the same state
/// produce the same string.
pub proof fn lemma_radix_string_deterministic(a: &DigitBuilder, b: &DigitBuilder)
    requires
        a.negative_spec() == b.negative_spec(),
        a.int_digits() == b.int_digits(),
        a.frac_digits() == b.frac_digits(),
    ensures
        spec_radix_string(a.negative_spec(), a.int_digits(), a.frac_digits())
            == spec_radix_string(b.negative_spec(), b.int_digits(), b.frac_digits()),
{
}

} // verus!
