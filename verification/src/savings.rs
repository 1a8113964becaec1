//! How many tokens a wrapped command saved, and what share of the
//! unwrapped cost that is.

use vstd::prelude::*;

verus! {

/// The millionths of a percent that make up the whole: 100 %.
pub const FULL_MICROS: u64 = 100_000_000;

/// Tokens saved by a command that would have cost `input` tokens unwrapped
/// and cost `output` wrapped: the difference, and nothing where the wrapped
/// command cost more.
pub open spec fn saved(input: nat, output: nat) -> nat {
    if input >= output {
        (input - output) as nat
    } else {
        0
    }
}

/// `part` as a share of `whole`, in millionths of a percent, rounded down;
/// zero where `whole` is zero.
pub open spec fn share_micros(part: nat, whole: nat) -> nat {
    if whole > 0 {
        part * (FULL_MICROS as nat) / whole
    } else {
        0
    }
}

/// The mean of percentages that add up to `sum` millionths of a percent
/// over `count` records, rounded down; zero where there is no record.
pub open spec fn mean_micros(sum: nat, count: nat) -> nat {
    if count > 0 {
        sum / count
    } else {
        0
    }
}

/// A percentage between 0 % and 100 %, held in millionths of a percent.
///
/// Its view is that number of millionths.
#[derive(Clone, Copy, Debug, PartialEq, Eq, Structural)]
pub struct Percent {
    micros: u64,
}

impl View for Percent {
    type V = nat;

    closed spec fn view(&self) -> nat {
        self.micros as nat
    }
}

impl Percent {
    #[verifier::type_invariant]
    spec fn at_most_full(self) -> bool {
        self.micros <= FULL_MICROS
    }

    /// 0 %.
    pub fn zero() -> (p: Percent)
        ensures
            p@ == 0,
    {
        Percent { micros: 0 }
    }

    /// The percentage of `micros` millionths of a percent, if that is at
    /// most 100 %.
    pub fn from_micros(micros: u64) -> (p: Option<Percent>)
        ensures
            p is Some <==> micros <= FULL_MICROS,
            p is Some ==> p->0@ == micros,
    {
        if micros <= FULL_MICROS {
            Some(Percent { micros })
        } else {
            None
        }
    }

    /// This percentage in millionths of a percent: 80 % is 80 000 000.
    pub fn micros(&self) -> (micros: u64)
        ensures
            micros == self@,
            micros <= FULL_MICROS,
    {
        proof {
            use_type_invariant(self);
        }
        self.micros
    }

    /// `part` as a percentage of `whole`, of which it is a part. Of an empty
    /// whole every part is 0 %.
    pub(crate) fn of(part: usize, whole: usize) -> (p: Percent)
        requires
            part <= whole,
        ensures
            p@ == share_micros(part as nat, whole as nat),
    {
        if whole == 0 {
            return Percent { micros: 0 };
        }
        let scaled: u128 = (part as u128) * (FULL_MICROS as u128);
        let micros: u128 = scaled / (whole as u128);
        proof {
            lemma_share_at_most_full(part as nat, whole as nat);
        }
        Percent { micros: micros as u64 }
    }

    /// The mean of `count` percentages that add up to `sum` millionths of a
    /// percent. The mean of no percentage is 0 %.
    pub(crate) fn mean(sum: u128, count: usize) -> (p: Percent)
        requires
            sum <= count * FULL_MICROS,
        ensures
            p@ == mean_micros(sum as nat, count as nat),
    {
        if count == 0 {
            return Percent { micros: 0 };
        }
        let micros: u128 = sum / (count as u128);
        proof {
            lemma_mean_at_most_full(sum as nat, count as nat);
        }
        Percent { micros: micros as u64 }
    }
}

/// Where the wrapped command cost no more than the unwrapped one, the
/// saving is the difference of the two costs.
pub proof fn lemma_saving_is_difference(input: nat, output: nat)
    requires
        input >= output,
    ensures
        saved(input, output) == input - output,
{
}

/// Where the wrapped command cost more than the unwrapped one, nothing was
/// saved: a saving is never negative.
pub proof fn lemma_no_negative_saving(input: nat, output: nat)
    requires
        output > input,
    ensures
        saved(input, output) == 0,
{
}

/// The share is the exact quotient `part / whole * 100 %`, cut off at a
/// millionth of a percent: it is at most the quotient and less than a
/// millionth of a percent below it. Of an empty whole it is exactly zero.
pub proof fn lemma_share_is_quotient(part: nat, whole: nat)
    ensures
        whole == 0 ==> share_micros(part, whole) == 0,
        whole > 0 ==> share_micros(part, whole) * whole <= part * FULL_MICROS < (share_micros(part, whole)
            + 1) * whole,
{
    if whole > 0 {
        let scaled: int = part * FULL_MICROS;
        let divisor: int = whole as int;
        let quotient: int = scaled / divisor;
        assert(share_micros(part, whole) == quotient);
        vstd::arithmetic::div_mod::lemma_fundamental_div_mod(scaled, divisor);
        assert(0 <= scaled % divisor < divisor);
        assert(divisor * quotient == quotient * divisor) by (nonlinear_arith);
        assert((quotient + 1) * divisor == quotient * divisor + divisor) by (nonlinear_arith);
    }
}

/// A command whose output was not captured is recorded with no token on
/// either side: it saved nothing, and its savings percentage is zero.
pub proof fn lemma_passthrough_saves_nothing()
    ensures
        saved(0, 0) == 0,
        share_micros(saved(0, 0), 0) == 0,
{
}

/// A share of a whole is at most 100 %.
pub proof fn lemma_share_at_most_full(part: nat, whole: nat)
    requires
        part <= whole,
    ensures
        share_micros(part, whole) <= FULL_MICROS,
{
    if whole > 0 {
        let full = FULL_MICROS as int;
        assert(part * full <= whole * full) by (nonlinear_arith)
            requires
                part <= whole,
                full >= 0,
        ;
        assert((part * full) / (whole as int) <= full) by (nonlinear_arith)
            requires
                part * full <= whole * full,
                whole > 0,
        ;
    }
}

/// The mean of percentages of at most 100 % each is at most 100 %.
pub proof fn lemma_mean_at_most_full(sum: nat, count: nat)
    requires
        sum <= count * FULL_MICROS,
    ensures
        mean_micros(sum, count) <= FULL_MICROS,
{
    if count > 0 {
        let full = FULL_MICROS as int;
        assert((sum as int) / (count as int) <= full) by (nonlinear_arith)
            requires
                sum <= count * full,
                count > 0,
        ;
    }
}

/// Tokens saved by a command that would have cost `input_tokens` unwrapped
/// and cost `output_tokens` wrapped. Never negative: a wrapped command that
/// cost more saved nothing.
pub fn saved_tokens(input_tokens: usize, output_tokens: usize) -> (tokens: usize)
    ensures
        tokens == saved(input_tokens as nat, output_tokens as nat),
{
    if input_tokens >= output_tokens {
        input_tokens - output_tokens
    } else {
        0
    }
}

/// The saved tokens as a percentage of the unwrapped cost; 0 % where the
/// unwrapped cost is zero.
pub fn savings_pct(input_tokens: usize, output_tokens: usize) -> (p: Percent)
    ensures
        p@ == share_micros(saved(input_tokens as nat, output_tokens as nat), input_tokens as nat),
{
    Percent::of(saved_tokens(input_tokens, output_tokens), input_tokens)
}

} // verus!
