//! How sensitive a module's command is, and how sensitivities compare.

use vstd::prelude::*;
use std::cmp::Ordering;
use vstd::std_specs::cmp::PartialOrdSpecImpl;

verus! {

/// The sensitivity of a command.
#[derive(Debug, Copy, Clone, PartialEq, Eq, Structural)]
pub enum Sensitivity {
    /// Anyone should be able to run at any time.
    Low,
    /// Anyone can run, but prone to spamming.
    Medium,
    /// Sensitive commands related to managing users and spam.
    High,
    /// Commands only the bot owner should run, such as `shutdown`.
    Owner,
}

/// The place of a sensitivity on the scale from low to high.
pub open spec fn sensitivity_rank(s: Sensitivity) -> int {
    match s {
        Sensitivity::Low => 0,
        Sensitivity::Medium => 1,
        Sensitivity::High => 2,
        Sensitivity::Owner => 3,
    }
}

/// How two sensitivities compare: `Low < Medium < High`, while `Owner` is comparable only
/// with itself.
pub open spec fn sensitivity_order(a: Sensitivity, b: Sensitivity) -> Option<Ordering> {
    if a == b {
        Some(Ordering::Equal)
    } else if a == Sensitivity::Owner || b == Sensitivity::Owner {
        None
    } else if sensitivity_rank(a) < sensitivity_rank(b) {
        Some(Ordering::Less)
    } else {
        Some(Ordering::Greater)
    }
}

impl PartialOrd for Sensitivity {
    fn partial_cmp(&self, other: &Self) -> (r: Option<Ordering>)
        ensures
            r == sensitivity_order(*self, *other),
    {
        match (self, other) {
            (Sensitivity::Low, Sensitivity::Low) => Some(Ordering::Equal),
            (Sensitivity::Medium, Sensitivity::Medium) => Some(Ordering::Equal),
            (Sensitivity::High, Sensitivity::High) => Some(Ordering::Equal),
            (Sensitivity::Owner, Sensitivity::Owner) => Some(Ordering::Equal),
            (Sensitivity::Owner, _) => None,
            (_, Sensitivity::Owner) => None,
            (Sensitivity::Low, _) => Some(Ordering::Less),
            (Sensitivity::Medium, Sensitivity::Low) => Some(Ordering::Greater),
            (Sensitivity::Medium, _) => Some(Ordering::Less),
            (Sensitivity::High, _) => Some(Ordering::Greater),
        }
    }
}

impl PartialOrdSpecImpl for Sensitivity {
    open spec fn obeys_partial_cmp_spec() -> bool {
        true
    }

    open spec fn partial_cmp_spec(&self, other: &Self) -> Option<Ordering> {
        sensitivity_order(*self, *other)
    }
}

/// `a < b` in the order of sensitivities.
pub open spec fn strictly_less(a: Sensitivity, b: Sensitivity) -> bool {
    sensitivity_order(a, b) == Some(Ordering::Less)
}

/// The order of sensitivities is a strict partial order on `<`, anti-symmetric in its
/// comparisons, and leaves `Owner` incomparable with every other sensitivity.
pub proof fn sensitivity_order_is_partial_order(a: Sensitivity, b: Sensitivity, c: Sensitivity)
    ensures
        sensitivity_order(a, a) == Some(Ordering::Equal),
        !strictly_less(a, a),
        strictly_less(a, b) && strictly_less(b, c) ==> strictly_less(a, c),
        sensitivity_order(a, b) == Some(Ordering::Less) <==> sensitivity_order(b, a) == Some(
            Ordering::Greater,
        ),
        sensitivity_order(a, b) == Some(Ordering::Equal) <==> a == b,
        a != Sensitivity::Owner ==> sensitivity_order(a, Sensitivity::Owner) is None
            && sensitivity_order(Sensitivity::Owner, a) is None,
{
}

/// Exactly the low and medium sensitivities fall below `High`.
pub proof fn below_high_is_low_or_medium(a: Sensitivity)
    ensures
        strictly_less(a, Sensitivity::High) <==> (a == Sensitivity::Low || a
            == Sensitivity::Medium),
{
}

impl Sensitivity {
    /// The lower-case name of the sensitivity.
    pub fn name(&self) -> (s: &'static str)
        ensures
            s@ == match *self {
                Sensitivity::Low => "low"@,
                Sensitivity::Medium => "medium"@,
                Sensitivity::High => "high"@,
                Sensitivity::Owner => "owner"@,
            },
    {
        match self {
            Sensitivity::Low => "low",
            Sensitivity::Medium => "medium",
            Sensitivity::High => "high",
            Sensitivity::Owner => "owner",
        }
    }

    /// Whether this sensitivity is strictly below `High`.
    pub fn below_high(&self) -> (b: bool)
        ensures
            b == strictly_less(*self, Sensitivity::High),
    {
        *self < Sensitivity::High
    }
}

} // verus!
