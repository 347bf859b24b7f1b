//! Dice expressions such as `(2d6 + 3) - 1d4`: their structure, evaluation and grammar.

use vstd::prelude::*;
use crate::command::CommanderError;
use crate::config::{read_uint, uint_failure, uint_value};
use crate::pattern::{regex_captures_two, regex_two_groups};
use crate::text::{chars_of, decimal, is_digit, joined, push_decimal, push_signed_decimal, push_str, signed_decimal, skip_space, skip_space_at};

verus! {

/// The most dice a single roll may throw.
pub const MAX_DICE_PER_ROLL: usize = 1000;
/// Rolls with fewer dice than this list every die in their report.
pub const MAX_DICE_FOR_DISPLAY: usize = 20;

/// One term of a dice expression: some dice of one kind, or a constant.
#[derive(Debug, Clone, Copy, PartialEq, Eq)]
pub enum RollComponent {
    Dice { num_dice: u32, die_type: u32 },
    Constant(u32),
}

/// The outcome of evaluating a roll: the running total and every die thrown.
#[derive(Debug, Clone)]
pub struct RollResult {
    sum: i64,
    rolls: Vec<u32>,
}

/// The abstract content of a [`RollResult`].
pub struct RollTally {
    pub sum: i64,
    pub rolls: Seq<u32>,
}

impl View for RollResult {
    type V = RollTally;

    closed spec fn view(&self) -> RollTally {
        RollTally { sum: self.sum, rolls: self.rolls@ }
    }
}

/// `x` saturated into the range of `i64`.
pub open spec fn clamp_i64(x: int) -> i64 {
    if x > i64::MAX {
        i64::MAX
    } else if x < i64::MIN {
        i64::MIN
    } else {
        x as i64
    }
}

/// The sum of all values in `s`.
pub open spec fn seq_total(s: Seq<u32>) -> int
    decreases s.len(),
{
    if s.len() == 0 {
        0
    } else {
        seq_total(s.drop_last()) + s.last()
    }
}

fn add_clamped(a: i64, b: i64) -> (r: i64)
    ensures
        r == clamp_i64(a + b),
{
    let t: i128 = a as i128 + b as i128;
    if t > i64::MAX as i128 {
        i64::MAX
    } else if t < i64::MIN as i128 {
        i64::MIN
    } else {
        t as i64
    }
}

fn sub_clamped(a: i64, b: i64) -> (r: i64)
    ensures
        r == clamp_i64(a - b),
{
    let t: i128 = a as i128 - b as i128;
    if t > i64::MAX as i128 {
        i64::MAX
    } else if t < i64::MIN as i128 {
        i64::MIN
    } else {
        t as i64
    }
}

impl RollResult {
    /// An empty result: total zero, no dice.
    pub fn new() -> (r: RollResult)
        ensures
            r@.sum == 0,
            r@.rolls == Seq::<u32>::empty(),
    {
        RollResult { sum: 0, rolls: Vec::new() }
    }

    /// Records a die that came up `roll`, adding it to the total (saturating).
    pub fn add_roll(&mut self, roll: u32)
        ensures
            final(self)@.sum == clamp_i64(old(self)@.sum + roll),
            final(self)@.rolls == old(self)@.rolls.push(roll),
    {
        self.sum = add_clamped(self.sum, roll as i64);
        self.rolls.push(roll);
    }

    /// Adds a constant to the total (saturating) without recording a die.
    pub fn add_const(&mut self, val: u32)
        ensures
            final(self)@.sum == clamp_i64(old(self)@.sum + val),
            final(self)@.rolls == old(self)@.rolls,
    {
        self.sum = add_clamped(self.sum, val as i64);
    }

    /// Combines two results: totals added (saturating), dice listed one after the other.
    pub fn add(self, res: RollResult) -> (r: RollResult)
        ensures
            r@.sum == clamp_i64(self@.sum + res@.sum),
            r@.rolls == self@.rolls + res@.rolls,
    {
        let mut me = self;
        let mut other = res;
        me.sum = add_clamped(me.sum, other.sum);
        me.rolls.append(&mut other.rolls);
        me
    }

    /// Combines two results: `res`'s total subtracted (saturating), dice listed one after the other.
    pub fn sub(self, res: RollResult) -> (r: RollResult)
        ensures
            r@.sum == clamp_i64(self@.sum - res@.sum),
            r@.rolls == self@.rolls + res@.rolls,
    {
        let mut me = self;
        let mut other = res;
        me.sum = sub_clamped(me.sum, other.sum);
        me.rolls.append(&mut other.rolls);
        me
    }

    /// The total of the roll.
    pub fn sum(&self) -> (s: i64)
        ensures
            s == self@.sum,
    {
        self.sum
    }

    /// Every die thrown, in order.
    pub fn rolls(&self) -> (v: &Vec<u32>)
        ensures
            v@ == self@.rolls,
    {
        &self.rolls
    }
}

/// `Uniform::new(low, high).sample(&mut thread_rng())` of the `rand` crate: a value drawn
/// uniformly at random from `low..high`. Only the range of the value is claimed.
#[verifier::external_body]
fn sample_uniform(low: u32, high: u32) -> (r: u32)
    requires
        low < high,
    ensures
        low <= r < high,
{
    rand::distributions::Distribution::sample(
        &rand::distributions::Uniform::new(low, high),
        &mut rand::thread_rng(),
    )
}

/// How many dice a component throws.
pub open spec fn component_dice(c: RollComponent) -> nat {
    match c {
        RollComponent::Dice { num_dice, .. } => num_dice as nat,
        RollComponent::Constant(_) => 0,
    }
}

/// A component that can be evaluated: its dice have between one and `u32::MAX - 1` faces.
pub open spec fn component_well_formed(c: RollComponent) -> bool {
    match c {
        RollComponent::Dice { die_type, .. } => 1 <= die_type < u32::MAX,
        RollComponent::Constant(_) => true,
    }
}

/// `rolls` could be what evaluating `c` threw: one value per die, each a face of the die.
pub open spec fn component_rolls_fit(c: RollComponent, rolls: Seq<u32>) -> bool {
    &&& rolls.len() == component_dice(c)
    &&& match c {
        RollComponent::Dice { die_type, .. } => forall|i: int|
            0 <= i < rolls.len() ==> 1 <= #[trigger] rolls[i] <= die_type,
        RollComponent::Constant(_) => true,
    }
}

/// The total of component `c` when its dice came up `rolls`.
pub open spec fn component_value(c: RollComponent, rolls: Seq<u32>) -> i64 {
    match c {
        RollComponent::Dice { .. } => clamp_i64(seq_total(rolls)),
        RollComponent::Constant(v) => v as i64,
    }
}

proof fn lemma_clamp_accumulate(t: int, x: int)
    requires
        t >= 0,
        x >= 0,
    ensures
        clamp_i64(clamp_i64(t) + x) == clamp_i64(t + x),
{
}

impl RollComponent {
    /// Throws the component's dice; a constant just contributes its value.
    pub fn eval(&self) -> (r: RollResult)
        requires
            component_well_formed(*self),
        ensures
            component_rolls_fit(*self, r@.rolls),
            r@.sum == component_value(*self, r@.rolls),
    {
        let mut out = RollResult::new();
        match self {
            RollComponent::Dice { num_dice, die_type } => {
                let n = *num_dice;
                let high = *die_type + 1;
                let mut k: u32 = 0;
                while k < n
                    invariant
                        k <= n,
                        high == *die_type + 1,
                        1 <= *die_type < u32::MAX,
                        out@.rolls.len() == k,
                        forall|i: int| 0 <= i < k ==> 1 <= #[trigger] out@.rolls[i] <= *die_type,
                        out@.sum == clamp_i64(seq_total(out@.rolls)),
                        seq_total(out@.rolls) >= 0,
                    decreases n - k,
                {
                    let r = sample_uniform(1, high);
                    let ghost before = out@.rolls;
                    proof { lemma_clamp_accumulate(seq_total(before), r as int); }
                    out.add_roll(r);
                    assert(out@.rolls.drop_last() =~= before);
                    k = k + 1;
                }
            },
            RollComponent::Constant(u) => {
                out.add_const(*u);
            },
        }
        out
    }

    /// A component that always contributes `val`.
    pub fn constant(val: u32) -> (r: RollComponent)
        ensures
            r == RollComponent::Constant(val),
    {
        RollComponent::Constant(val)
    }

    /// `num_dice` dice with `die_type` faces each.
    pub fn die(num_dice: u32, die_type: u32) -> (r: RollComponent)
        ensures
            r == (RollComponent::Dice { num_dice, die_type }),
    {
        RollComponent::Dice { num_dice, die_type }
    }

    /// How many dice the component throws.
    pub fn num_dice(&self) -> (n: usize)
        ensures
            n == component_dice(*self),
    {
        match self {
            RollComponent::Dice { num_dice, .. } => *num_dice as usize,
            RollComponent::Constant(_) => 0,
        }
    }
}

/// A dice expression: sums and differences of components.
#[derive(Debug)]
pub enum Roll {
    Add(Box<Roll>, Box<Roll>),
    Sub(Box<Roll>, Box<Roll>),
    Atom(RollComponent),
}

impl From<RollComponent> for Roll {
    fn from(r: RollComponent) -> (out: Self)
        ensures
            out == Roll::Atom(r),
    {
        Roll::Atom(r)
    }
}

impl vstd::std_specs::convert::FromSpecImpl<RollComponent> for Roll {
    open spec fn obeys_from_spec() -> bool {
        true
    }

    open spec fn from_spec(v: RollComponent) -> Roll {
        Roll::Atom(v)
    }
}

/// Why a roll may not be evaluated.
#[derive(Debug, Clone, Copy, PartialEq, Eq)]
pub enum InvalidRoll {
    TooManyDice,
}

impl InvalidRoll {
    /// The message shown to the user.
    pub fn message(&self) -> (s: String)
        ensures
            s@ == "Too many dice in the roll!"@,
    {
        proof { reveal_strlit("Too many dice in the roll!"); }
        String::from_str("Too many dice in the roll!")
    }
}

/// How many dice the whole expression throws.
pub open spec fn total_dice(r: Roll) -> nat
    decreases r,
{
    match r {
        Roll::Add(l, rr) => total_dice(*l) + total_dice(*rr),
        Roll::Sub(l, rr) => total_dice(*l) + total_dice(*rr),
        Roll::Atom(c) => component_dice(c),
    }
}

/// Every component of the expression can be evaluated.
pub open spec fn roll_well_formed(r: Roll) -> bool
    decreases r,
{
    match r {
        Roll::Add(l, rr) => roll_well_formed(*l) && roll_well_formed(*rr),
        Roll::Sub(l, rr) => roll_well_formed(*l) && roll_well_formed(*rr),
        Roll::Atom(c) => component_well_formed(c),
    }
}

/// `rolls` could be the dice thrown by evaluating `r`, listed from left to right.
pub open spec fn rolls_fit(r: Roll, rolls: Seq<u32>) -> bool
    decreases r,
{
    match r {
        Roll::Add(l, rr) => rolls.len() == total_dice(*l) + total_dice(*rr) && rolls_fit(
            *l,
            rolls.take(total_dice(*l) as int),
        ) && rolls_fit(*rr, rolls.skip(total_dice(*l) as int)),
        Roll::Sub(l, rr) => rolls.len() == total_dice(*l) + total_dice(*rr) && rolls_fit(
            *l,
            rolls.take(total_dice(*l) as int),
        ) && rolls_fit(*rr, rolls.skip(total_dice(*l) as int)),
        Roll::Atom(c) => component_rolls_fit(c, rolls),
    }
}

/// The total of `r` when its dice came up `rolls` (left to right), with every sum and
/// difference saturating.
pub open spec fn roll_value(r: Roll, rolls: Seq<u32>) -> i64
    decreases r,
{
    match r {
        Roll::Add(l, rr) => clamp_i64(
            roll_value(*l, rolls.take(total_dice(*l) as int)) + roll_value(
                *rr,
                rolls.skip(total_dice(*l) as int),
            ),
        ),
        Roll::Sub(l, rr) => clamp_i64(
            roll_value(*l, rolls.take(total_dice(*l) as int)) - roll_value(
                *rr,
                rolls.skip(total_dice(*l) as int),
            ),
        ),
        Roll::Atom(c) => component_value(c, rolls),
    }
}

proof fn lemma_rolls_fit_len(r: Roll, rolls: Seq<u32>)
    requires
        rolls_fit(r, rolls),
    ensures
        rolls.len() == total_dice(r),
{
}

impl Roll {
    /// `Ok` exactly when the roll throws at most [`MAX_DICE_PER_ROLL`] dice.
    pub fn valid(&self) -> (r: Result<(), InvalidRoll>)
        ensures
            r is Ok <==> total_dice(*self) <= MAX_DICE_PER_ROLL,
            r is Err ==> r == Err::<(), InvalidRoll>(InvalidRoll::TooManyDice),
    {
        if self.num_dice() > MAX_DICE_PER_ROLL {
            Err(InvalidRoll::TooManyDice)
        } else {
            Ok(())
        }
    }

    /// How many dice the roll throws, saturating at `usize::MAX`.
    pub fn num_dice(&self) -> (n: usize)
        ensures
            n == if total_dice(*self) > usize::MAX {
                usize::MAX as nat
            } else {
                total_dice(*self)
            },
        decreases self,
    {
        match self {
            Roll::Add(l, r) => l.num_dice().saturating_add(r.num_dice()),
            Roll::Sub(l, r) => l.num_dice().saturating_add(r.num_dice()),
            Roll::Atom(a) => a.num_dice(),
        }
    }

    /// Whether every component of the roll can be evaluated (see [`roll_well_formed`]).
    pub fn well_formed(&self) -> (b: bool)
        ensures
            b == roll_well_formed(*self),
        decreases self,
    {
        match self {
            Roll::Add(l, r) => l.well_formed() && r.well_formed(),
            Roll::Sub(l, r) => l.well_formed() && r.well_formed(),
            Roll::Atom(RollComponent::Dice { die_type, .. }) => 1 <= *die_type && *die_type < u32::MAX,
            Roll::Atom(RollComponent::Constant(_)) => true,
        }
    }

    /// The sum of two rolls.
    pub fn add(l: Roll, r: Roll) -> (out: Roll)
        ensures
            out == Roll::Add(Box::new(l), Box::new(r)),
    {
        Roll::Add(Box::new(l), Box::new(r))
    }

    /// The difference of two rolls.
    pub fn sub(l: Roll, r: Roll) -> (out: Roll)
        ensures
            out == Roll::Sub(Box::new(l), Box::new(r)),
    {
        Roll::Sub(Box::new(l), Box::new(r))
    }

    /// Throws every die of the expression, left to right, and totals the result.
    pub fn eval(&self) -> (r: RollResult)
        requires
            roll_well_formed(*self),
        ensures
            rolls_fit(*self, r@.rolls),
            r@.sum == roll_value(*self, r@.rolls),
        decreases self,
    {
        match self {
            Roll::Add(l, r) => {
                let a = l.eval();
                let b = r.eval();
                let ghost ra = a@.rolls;
                let ghost rb = b@.rolls;
                proof {
                    lemma_rolls_fit_len(**l, ra);
                }
                let out = a.add(b);
                assert(out@.rolls.take(ra.len() as int) =~= ra);
                assert(out@.rolls.skip(ra.len() as int) =~= rb);
                out
            },
            Roll::Sub(l, r) => {
                let a = l.eval();
                let b = r.eval();
                let ghost ra = a@.rolls;
                let ghost rb = b@.rolls;
                proof {
                    lemma_rolls_fit_len(**l, ra);
                }
                let out = a.sub(b);
                assert(out@.rolls.take(ra.len() as int) =~= ra);
                assert(out@.rolls.skip(ra.len() as int) =~= rb);
                out
            },
            Roll::Atom(d) => d.eval(),
        }
    }
}


/// How many components (constants and dice groups) the expression has.
pub open spec fn atom_count(r: Roll) -> nat
    decreases r,
{
    match r {
        Roll::Add(l, rr) => atom_count(*l) + atom_count(*rr),
        Roll::Sub(l, rr) => atom_count(*l) + atom_count(*rr),
        Roll::Atom(_) => 1,
    }
}

/// The total of `r` when its dice came up `rolls` (left to right), in exact arithmetic: sums
/// add, differences subtract, a die group gives the sum of its dice and a constant its value.
pub open spec fn exact_value(r: Roll, rolls: Seq<u32>) -> int
    decreases r,
{
    match r {
        Roll::Add(l, rr) => exact_value(*l, rolls.take(total_dice(*l) as int)) + exact_value(
            *rr,
            rolls.skip(total_dice(*l) as int),
        ),
        Roll::Sub(l, rr) => exact_value(*l, rolls.take(total_dice(*l) as int)) - exact_value(
            *rr,
            rolls.skip(total_dice(*l) as int),
        ),
        Roll::Atom(RollComponent::Dice { .. }) => seq_total(rolls),
        Roll::Atom(RollComponent::Constant(v)) => v as int,
    }
}

proof fn lemma_seq_total_bound(s: Seq<u32>)
    ensures
        0 <= seq_total(s) <= s.len() * (u32::MAX as int),
    decreases s.len(),
{
    if s.len() > 0 {
        lemma_seq_total_bound(s.drop_last());
    }
}

proof fn lemma_exact_bound(r: Roll, rolls: Seq<u32>)
    requires
        rolls_fit(r, rolls),
    ensures
        -((total_dice(r) + atom_count(r)) * (u32::MAX as int)) <= exact_value(r, rolls) <= (total_dice(r)
            + atom_count(r)) * (u32::MAX as int),
    decreases r,
{
    match r {
        Roll::Add(l, rr) => {
            lemma_exact_bound(*l, rolls.take(total_dice(*l) as int));
            lemma_exact_bound(*rr, rolls.skip(total_dice(*l) as int));
            assert((total_dice(r) + atom_count(r)) * (u32::MAX as int) == (total_dice(*l) + atom_count(*l)) * (
            u32::MAX as int) + (total_dice(*rr) + atom_count(*rr)) * (u32::MAX as int)) by (nonlinear_arith)
                requires
                    total_dice(r) + atom_count(r) == (total_dice(*l) + atom_count(*l)) + (total_dice(*rr)
                        + atom_count(*rr)),
            ;
        },
        Roll::Sub(l, rr) => {
            lemma_exact_bound(*l, rolls.take(total_dice(*l) as int));
            lemma_exact_bound(*rr, rolls.skip(total_dice(*l) as int));
            assert((total_dice(r) + atom_count(r)) * (u32::MAX as int) == (total_dice(*l) + atom_count(*l)) * (
            u32::MAX as int) + (total_dice(*rr) + atom_count(*rr)) * (u32::MAX as int)) by (nonlinear_arith)
                requires
                    total_dice(r) + atom_count(r) == (total_dice(*l) + atom_count(*l)) + (total_dice(*rr)
                        + atom_count(*rr)),
            ;
        },
        Roll::Atom(c) => {
            lemma_seq_total_bound(rolls);
            assert(rolls.len() * (u32::MAX as int) <= (total_dice(r) + 1) * (u32::MAX as int)) by (nonlinear_arith)
                requires
                    rolls.len() == total_dice(r),
            ;
        },
    }
}

/// As long as a roll has fewer than 2^31 dice and components together, no sum or difference
/// saturates: the total of a throw is the exact value of the expression, sums adding,
/// differences subtracting, dice groups giving the sum of their dice.
pub proof fn roll_value_is_exact(r: Roll, rolls: Seq<u32>)
    requires
        rolls_fit(r, rolls),
        total_dice(r) + atom_count(r) <= 0x8000_0000,
    ensures
        roll_value(r, rolls) == exact_value(r, rolls),
    decreases r,
{
    lemma_exact_bound(r, rolls);
    assert((total_dice(r) + atom_count(r)) * (u32::MAX as int) <= 0x8000_0000 * (u32::MAX as int)) by (nonlinear_arith)
        requires
            total_dice(r) + atom_count(r) <= 0x8000_0000,
    ;
    match r {
        Roll::Add(l, rr) => {
            roll_value_is_exact(*l, rolls.take(total_dice(*l) as int));
            roll_value_is_exact(*rr, rolls.skip(total_dice(*l) as int));
            lemma_exact_bound(*l, rolls.take(total_dice(*l) as int));
            lemma_exact_bound(*rr, rolls.skip(total_dice(*l) as int));
            assert((total_dice(r) + atom_count(r)) * (u32::MAX as int) == (total_dice(*l) + atom_count(*l)) * (
            u32::MAX as int) + (total_dice(*rr) + atom_count(*rr)) * (u32::MAX as int)) by (nonlinear_arith)
                requires
                    total_dice(r) + atom_count(r) == (total_dice(*l) + atom_count(*l)) + (total_dice(*rr)
                        + atom_count(*rr)),
            ;
        },
        Roll::Sub(l, rr) => {
            roll_value_is_exact(*l, rolls.take(total_dice(*l) as int));
            roll_value_is_exact(*rr, rolls.skip(total_dice(*l) as int));
            lemma_exact_bound(*l, rolls.take(total_dice(*l) as int));
            lemma_exact_bound(*rr, rolls.skip(total_dice(*l) as int));
            assert((total_dice(r) + atom_count(r)) * (u32::MAX as int) == (total_dice(*l) + atom_count(*l)) * (
            u32::MAX as int) + (total_dice(*rr) + atom_count(*rr)) * (u32::MAX as int)) by (nonlinear_arith)
                requires
                    total_dice(r) + atom_count(r) == (total_dice(*l) + atom_count(*l)) + (total_dice(*rr)
                        + atom_count(*rr)),
            ;
        },
        Roll::Atom(c) => {
            lemma_seq_total_bound(rolls);
        },
    }
}

/// The parser for dice expressions.
pub struct RollParser;

/// The shape of a dice expression as written, before its numbers are read.
/// Parentheses leave no trace; `a + b - c` groups to the left as `(a + b) - c`.
pub enum RollSyntax {
    Number(Seq<char>),
    Die(Seq<char>, Seq<char>),
    Plus(Box<RollSyntax>, Box<RollSyntax>),
    Minus(Box<RollSyntax>, Box<RollSyntax>),
}

/// The first position at or after `i` that does not hold a digit.
pub open spec fn skip_digits(s: Seq<char>, i: int) -> int
    decreases s.len() - i,
{
    if 0 <= i < s.len() && is_digit(s[i]) {
        skip_digits(s, i + 1)
    } else {
        i
    }
}

/// An atom at `i`: digits, optionally followed by `d` and more digits.
pub open spec fn atom_syntax(s: Seq<char>, i: int) -> Option<(RollSyntax, int)> {
    if 0 <= i < s.len() && is_digit(s[i]) {
        let j = skip_digits(s, i);
        if 0 <= j && j + 1 < s.len() && s[j] == 'd' && is_digit(s[j + 1]) {
            let k = skip_digits(s, j + 1);
            Some((RollSyntax::Die(s.subrange(i, j), s.subrange(j + 1, k)), k))
        } else {
            Some((RollSyntax::Number(s.subrange(i, j)), j))
        }
    } else {
        None
    }
}

proof fn lemma_skip_digits_bounds(s: Seq<char>, i: int)
    ensures
        skip_digits(s, i) >= i,
        0 <= i <= s.len() ==> skip_digits(s, i) <= s.len(),
        0 <= skip_digits(s, i) < s.len() ==> !is_digit(s[skip_digits(s, i)]),
        forall|k: int| i <= k < skip_digits(s, i) ==> is_digit(#[trigger] s[k]),
    decreases s.len() - i,
{
    if 0 <= i < s.len() && is_digit(s[i]) {
        lemma_skip_digits_bounds(s, i + 1);
    }
}

/// An expression at `i`: a head, then any number of `+` or `-` and a further head, grouped to
/// the left as in arithmetic.
pub open spec fn expr_syntax(s: Seq<char>, i: int) -> Option<(RollSyntax, int)>
    decreases s.len() - i, 1int,
{
    if i < 0 || i > s.len() {
        None
    } else {
        match head_syntax(s, i) {
            Some((h, j)) => if i < j <= s.len() {
                expr_tail(s, h, j)
            } else {
                Some((h, j))
            },
            None => None,
        }
    }
}

/// The rest of an expression whose terms so far make `acc`, ending at `j`: while `+` or `-`
/// and a head follow, `acc` takes that head on its right. When what follows an operator is no
/// head, the expression ends at `j`.
pub open spec fn expr_tail(s: Seq<char>, acc: RollSyntax, j: int) -> Option<(RollSyntax, int)>
    decreases s.len() - j, 2int,
{
    if j < 0 || j > s.len() {
        Some((acc, j))
    } else {
        let k = skip_space(s, j);
        if j <= k < s.len() && (s[k] == '+' || s[k] == '-') {
            let n = skip_space(s, k + 1);
            if k < n <= s.len() {
                match head_syntax(s, n) {
                    Some((h, m)) => if n < m <= s.len() {
                        if s[k] == '+' {
                            expr_tail(s, RollSyntax::Plus(Box::new(acc), Box::new(h)), m)
                        } else {
                            expr_tail(s, RollSyntax::Minus(Box::new(acc), Box::new(h)), m)
                        }
                    } else {
                        Some((acc, j))
                    },
                    None => Some((acc, j)),
                }
            } else {
                Some((acc, j))
            }
        } else {
            Some((acc, j))
        }
    }
}

/// A head at `i`: a parenthesised expression or an atom.
pub open spec fn head_syntax(s: Seq<char>, i: int) -> Option<(RollSyntax, int)>
    decreases s.len() - i, 0int,
{
    if 0 <= i < s.len() && s[i] == '(' {
        let n = skip_space(s, i + 1);
        if i < n <= s.len() {
            match expr_syntax(s, n) {
                Some((e, j)) => {
                    let k = skip_space(s, j);
                    if 0 <= k < s.len() && s[k] == ')' {
                        Some((e, k + 1))
                    } else {
                        None
                    }
                },
                None => None,
            }
        } else {
            None
        }
    } else {
        atom_syntax(s, i)
    }
}

/// The expression spelled by all of `s`, allowing whitespace around tokens.
pub open spec fn roll_syntax(s: Seq<char>) -> Option<RollSyntax> {
    match expr_syntax(s, skip_space(s, 0)) {
        Some((t, j)) => if skip_space(s, j) == s.len() {
            Some(t)
        } else {
            None
        },
        None => None,
    }
}

/// The value of a string of decimal digits.
pub open spec fn digits_value(d: Seq<char>) -> nat
    decreases d.len(),
{
    if d.len() == 0 {
        0
    } else {
        digits_value(d.drop_last()) * 10 + ((d.last() as int - '0' as int) as nat)
    }
}

/// The roll a syntax tree denotes, or `None` when one of its numbers does not fit in a `u32`.
pub open spec fn roll_from_syntax(t: RollSyntax) -> Option<Roll>
    decreases t,
{
    match t {
        RollSyntax::Number(d) => if digits_value(d) <= u32::MAX {
            Some(Roll::Atom(RollComponent::Constant(digits_value(d) as u32)))
        } else {
            None
        },
        RollSyntax::Die(n, k) => if digits_value(n) <= u32::MAX && digits_value(k) <= u32::MAX {
            Some(
                Roll::Atom(
                    RollComponent::Dice {
                        num_dice: digits_value(n) as u32,
                        die_type: digits_value(k) as u32,
                    },
                ),
            )
        } else {
            None
        },
        RollSyntax::Plus(l, r) => match (roll_from_syntax(*l), roll_from_syntax(*r)) {
            (Some(a), Some(b)) => Some(Roll::Add(Box::new(a), Box::new(b))),
            _ => None,
        },
        RollSyntax::Minus(l, r) => match (roll_from_syntax(*l), roll_from_syntax(*r)) {
            (Some(a), Some(b)) => Some(Roll::Sub(Box::new(a), Box::new(b))),
            _ => None,
        },
    }
}

/// What parsing a dice expression comes to.
pub enum RollOutcome {
    Parsed(Roll),
    BadSyntax,
    NumberTooLarge,
}

/// How many dice a written expression throws.
pub open spec fn syntax_dice(t: RollSyntax) -> nat
    decreases t,
{
    match t {
        RollSyntax::Number(_) => 0,
        RollSyntax::Die(n, _) => digits_value(n),
        RollSyntax::Plus(l, r) => syntax_dice(*l) + syntax_dice(*r),
        RollSyntax::Minus(l, r) => syntax_dice(*l) + syntax_dice(*r),
    }
}

/// The arithmetic value of a written expression when its dice came up `rolls`, left to right:
/// a number is its value, a die group the sum of its dice, `+` adds and `-` subtracts.
pub open spec fn written_value(t: RollSyntax, rolls: Seq<u32>) -> int
    decreases t,
{
    match t {
        RollSyntax::Number(d) => digits_value(d) as int,
        RollSyntax::Die(_, _) => seq_total(rolls),
        RollSyntax::Plus(l, r) => written_value(*l, rolls.take(syntax_dice(*l) as int)) + written_value(
            *r,
            rolls.skip(syntax_dice(*l) as int),
        ),
        RollSyntax::Minus(l, r) => written_value(*l, rolls.take(syntax_dice(*l) as int)) - written_value(
            *r,
            rolls.skip(syntax_dice(*l) as int),
        ),
    }
}

/// The roll a written expression stands for throws as many dice as are written, and whatever
/// they come up, its exact value is the arithmetic value of what was written: `+` adds and `-`
/// subtracts, whatever stands on either side.
pub proof fn parsed_roll_means_what_is_written(t: RollSyntax, rolls: Seq<u32>)
    requires
        roll_from_syntax(t) is Some,
    ensures
        total_dice(roll_from_syntax(t)->0) == syntax_dice(t),
        exact_value(roll_from_syntax(t)->0, rolls) == written_value(t, rolls),
    decreases t,
{
    match t {
        RollSyntax::Plus(l, r) => {
            parsed_roll_means_what_is_written(*l, rolls.take(syntax_dice(*l) as int));
            parsed_roll_means_what_is_written(*r, rolls.skip(syntax_dice(*l) as int));
        },
        RollSyntax::Minus(l, r) => {
            parsed_roll_means_what_is_written(*l, rolls.take(syntax_dice(*l) as int));
            parsed_roll_means_what_is_written(*r, rolls.skip(syntax_dice(*l) as int));
        },
        _ => {},
    }
}

/// Parsing is compositional in the operator: `a - b` is the difference and `a + b` the sum of
/// what `a` and `b` stand for, whatever their shapes.
pub proof fn parse_is_compositional(l: RollSyntax, r: RollSyntax)
    requires
        roll_from_syntax(l) is Some,
        roll_from_syntax(r) is Some,
    ensures
        roll_from_syntax(RollSyntax::Minus(Box::new(l), Box::new(r))) == Some(
            Roll::Sub(Box::new(roll_from_syntax(l)->0), Box::new(roll_from_syntax(r)->0)),
        ),
        roll_from_syntax(RollSyntax::Plus(Box::new(l), Box::new(r))) == Some(
            Roll::Add(Box::new(roll_from_syntax(l)->0), Box::new(roll_from_syntax(r)->0)),
        ),
{
}

/// A dice expression that parses means what is written: for every throw of its dice, the
/// parsed roll's exact value is the arithmetic value of the text's expression.
pub proof fn parse_roll_means_what_is_written(s: Seq<char>, rolls: Seq<u32>)
    requires
        spec_parse_roll(s) is Parsed,
    ensures
        roll_syntax(s) matches Some(t) && spec_parse_roll(s) == RollOutcome::Parsed(roll_from_syntax(t)->0)
            && total_dice(roll_from_syntax(t)->0) == syntax_dice(t) && exact_value(roll_from_syntax(t)->0, rolls)
            == written_value(t, rolls),
{
    let t = roll_syntax(s)->0;
    parsed_roll_means_what_is_written(t, rolls);
}

/// The outcome of parsing `s` as a dice expression.
pub open spec fn spec_parse_roll(s: Seq<char>) -> RollOutcome {
    match roll_syntax(s) {
        None => RollOutcome::BadSyntax,
        Some(t) => match roll_from_syntax(t) {
            Some(r) => RollOutcome::Parsed(r),
            None => RollOutcome::NumberTooLarge,
        },
    }
}

/// The message of a number that does not fit in a `u32`.
pub open spec fn too_large_message() -> Seq<char> {
    "number too large to fit in target type"@
}

/// The message of a malformed dice expression.
pub open spec fn bad_roll_message() -> Seq<char> {
    "The dice expression could not be parsed."@
}

/// A syntax tree whose numbers are spans of the input.
enum SynNode {
    Number(usize, usize),
    Die(usize, usize, usize, usize),
    Plus(Box<SynNode>, Box<SynNode>),
    Minus(Box<SynNode>, Box<SynNode>),
}

spec fn syn_view(t: SynNode, s: Seq<char>) -> RollSyntax
    decreases t,
{
    match t {
        SynNode::Number(a, b) => RollSyntax::Number(s.subrange(a as int, b as int)),
        SynNode::Die(a, b, c, d) => RollSyntax::Die(
            s.subrange(a as int, b as int),
            s.subrange(c as int, d as int),
        ),
        SynNode::Plus(l, r) => RollSyntax::Plus(Box::new(syn_view(*l, s)), Box::new(syn_view(*r, s))),
        SynNode::Minus(l, r) => RollSyntax::Minus(
            Box::new(syn_view(*l, s)),
            Box::new(syn_view(*r, s)),
        ),
    }
}

spec fn syn_spans_ok(t: SynNode, len: nat) -> bool
    decreases t,
{
    match t {
        SynNode::Number(a, b) => a <= b <= len,
        SynNode::Die(a, b, c, d) => a <= b <= len && c <= d <= len,
        SynNode::Plus(l, r) => syn_spans_ok(*l, len) && syn_spans_ok(*r, len),
        SynNode::Minus(l, r) => syn_spans_ok(*l, len) && syn_spans_ok(*r, len),
    }
}

fn skip_digits_at(s: &Vec<char>, i: usize) -> (j: usize)
    requires
        i <= s.len(),
    ensures
        j as int == skip_digits(s@, i as int),
        i <= j <= s.len(),
{
    proof { lemma_skip_digits_bounds(s@, i as int); }
    let mut j = i;
    while j < s.len() && '0' <= s[j] && s[j] <= '9'
        invariant
            i <= j <= s.len(),
            skip_digits(s@, i as int) == skip_digits(s@, j as int),
        decreases s.len() - j,
    {
        j = j + 1;
    }
    j
}

fn atom_at(s: &Vec<char>, i: usize) -> (r: Option<(SynNode, usize)>)
    requires
        i <= s.len(),
    ensures
        match atom_syntax(s@, i as int) {
            Some((t, e)) => r matches Some((n, f)) && syn_view(n, s@) == t && f == e
                && syn_digits_ok(n, s@)
                && syn_spans_ok(n, s@.len()),
            None => r is None,
        },
{
    if i < s.len() && '0' <= s[i] && s[i] <= '9' {
        proof { lemma_number_spans_digits(s@, i as int); }
        let j = skip_digits_at(s, i);
        if j < s.len() && j + 1 < s.len() && s[j] == 'd' && '0' <= s[j + 1] && s[j + 1] <= '9' {
            let k = skip_digits_at(s, j + 1);
            Some((SynNode::Die(i, j, j + 1, k), k))
        } else {
            Some((SynNode::Number(i, j), j))
        }
    } else {
        None
    }
}

fn expr_at(s: &Vec<char>, i: usize) -> (r: Option<(SynNode, usize)>)
    requires
        i <= s.len(),
    ensures
        match expr_syntax(s@, i as int) {
            Some((t, e)) => r matches Some((n, f)) && syn_view(n, s@) == t && f == e
                && syn_digits_ok(n, s@)
                && syn_spans_ok(n, s@.len()) && f <= s@.len(),
            None => r is None,
        },
    decreases s.len() - i, 1int,
{
    match head_at(s, i) {
        Some((h, j)) => {
            if i < j {
                tail_at(s, h, j)
            } else {
                Some((h, j))
            }
        },
        None => None,
    }
}

fn tail_at(s: &Vec<char>, acc: SynNode, j: usize) -> (r: Option<(SynNode, usize)>)
    requires
        j <= s.len(),
        syn_digits_ok(acc, s@),
        syn_spans_ok(acc, s@.len()),
    ensures
        match expr_tail(s@, syn_view(acc, s@), j as int) {
            Some((t, e)) => r matches Some((n, f)) && syn_view(n, s@) == t && f == e
                && syn_digits_ok(n, s@)
                && syn_spans_ok(n, s@.len()) && f <= s@.len(),
            None => r is None,
        },
    decreases s.len() - j, 2int,
{
    let k = skip_space_at(s, j);
    if k < s.len() && (s[k] == '+' || s[k] == '-') {
        let n = skip_space_at(s, k + 1);
        match head_at(s, n) {
            Some((h, m)) => {
                if n < m {
                    if s[k] == '+' {
                        tail_at(s, SynNode::Plus(Box::new(acc), Box::new(h)), m)
                    } else {
                        tail_at(s, SynNode::Minus(Box::new(acc), Box::new(h)), m)
                    }
                } else {
                    Some((acc, j))
                }
            },
            None => Some((acc, j)),
        }
    } else {
        Some((acc, j))
    }
}

fn head_at(s: &Vec<char>, i: usize) -> (r: Option<(SynNode, usize)>)
    requires
        i <= s.len(),
    ensures
        match head_syntax(s@, i as int) {
            Some((t, e)) => r matches Some((n, f)) && syn_view(n, s@) == t && f == e
                && syn_digits_ok(n, s@)
                && syn_spans_ok(n, s@.len()) && f <= s@.len(),
            None => r is None,
        },
    decreases s.len() - i, 0int,
{
    if i < s.len() && s[i] == '(' {
        let n = skip_space_at(s, i + 1);
        match expr_at(s, n) {
            Some((e, j)) => {
                let k = skip_space_at(s, j);
                if k < s.len() && s[k] == ')' {
                    Some((e, k + 1))
                } else {
                    None
                }
            },
            None => None,
        }
    } else {
        proof { lemma_skip_digits_bounds(s@, i as int); }
        let r = atom_at(s, i);
        proof {
            if atom_syntax(s@, i as int) is Some {
                let j = skip_digits(s@, i as int);
                if 0 <= j && j + 1 < s@.len() && s@[j] == 'd' && is_digit(s@[j + 1]) {
                    lemma_skip_digits_bounds(s@, j + 1);
                }
            }
        }
        r
    }
}

proof fn lemma_digits_value_prefix(d: Seq<char>, m: int)
    requires
        0 <= m <= d.len(),
    ensures
        digits_value(d.take(m)) <= digits_value(d),
    decreases d.len(),
{
    if m < d.len() {
        lemma_digits_value_prefix(d.drop_last(), m);
        assert(d.drop_last().take(m) =~= d.take(m));
    } else {
        assert(d.take(m) =~= d);
    }
}

/// The value of the digits `s[i..j]`, or `None` when it does not fit in a `u32`.
fn digits_to_u32(s: &Vec<char>, i: usize, j: usize) -> (r: Option<u32>)
    requires
        i <= j <= s.len(),
        forall|k: int| i <= k < j ==> is_digit(#[trigger] s@[k]),
    ensures
        match r {
            Some(v) => v as nat == digits_value(s@.subrange(i as int, j as int)),
            None => digits_value(s@.subrange(i as int, j as int)) > u32::MAX,
        },
{
    let mut v: u64 = 0;
    let mut k = i;
    assert(s@.subrange(i as int, i as int) =~= Seq::<char>::empty());
    while k < j
        invariant
            i <= k <= j,
            j <= s.len(),
            forall|x: int| i <= x < j ==> is_digit(#[trigger] s@[x]),
            v as nat == digits_value(s@.subrange(i as int, k as int)),
            v <= u32::MAX,
        decreases j - k,
    {
        let c = s[k];
        assert(is_digit(s@[k as int]));
        let d: u64 = (c as u32 - '0' as u32) as u64;
        let ghost pre = s@.subrange(i as int, k as int);
        assert(s@.subrange(i as int, k + 1).drop_last() =~= pre);
        v = v * 10 + d;
        k = k + 1;
        if v > u32::MAX as u64 {
            proof {
                lemma_digits_value_prefix(s@.subrange(i as int, j as int), k - i);
                assert(s@.subrange(i as int, j as int).take(k - i) =~= s@.subrange(i as int, k as int));
            }
            return None;
        }
    }
    Some(v as u32)
}

proof fn lemma_number_spans_digits(s: Seq<char>, i: int)
    requires
        atom_syntax(s, i) is Some,
    ensures
        ({
            let j = skip_digits(s, i);
            &&& forall|k: int| i <= k < j ==> is_digit(#[trigger] s[k])
            &&& (0 <= j && j + 1 < s.len() && s[j] == 'd' && is_digit(s[j + 1])) ==> (forall|k: int|
                j + 1 <= k < skip_digits(s, j + 1) ==> is_digit(#[trigger] s[k]))
        }),
{
    lemma_skip_digits_bounds(s, i);
    let j = skip_digits(s, i);
    if 0 <= j && j + 1 < s.len() && s[j] == 'd' && is_digit(s[j + 1]) {
        lemma_skip_digits_bounds(s, j + 1);
    }
}

/// Every span of `t` holds only digits.
spec fn syn_digits_ok(t: SynNode, s: Seq<char>) -> bool
    decreases t,
{
    match t {
        SynNode::Number(a, b) => forall|k: int| a <= k < b ==> is_digit(#[trigger] s[k]),
        SynNode::Die(a, b, c, d) => (forall|k: int| a <= k < b ==> is_digit(#[trigger] s[k])) && (
        forall|k: int| c <= k < d ==> is_digit(#[trigger] s[k])),
        SynNode::Plus(l, r) => syn_digits_ok(*l, s) && syn_digits_ok(*r, s),
        SynNode::Minus(l, r) => syn_digits_ok(*l, s) && syn_digits_ok(*r, s),
    }
}

fn number_error() -> (e: CommanderError)
    ensures
        e matches CommanderError::OtherError(m) && m@ == too_large_message(),
{
    proof { reveal_strlit("number too large to fit in target type"); }
    CommanderError::OtherError(String::from_str("number too large to fit in target type"))
}

fn syn_to_roll(s: &Vec<char>, t: &SynNode) -> (r: Result<Roll, CommanderError>)
    requires
        syn_spans_ok(*t, s@.len()),
        syn_digits_ok(*t, s@),
    ensures
        match roll_from_syntax(syn_view(*t, s@)) {
            Some(x) => r == Ok::<Roll, CommanderError>(x),
            None => r matches Err(CommanderError::OtherError(m)) && m@ == too_large_message(),
        },
    decreases t,
{
    match t {
        SynNode::Number(a, b) => match digits_to_u32(s, *a, *b) {
            Some(v) => Ok(Roll::Atom(RollComponent::Constant(v))),
            None => Err(number_error()),
        },
        SynNode::Die(a, b, c, d) => match digits_to_u32(s, *a, *b) {
            Some(n) => match digits_to_u32(s, *c, *d) {
                Some(k) => Ok(Roll::Atom(RollComponent::Dice { num_dice: n, die_type: k })),
                None => Err(number_error()),
            },
            None => Err(number_error()),
        },
        SynNode::Plus(l, rr) => {
            let a = syn_to_roll(s, l);
            match a {
                Ok(x) => match syn_to_roll(s, rr) {
                    Ok(y) => Ok(Roll::Add(Box::new(x), Box::new(y))),
                    Err(e) => Err(e),
                },
                Err(e) => Err(e),
            }
        },
        SynNode::Minus(l, rr) => {
            let a = syn_to_roll(s, l);
            match a {
                Ok(x) => match syn_to_roll(s, rr) {
                    Ok(y) => Ok(Roll::Sub(Box::new(x), Box::new(y))),
                    Err(e) => Err(e),
                },
                Err(e) => Err(e),
            }
        },
    }
}


fn bad_roll_error() -> (e: CommanderError)
    ensures
        e matches CommanderError::BadCommandParse(m) && m@ == bad_roll_message(),
{
    proof { reveal_strlit("The dice expression could not be parsed."); }
    CommanderError::BadCommandParse(String::from_str("The dice expression could not be parsed."))
}

/// Parses a dice expression such as `(10000d20) + 20 - 5d4`.
pub fn parse_roll(input: &str) -> (r: Result<Roll, CommanderError>)
    ensures
        match spec_parse_roll(input@) {
            RollOutcome::Parsed(x) => r == Ok::<Roll, CommanderError>(x),
            RollOutcome::BadSyntax => r matches Err(CommanderError::BadCommandParse(m)) && m@
                == bad_roll_message(),
            RollOutcome::NumberTooLarge => r matches Err(CommanderError::OtherError(m)) && m@
                == too_large_message(),
        },
{
    let cs = chars_of(input);
    let p = skip_space_at(&cs, 0);
    match expr_at(&cs, p) {
        Some((t, j)) => {
            let k = skip_space_at(&cs, j);
            if k == cs.len() {
                syn_to_roll(&cs, &t)
            } else {
                Err(bad_roll_error())
            }
        },
        None => Err(bad_roll_error()),
    }
}

/// Why the `roll` command refuses its argument.
#[derive(Debug)]
pub enum RollFailure {
    /// The argument is not a dice expression.
    Parse(CommanderError),
    /// The expression throws too many dice.
    Invalid(InvalidRoll),
}

/// The `roll` command on its argument: parse it, refuse more than [`MAX_DICE_PER_ROLL`] dice,
/// and throw it. `None` where a die has no faces or `u32::MAX` faces, which cannot be thrown.
pub fn roll_command(arg: &str) -> (r: Option<Result<RollResult, RollFailure>>)
    ensures
        match spec_parse_roll(arg@) {
            RollOutcome::Parsed(x) => if total_dice(x) > MAX_DICE_PER_ROLL {
                r matches Some(Err(RollFailure::Invalid(InvalidRoll::TooManyDice)))
            } else if roll_well_formed(x) {
                r matches Some(Ok(res)) && rolls_fit(x, res@.rolls) && res@.sum == roll_value(x, res@.rolls)
            } else {
                r is None
            },
            RollOutcome::BadSyntax => r matches Some(Err(RollFailure::Parse(CommanderError::BadCommandParse(m))))
                && m@ == bad_roll_message(),
            RollOutcome::NumberTooLarge => r matches Some(
                Err(RollFailure::Parse(CommanderError::OtherError(m))),
            ) && m@ == too_large_message(),
        },
{
    let roll = match parse_roll(arg) {
        Ok(x) => x,
        Err(e) => return Some(Err(RollFailure::Parse(e))),
    };
    match roll.valid() {
        Err(e) => return Some(Err(RollFailure::Invalid(e))),
        Ok(()) => {},
    }
    if !roll.well_formed() {
        return None;
    }
    Some(Ok(roll.eval()))
}

/// The message of a string that is not a die such as `3d6`.
pub open spec fn not_a_die_message(s: Seq<char>) -> Seq<char> {
    s + " is not a valid die"@
}

/// The pattern of a die: a count, `d` and a number of faces.
pub open spec fn die_pattern() -> Seq<char> {
    "(\\d+)d(\\d+)"@
}

/// Reads a die written as `<count>d<faces>`, such as `3d6`: the first such match in the text,
/// as the `regex` crate finds it; each number is read as a `u32`, whose failure message is
/// passed on.
pub fn die(i: &str) -> (r: Result<RollComponent, CommanderError>)
    ensures
        match regex_two_groups(die_pattern(), i@) {
            None => r matches Err(CommanderError::RuntimeError(m)) && m@ == not_a_die_message(i@),
            Some((n, k)) => match uint_failure(n, u32::MAX as nat) {
                Some(m) => r matches Err(CommanderError::OtherError(x)) && x@ == m,
                None => match uint_failure(k, u32::MAX as nat) {
                    Some(m) => r matches Err(CommanderError::OtherError(x)) && x@ == m,
                    None => r == Ok::<RollComponent, CommanderError>(
                        RollComponent::Dice { num_dice: uint_value(n) as u32, die_type: uint_value(k) as u32 },
                    ),
                },
            },
        },
{
    let (n, k) = match regex_captures_two("(\\d+)d(\\d+)", i) {
        None => return Err(not_a_die_error(i)),
        Some(p) => p,
    };
    let num_dice = match read_uint(n.as_str(), u32::MAX as u64) {
        Err(m) => return Err(CommanderError::OtherError(m)),
        Ok(v) => v as u32,
    };
    let die_type = match read_uint(k.as_str(), u32::MAX as u64) {
        Err(m) => return Err(CommanderError::OtherError(m)),
        Ok(v) => v as u32,
    };
    Ok(RollComponent::Dice { num_dice, die_type })
}

fn not_a_die_error(i: &str) -> (e: CommanderError)
    ensures
        e matches CommanderError::RuntimeError(m) && m@ == not_a_die_message(i@),
{
    let mut m = String::from_str(i);
    push_str(&mut m, " is not a valid die");
    CommanderError::RuntimeError(m)
}


/// The decimal texts of the dice.
pub open spec fn roll_texts(rolls: Seq<u32>) -> Seq<Seq<char>> {
    rolls.map_values(|r: u32| decimal(r as nat))
}

/// The report of a roll, up to its average: the total, then the dice when there are fewer
/// than [`MAX_DICE_FOR_DISPLAY`] of them, each on its own line.
pub open spec fn summary_head(t: RollTally) -> Seq<char> {
    let total = "Total: "@ + signed_decimal(t.sum as int);
    if t.rolls.len() > 0 && t.rolls.len() < MAX_DICE_FOR_DISPLAY {
        total + "\nRolls: ["@ + joined(roll_texts(t.rolls), ", "@) + "]"@
    } else {
        total
    }
}

impl RollResult {
    /// The report of the roll up to its average (see [`summary_head`]). Whether an average
    /// line follows is `has_average`: it does when any die was thrown.
    pub fn summary_head(&self) -> (r: (String, bool))
        ensures
            r.0@ == summary_head(self@),
            r.1 == (self@.rolls.len() > 0),
    {
        let mut s = String::new();
        push_str(&mut s, "Total: ");
        push_signed_decimal(&mut s, self.sum);
        let n = self.rolls.len();
        if n > 0 && n < MAX_DICE_FOR_DISPLAY {
            push_str(&mut s, "\nRolls: [");
            let ghost head = s@;
            let mut i: usize = 0;
            while i < n
                invariant
                    i <= n,
                    n == self.rolls@.len(),
                    n > 0,
                    s@ == head + joined(roll_texts(self.rolls@.take(i as int)), ", "@),
                decreases n - i,
            {
                let ghost before = s@;
                if i > 0 {
                    push_str(&mut s, ", ");
                }
                push_decimal(&mut s, self.rolls[i] as u64);
                proof {
                    let t = roll_texts(self.rolls@.take(i + 1));
                    assert(t.drop_last() =~= roll_texts(self.rolls@.take(i as int)));
                    assert(t.last() == decimal(self.rolls@[i as int] as nat));
                    if i == 0 {
                        assert(t.len() == 1);
                    }
                }
                i = i + 1;
                assert(s@ =~= head + joined(roll_texts(self.rolls@.take(i as int)), ", "@));
            }
            assert(self.rolls@.take(n as int) =~= self.rolls@);
            push_str(&mut s, "]");
        }
        (s, n > 0)
    }
}

} // verus!
