//! Rolling dice from a notation such as `3d6+2`: reading the notation,
//! rolling, and reporting the result.

use vstd::prelude::*;
use crate::chance::random_in;
use crate::text::{
    decimal, find_char, index_of, parse_signed, parse_unsigned, push_decimal,
    push_signed_decimal, read_signed, read_unsigned, signed_decimal, to_chars,
};

verus! {

/// Largest number of dice in one roll.
pub const MAX_DICE: u32 = 100;

/// Largest number of sides of a die.
pub const MAX_SIDES: u32 = 1000;

/// What a notation asks for: so many dice of so many sides, and a number
/// that is added to their sum.
#[derive(Clone, Copy, Debug, PartialEq, Eq, Structural)]
pub struct DiceNotation {
    pub count: u32,
    pub sides: u32,
    pub modifier: i32,
}

/// Why a notation was not taken.
#[derive(Clone, Copy, Debug, PartialEq, Eq, Structural)]
pub enum DiceError {
    /// The notation does not hold exactly one `d`.
    InvalidFormat,
    /// What stands before the `d` is no number.
    InvalidCount,
    /// The number of dice is zero or too large.
    CountOutOfRange,
    /// What stands behind the `d` is no number.
    InvalidSides,
    /// What stands behind the sign is no number.
    InvalidModifier,
    /// The number of sides is zero or too large.
    SidesOutOfRange,
}

/// The text of an error for a notation.
pub open spec fn dice_error_text(e: DiceError, notation: Seq<char>) -> Seq<char> {
    match e {
        DiceError::InvalidFormat => "Invalid dice notation format: "@ + notation,
        DiceError::InvalidCount => "Invalid number of dice"@,
        DiceError::CountOutOfRange => "Number of dice must be between 1 and 100."@,
        DiceError::InvalidSides => "Invalid number of sides"@,
        DiceError::InvalidModifier => "Invalid modifier"@,
        DiceError::SidesOutOfRange => "Number of sides must be between 1 and 1000."@,
    }
}

impl DiceError {
    /// The text of the error for the notation that caused it.
    pub fn message(self, notation: &str) -> (r: String)
        ensures
            r@ == dice_error_text(self, notation@),
    {
        match self {
            DiceError::InvalidFormat => {
                let mut r = "Invalid dice notation format: ".to_owned();
                r.push_str(notation);
                r
            },
            DiceError::InvalidCount => "Invalid number of dice".to_owned(),
            DiceError::CountOutOfRange => "Number of dice must be between 1 and 100.".to_owned(),
            DiceError::InvalidSides => "Invalid number of sides".to_owned(),
            DiceError::InvalidModifier => "Invalid modifier".to_owned(),
            DiceError::SidesOutOfRange => "Number of sides must be between 1 and 1000.".to_owned(),
        }
    }
}

/// What stands behind the `d`: the sides, and the modifier behind the first
/// `+`, or, where there is no `+`, behind the first `-` and negated.
pub open spec fn parse_sides_and_modifier(rest: Seq<char>) -> Result<(nat, int), DiceError> {
    let plus = index_of(rest, '+');
    let minus = index_of(rest, '-');
    let cut = if plus < rest.len() {
        plus
    } else {
        minus
    };
    let signed = plus < rest.len() || minus < rest.len();
    let sides_text = if signed {
        rest.subrange(0, cut)
    } else {
        rest
    };
    let modifier_text = rest.subrange(cut + 1, rest.len() as int);
    match parse_unsigned(sides_text, u32::MAX as nat) {
        None => Err(DiceError::InvalidSides),
        Some(sides) => if !signed {
            Ok((sides, 0int))
        } else {
            match parse_signed(modifier_text, i32::MIN as int, i32::MAX as int) {
                None => Err(DiceError::InvalidModifier),
                Some(value) => if plus < rest.len() {
                    Ok((sides, value))
                } else if value == i32::MIN {
                    Err(DiceError::InvalidModifier)
                } else {
                    Ok((sides, -value))
                },
            }
        },
    }
}

/// What a notation asks for. It holds exactly one `d`; before it stands the
/// number of dice, from 1 to 100; behind it the number of sides, from 1 to
/// 1000, and then, if at all, a sign and the modifier.
pub open spec fn parse_notation(s: Seq<char>) -> Result<DiceNotation, DiceError> {
    let d = index_of(s, 'd');
    if d >= s.len() {
        Err(DiceError::InvalidFormat)
    } else {
        let rest = s.subrange(d + 1, s.len() as int);
        if index_of(rest, 'd') < rest.len() {
            Err(DiceError::InvalidFormat)
        } else {
            match parse_unsigned(s.subrange(0, d), u32::MAX as nat) {
                None => Err(DiceError::InvalidCount),
                Some(count) => if count == 0 || count > MAX_DICE {
                    Err(DiceError::CountOutOfRange)
                } else {
                    match parse_sides_and_modifier(rest) {
                        Err(e) => Err(e),
                        Ok((sides, modifier)) => if sides == 0 || sides > MAX_SIDES {
                            Err(DiceError::SidesOutOfRange)
                        } else {
                            Ok(
                                DiceNotation {
                                    count: count as u32,
                                    sides: sides as u32,
                                    modifier: modifier as i32,
                                },
                            )
                        },
                    }
                },
            }
        }
    }
}

/// Whether a notation is within the limits.
pub open spec fn valid_notation(n: DiceNotation) -> bool {
    &&& 1 <= n.count <= MAX_DICE
    &&& 1 <= n.sides <= MAX_SIDES
}

/// Reads a notation.
pub fn parse_dice_notation(notation: &str) -> (r: Result<DiceNotation, DiceError>)
    ensures
        r == parse_notation(notation@),
        r matches Ok(n) ==> valid_notation(n),
{
    let chars = to_chars(notation);
    let len: usize = chars.len();
    assert(chars@.subrange(0, len as int) =~= chars@);
    let d: usize = find_char(&chars, 0, len, 'd');
    if d >= len {
        return Err(DiceError::InvalidFormat);
    }
    let start: usize = d + 1;
    let ghost rest = chars@.subrange(start as int, len as int);
    if find_char(&chars, start, len, 'd') < len - start {
        return Err(DiceError::InvalidFormat);
    }
    let count: u32 = match read_unsigned(&chars, 0, d, 0xFFFF_FFFF) {
        None => {
            return Err(DiceError::InvalidCount);
        },
        Some(n) => n as u32,
    };
    if count == 0 || count > MAX_DICE {
        return Err(DiceError::CountOutOfRange);
    }
    let plus: usize = find_char(&chars, start, len, '+');
    let minus: usize = find_char(&chars, start, len, '-');
    let signed: bool = plus < len - start || minus < len - start;
    let cut: usize = if plus < len - start {
        plus
    } else {
        minus
    };
    let sides_end: usize = if signed {
        start + cut
    } else {
        len
    };
    proof {
        if signed {
            assert(rest.subrange(0, cut as int) =~= chars@.subrange(
                start as int,
                sides_end as int,
            ));
            assert(rest.subrange(cut + 1, rest.len() as int) =~= chars@.subrange(
                start + cut + 1,
                len as int,
            ));
        }
    }
    let sides: u32 = match read_unsigned(&chars, start, sides_end, 0xFFFF_FFFF) {
        None => {
            return Err(DiceError::InvalidSides);
        },
        Some(n) => n as u32,
    };
    let mut modifier: i32 = 0;
    if signed {
        match read_signed(&chars, start + cut + 1, len, 0x7FFF_FFFF) {
            None => {
                return Err(DiceError::InvalidModifier);
            },
            Some(value) => {
                if plus < len - start {
                    modifier = value as i32;
                } else if value == -0x8000_0000 {
                    return Err(DiceError::InvalidModifier);
                } else {
                    modifier = (-value) as i32;
                }
            },
        }
    }
    if sides == 0 || sides > MAX_SIDES {
        return Err(DiceError::SidesOutOfRange);
    }
    Ok(DiceNotation { count, sides, modifier })
}

/// The sum of the rolled values.
pub open spec fn sum(rolls: Seq<u32>) -> int
    decreases rolls.len(),
{
    if rolls.len() == 0 {
        0
    } else {
        sum(rolls.drop_last()) + rolls.last()
    }
}

/// Whether rolled values answer a notation: one value for each die, each
/// from 1 to the number of sides.
pub open spec fn valid_rolls(rolls: Seq<u32>, n: DiceNotation) -> bool {
    &&& rolls.len() == n.count
    &&& forall|i: int| 0 <= i < rolls.len() ==> 1 <= #[trigger] rolls[i] <= n.sides
}

/// The sum of values that are each from 1 to `sides` lies between their
/// number and `sides` times their number.
pub proof fn lemma_sum_bounds(rolls: Seq<u32>, sides: nat)
    requires
        forall|i: int| 0 <= i < rolls.len() ==> 1 <= #[trigger] rolls[i] <= sides,
    ensures
        rolls.len() <= sum(rolls) <= rolls.len() * sides,
    decreases rolls.len(),
{
    if rolls.len() > 0 {
        let front = rolls.drop_last();
        assert forall|i: int| 0 <= i < front.len() implies 1 <= #[trigger] front[i] <= sides by {
            assert(front[i] == rolls[i]);
        }
        lemma_sum_bounds(front, sides);
        assert(front.len() * sides + sides == rolls.len() * sides) by (nonlinear_arith)
            requires
                front.len() + 1 == rolls.len(),
        ;
    } else {
        assert(rolls.len() * sides == 0) by (nonlinear_arith)
            requires
                rolls.len() == 0,
        ;
    }
}

/// The total of a roll lies between the number of dice plus the modifier
/// and the number of dice times the sides plus the modifier.
pub proof fn lemma_total_bounds(rolls: Seq<u32>, n: DiceNotation)
    requires
        valid_rolls(rolls, n),
    ensures
        n.count + n.modifier <= sum(rolls) + n.modifier <= n.count * n.sides + n.modifier,
{
    lemma_sum_bounds(rolls, n.sides as nat);
}

/// The outcome of a roll.
#[derive(Debug, PartialEq, Eq)]
pub struct DiceRoll {
    /// The value of each die, in the order in which they were rolled.
    pub rolls: Vec<u32>,
    /// The number that was added.
    pub modifier: i32,
    /// The sum of the values and the modifier.
    pub total: i64,
}

/// Adds up rolled values and the modifier.
pub fn total_of(rolls: &Vec<u32>, modifier: i32) -> (total: i64)
    requires
        rolls.len() <= MAX_DICE,
        forall|i: int| 0 <= i < rolls.len() ==> #[trigger] rolls[i] <= MAX_SIDES,
    ensures
        total == sum(rolls@) + modifier,
{
    let mut total: i64 = 0;
    let mut i: usize = 0;
    assert(rolls@.take(0) =~= Seq::<u32>::empty());
    while i < rolls.len()
        invariant
            i <= rolls.len() <= MAX_DICE,
            forall|k: int| 0 <= k < rolls.len() ==> #[trigger] rolls[k] <= MAX_SIDES,
            total == sum(rolls@.take(i as int)),
            0 <= total <= i * MAX_SIDES,
        decreases rolls.len() - i,
    {
        assert(rolls@.take(i + 1).drop_last() =~= rolls@.take(i as int));
        assert(rolls@.take(i + 1).last() == rolls@[i as int]);
        total = total + rolls[i] as i64;
        i += 1;
    }
    assert(rolls@.take(i as int) =~= rolls@);
    total + modifier as i64
}

/// Rolls the dice of a notation.
pub fn roll(notation: DiceNotation) -> (r: DiceRoll)
    requires
        valid_notation(notation),
    ensures
        valid_rolls(r.rolls@, notation),
        r.modifier == notation.modifier,
        r.total == sum(r.rolls@) + notation.modifier,
        notation.count + notation.modifier <= r.total <= notation.count * notation.sides
            + notation.modifier,
{
    let mut rolls: Vec<u32> = Vec::new();
    let mut i: u32 = 0;
    while i < notation.count
        invariant
            i <= notation.count,
            valid_notation(notation),
            rolls.len() == i,
            forall|k: int| 0 <= k < rolls.len() ==> 1 <= #[trigger] rolls[k] <= notation.sides,
        decreases notation.count - i,
    {
        let value: u64 = random_in(1, notation.sides as u64);
        rolls.push(value as u32);
        i += 1;
    }
    let total = total_of(&rolls, notation.modifier);
    proof {
        lemma_total_bounds(rolls@, notation);
    }
    DiceRoll { rolls, modifier: notation.modifier, total }
}

/// The rolled values in decimal, separated by a comma and a space.
pub open spec fn rolls_text(rolls: Seq<u32>) -> Seq<char>
    decreases rolls.len(),
{
    if rolls.len() == 0 {
        Seq::empty()
    } else if rolls.len() == 1 {
        decimal(rolls[0] as nat)
    } else {
        rolls_text(rolls.drop_last()) + ", "@ + decimal(rolls.last() as nat)
    }
}

/// The modifier as it is reported: a sign between spaces and the amount,
/// and nothing for zero.
pub open spec fn modifier_text(modifier: int) -> Seq<char> {
    if modifier > 0 {
        " + "@ + decimal(modifier as nat)
    } else if modifier < 0 {
        " - "@ + decimal((-modifier) as nat)
    } else {
        Seq::empty()
    }
}

/// The report of a roll: the notation, the values, the modifier and the
/// total.
pub open spec fn roll_report(notation: Seq<char>, rolls: Seq<u32>, modifier: int, total: int) -> Seq<
    char,
> {
    "Rolled "@ + notation + ": ["@ + rolls_text(rolls) + "] "@ + modifier_text(modifier) + " = "@
        + signed_decimal(total)
}

/// Writes the report of a roll.
pub fn format_roll(notation: &str, outcome: &DiceRoll) -> (r: String)
    ensures
        r@ == roll_report(
            notation@,
            outcome.rolls@,
            outcome.modifier as int,
            outcome.total as int,
        ),
{
    let mut r = "Rolled ".to_owned();
    r.push_str(notation);
    r.push_str(": [");
    let ghost head = r@;
    let mut i: usize = 0;
    assert(outcome.rolls@.take(0) =~= Seq::<u32>::empty());
    assert(head + Seq::<char>::empty() =~= head);
    while i < outcome.rolls.len()
        invariant
            i <= outcome.rolls.len(),
            r@ == head + rolls_text(outcome.rolls@.take(i as int)),
        decreases outcome.rolls.len() - i,
    {
        if i > 0 {
            r.push_str(", ");
        }
        push_decimal(&mut r, outcome.rolls[i] as u64);
        proof {
            let next = outcome.rolls@.take(i + 1);
            assert(next.drop_last() =~= outcome.rolls@.take(i as int));
            assert(next.last() == outcome.rolls@[i as int]);
            if i == 0 {
                assert(r@ =~= head + decimal(outcome.rolls@[0] as nat));
            } else {
                assert(r@ =~= head + (rolls_text(outcome.rolls@.take(i as int)) + ", "@ + decimal(
                    outcome.rolls@[i as int] as nat,
                )));
            }
        }
        i += 1;
    }
    assert(outcome.rolls@.take(i as int) =~= outcome.rolls@);
    r.push_str("] ");
    if outcome.modifier > 0 {
        r.push_str(" + ");
        push_decimal(&mut r, outcome.modifier as u64);
    } else if outcome.modifier < 0 {
        r.push_str(" - ");
        push_decimal(&mut r, (-(outcome.modifier as i64)) as u64);
    }
    r.push_str(" = ");
    push_signed_decimal(&mut r, outcome.total);
    proof {
        let m = modifier_text(outcome.modifier as int);
        if outcome.modifier == 0 {
            assert(head + rolls_text(outcome.rolls@) + "] "@ + m =~= head + rolls_text(
                outcome.rolls@,
            ) + "] "@);
        }
        assert(r@ =~= roll_report(
            notation@,
            outcome.rolls@,
            outcome.modifier as int,
            outcome.total as int,
        ));
    }
    r
}

/// Rolls dice from a notation and reports the result. A notation that
/// cannot be read or is out of range gives its error; any other gives the
/// report of a roll that answers it.
pub fn roll_dice(dice_notation: &str) -> (r: Result<String, DiceError>)
    ensures
        match parse_notation(dice_notation@) {
            Err(e) => r == Err::<String, DiceError>(e),
            Ok(n) => r.is_ok() && exists|rolls: Seq<u32>|
                #![trigger valid_rolls(rolls, n)]
                valid_rolls(rolls, n) && r.unwrap()@ == roll_report(
                    dice_notation@,
                    rolls,
                    n.modifier as int,
                    sum(rolls) + n.modifier,
                ),
        },
{
    match parse_dice_notation(dice_notation) {
        Err(e) => Err(e),
        Ok(n) => {
            let outcome = roll(n);
            let report = format_roll(dice_notation, &outcome);
            assert(valid_rolls(outcome.rolls@, n));
            Ok(report)
        },
    }
}

} // verus!
