//! Initiative: how a roll of the hundred-sided die and a character's
//! alertness decide the character's place in the turn order.

use crate::characters::Initiative;
use crate::dice::roll_d100;
use crate::roster::{Character, Roster};
use vstd::prelude::*;

verus! {

/// The largest initiative that any roll of the die can give.
pub const MAX_INITIATIVE: u8 = 28;

/// The tens digit of a roll. A roll of 100 has ten tens.
pub open spec fn tens_of(roll: u8) -> int {
    roll as int / 10
}

/// The ones digit of a roll.
pub open spec fn ones_of(roll: u8) -> int {
    roll as int % 10
}

/// A roll whose two digits agree, such as 33 or 77.
pub open spec fn is_double(roll: u8) -> bool {
    tens_of(roll) == ones_of(roll)
}

/// The alertness check succeeds when the roll reaches the alertness.
pub open spec fn check_succeeds(alertness: u8, roll: u8) -> bool {
    alertness <= roll
}

/// The initiative that a character of the given alertness takes from a roll.
///
/// On a success the initiative is the sum of the roll's digits, and a double
/// adds ten. On a failure the initiative is the ones digit, and a double
/// drops it to zero.
pub open spec fn initiative_for(alertness: u8, roll: u8) -> int {
    if check_succeeds(alertness, roll) {
        if is_double(roll) {
            tens_of(roll) + ones_of(roll) + 10
        } else {
            tens_of(roll) + ones_of(roll)
        }
    } else {
        if is_double(roll) {
            0
        } else {
            ones_of(roll)
        }
    }
}

/// What `roll_initiative` may return: the initiative for some roll of the die.
pub open spec fn is_rolled_initiative(alertness: u8, value: u8) -> bool {
    exists|roll: u8| 1 <= roll <= 100 && value == #[trigger] initiative_for(alertness, roll)
}

/// Computes the initiative for a roll that was already made.
pub fn initiative_from_roll(alertness: u8, roll: u8) -> (value: u8)
    ensures
        value == initiative_for(alertness, roll),
{
    let tens: u8 = roll / 10;
    let ones: u8 = roll % 10;
    if alertness <= roll {
        if tens == ones {
            tens + ones + 10
        } else {
            tens + ones
        }
    } else {
        if tens == ones {
            0
        } else {
            ones
        }
    }
}

/// Rolls the die once and returns the initiative that the roll gives.
pub fn roll_initiative(alertness: u8) -> (value: u8)
    ensures
        is_rolled_initiative(alertness, value),
        value <= MAX_INITIATIVE,
{
    let roll = roll_d100();
    let value = initiative_from_roll(alertness, roll);
    proof {
        lemma_initiative_range(alertness, roll);
    }
    value
}

/// Every value is a roll of the die.
pub open spec fn are_rolls(rolls: Seq<u8>) -> bool {
    forall|i: int| 0 <= i < rolls.len() ==> 1 <= #[trigger] rolls[i] <= 100
}

/// A character after its initiative was taken from a roll. A character
/// without skills does not roll and keeps what it had.
pub open spec fn with_roll(character: Character, roll: u8) -> Character {
    match character.skills {
        Some(skills) => Character {
            initiative: Some(
                Initiative { value: initiative_for(skills.alertness.value, roll) as u8 },
            ),
            ..character
        },
        None => character,
    }
}

/// `after` is `before` with each character's initiative taken from the
/// roll at the character's place. Where the rolls run out, the characters
/// keep what they had.
pub open spec fn assigned(before: Seq<Character>, rolls: Seq<u8>, after: Seq<Character>) -> bool {
    &&& after.len() == before.len()
    &&& forall|i: int|
        0 <= i < before.len() ==> #[trigger] after[i] == if i < rolls.len() {
            with_roll(before[i], rolls[i])
        } else {
            before[i]
        }
}

/// Rolls the die `count` times.
pub fn roll_many(count: usize) -> (rolls: Vec<u8>)
    ensures
        rolls@.len() == count,
        are_rolls(rolls@),
{
    let mut rolls: Vec<u8> = Vec::new();
    while rolls.len() < count
        invariant
            rolls@.len() <= count,
            are_rolls(rolls@),
        decreases count - rolls@.len(),
    {
        let roll = roll_d100();
        rolls.push(roll);
    }
    rolls
}

/// Gives every character that has skills the initiative of the roll at its
/// place. Nothing else of the roster changes.
pub fn assign_with(roster: &mut Roster, rolls: &Vec<u8>)
    ensures
        assigned(old(roster)@, rolls@, final(roster)@),
{
    let mut i: usize = 0;
    while i < roster.characters.len() && i < rolls.len()
        invariant
            roster@.len() == old(roster)@.len(),
            i <= roster@.len(),
            i <= rolls@.len(),
            forall|j: int| 0 <= j < i ==> #[trigger] roster@[j] == with_roll(old(roster)@[j], rolls@[j]),
            forall|j: int| i <= j < roster@.len() ==> #[trigger] roster@[j] == old(roster)@[j],
        decreases roster@.len() - i,
    {
        let alertness = match &roster.characters[i].skills {
            Some(skills) => Some(skills.alertness.value),
            None => None,
        };
        if let Some(alertness) = alertness {
            let value = initiative_from_roll(alertness, rolls[i]);
            roster.characters[i].initiative = Some(Initiative { value });
        }
        i += 1;
    }
}

/// Rolls the initiative of every character that has skills, one roll each,
/// and writes it into the roster. Calling it again rolls again.
pub fn assign_all(roster: &mut Roster)
    ensures
        exists|rolls: Seq<u8>|
            rolls.len() == old(roster)@.len() && are_rolls(rolls) && #[trigger] assigned(
                old(roster)@,
                rolls,
                final(roster)@,
            ),
{
    let rolls = roll_many(roster.len());
    assign_with(roster, &rolls);
}

/// A roll changes nothing of a character but its initiative.
pub proof fn lemma_roll_sets_initiative_only(character: Character, roll: u8)
    ensures
        with_roll(character, roll) == (Character {
            initiative: with_roll(character, roll).initiative,
            ..character
        }),
{
}

/// After an assignment from rolls of the die, every character with skills
/// has an initiative of at most 28, and a character without skills is as
/// it was.
pub proof fn lemma_assigned_range(before: Seq<Character>, rolls: Seq<u8>, after: Seq<Character>, at: int)
    requires
        assigned(before, rolls, after),
        are_rolls(rolls),
        rolls.len() == before.len(),
        0 <= at < before.len(),
    ensures
        before[at].skills is Some ==> after[at].initiative is Some
            && after[at].initiative->0.value <= MAX_INITIATIVE,
        before[at].skills is None ==> after[at] == before[at],
{
    assert(after[at] == with_roll(before[at], rolls[at]));
    if before[at].skills is Some {
        lemma_initiative_range(before[at].skills->0.alertness.value, rolls[at]);
    }
}

/// For a roll of the die, the initiative lies between 0 and 28, whatever the
/// alertness.
pub proof fn lemma_initiative_range(alertness: u8, roll: u8)
    requires
        1 <= roll <= 100,
    ensures
        0 <= initiative_for(alertness, roll) <= MAX_INITIATIVE,
{
}

/// The bound of 28 is reached: a roll of 99 against an alertness that it
/// meets gives exactly 28.
pub proof fn lemma_initiative_peak(alertness: u8)
    requires
        alertness <= 99,
    ensures
        initiative_for(alertness, 99) == MAX_INITIATIVE,
{
}

/// Which branch a roll takes shows in the result: a success gives at least 1,
/// a failure at most 9.
pub proof fn lemma_initiative_branches(alertness: u8, roll: u8)
    requires
        1 <= roll <= 100,
    ensures
        check_succeeds(alertness, roll) ==> 1 <= initiative_for(alertness, roll),
        !check_succeeds(alertness, roll) ==> initiative_for(alertness, roll) <= 9,
        !check_succeeds(alertness, roll) && is_double(roll) ==> initiative_for(alertness, roll) == 0,
{
}

/// A double that succeeds is worth ten more than its digits, and so never
/// less than 12.
pub proof fn lemma_double_bonus(alertness: u8, roll: u8)
    requires
        1 <= roll <= 100,
        check_succeeds(alertness, roll),
        is_double(roll),
    ensures
        initiative_for(alertness, roll) == 2 * ones_of(roll) + 10,
        initiative_for(alertness, roll) >= 12,
{
}

} // verus!
