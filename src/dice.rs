//! Dice: rolling them, and writing out a roll.
use crate::chance::random_below;
use crate::error::BotError;
use crate::text::{decimal, decimal_of};
use vstd::prelude::*;

verus! {

/// The most dice one roll may throw.
pub const MAX_DICE: i32 = 1000;

/// Rolls of more dice than this are written out as a placeholder.
pub const SHOWN_ROLLS: usize = 100;

/// Whether `roll_dice` takes the pair `(dice, sides)`.
pub open spec fn valid_roll(dice: i32, sides: i32) -> bool {
    0 <= dice <= MAX_DICE && sides > 1
}

/// Rolls `dice` dice with faces `1..sides`: each value is drawn on its own from
/// `1` up to, but not including, `sides`.
pub fn roll_dice(dice: i32, sides: i32) -> (r: Result<Vec<i32>, BotError>)
    ensures
        !valid_roll(dice, sides) ==> r == Err::<Vec<i32>, BotError>(BotError::InvalidArgument),
        valid_roll(dice, sides) ==> r is Ok,
        r is Ok ==> r->Ok_0@.len() == dice,
        r is Ok ==> forall|i: int|
            0 <= i < r->Ok_0@.len() ==> 1 <= #[trigger] r->Ok_0@[i] < sides,
        valid_roll(dice, sides) && dice == 0 ==> r is Ok && r->Ok_0@ == Seq::<i32>::empty(),
{
    if dice < 0 || dice > MAX_DICE || sides <= 1 {
        return Err(BotError::InvalidArgument);
    }
    let mut rolls: Vec<i32> = Vec::new();
    let mut i: i32 = 0;
    while i < dice
        invariant
            0 <= i <= dice,
            sides > 1,
            rolls@.len() == i,
            forall|k: int| 0 <= k < rolls@.len() ==> 1 <= #[trigger] rolls@[k] < sides,
        decreases dice - i,
    {
        let v = random_below((sides - 1) as u64);
        rolls.push(1 + v as i32);
        i = i + 1;
    }
    assert(dice == 0 ==> rolls@ =~= Seq::<i32>::empty());
    Ok(rolls)
}

/// The decimal notation of an integer, with a leading `-` where it is negative.
pub open spec fn signed_decimal(n: int) -> Seq<char> {
    if n < 0 {
        "-"@ + decimal_of((-n) as nat)
    } else {
        decimal_of(n as nat)
    }
}

/// The decimal notation of `n`, with a leading `-` where it is negative.
pub fn signed_text(n: i64) -> (r: String)
    ensures
        r@ == signed_decimal(n as int),
{
    if n < 0 {
        let mut r = String::from_str("-");
        let digits = decimal((-(n as i128)) as u64);
        r.append(digits.as_str());
        r
    } else {
        decimal(n as u64)
    }
}

/// The sum of the rolls.
pub open spec fn roll_sum(rs: Seq<i32>) -> int
    decreases rs.len(),
{
    if rs.len() == 0 {
        0
    } else {
        roll_sum(rs.drop_last()) + rs.last()
    }
}

/// The rolls in order, joined by ` + `.
pub open spec fn rolls_joined(rs: Seq<i32>) -> Seq<char>
    decreases rs.len(),
{
    if rs.len() == 0 {
        Seq::empty()
    } else if rs.len() == 1 {
        signed_decimal(rs[0] as int)
    } else {
        rolls_joined(rs.drop_last()) + " + "@ + signed_decimal(rs.last() as int)
    }
}

/// A roll as the bot writes it: the token as given, the rolls (or a
/// placeholder where there are too many to show), and their total where there
/// is more than one.
pub open spec fn roll_text(token: Seq<char>, rs: Seq<i32>) -> Seq<char> {
    "`rolls "@ + token + "`: "@ + (if rs.len() > SHOWN_ROLLS {
        "(truncated)"@
    } else {
        rolls_joined(rs)
    }) + (if rs.len() > 1 {
        " = **"@ + signed_decimal(roll_sum(rs)) + "**"@
    } else {
        Seq::empty()
    })
}

/// Writes out a roll of the dice token `token` that gave `rolls`.
pub fn render_roll(token: &str, rolls: &Vec<i32>) -> (r: String)
    requires
        rolls@.len() <= MAX_DICE,
    ensures
        r@ == roll_text(token@, rolls@),
{
    let mut total: i64 = 0;
    let mut shown = String::new();
    let mut i: usize = 0;
    while i < rolls.len()
        invariant
            i <= rolls@.len() <= MAX_DICE,
            total == roll_sum(rolls@.take(i as int)),
            -(i as int) * 0x8000_0000 <= total <= (i as int) * 0x8000_0000,
            i <= SHOWN_ROLLS ==> shown@ == rolls_joined(rolls@.take(i as int)),
        decreases rolls@.len() - i,
    {
        assert(rolls@.take(i + 1).drop_last() =~= rolls@.take(i as int));
        let v = rolls[i];
        if i < SHOWN_ROLLS {
            if i > 0 {
                shown.append(" + ");
            }
            let digits = signed_text(v as i64);
            shown.append(digits.as_str());
        }
        total = total + v as i64;
        i = i + 1;
    }
    assert(rolls@.take(i as int) =~= rolls@);
    let mut r = String::from_str("`rolls ");
    r.append(token);
    r.append("`: ");
    if rolls.len() > SHOWN_ROLLS {
        r.append("(truncated)");
    } else {
        r.append(shown.as_str());
    }
    if rolls.len() > 1 {
        r.append(" = **");
        let sum = signed_text(total);
        r.append(sum.as_str());
        r.append("**");
    }
    assert(r@ =~= roll_text(token@, rolls@));
    r
}

/// Rolls the dice that a roll command asked for and writes out the result.
pub fn roll_reply(token: &str, dice: i32, sides: i32) -> (r: Result<String, BotError>)
    ensures
        !valid_roll(dice, sides) ==> r == Err::<String, BotError>(BotError::InvalidArgument),
        valid_roll(dice, sides) ==> r is Ok,
        r is Ok ==> exists|rs: Seq<i32>|
            rs.len() == dice && (forall|i: int| 0 <= i < rs.len() ==> 1 <= #[trigger] rs[i] < sides)
                && r->Ok_0@ == roll_text(token@, rs),
{
    match roll_dice(dice, sides) {
        Ok(rolls) => {
            let text = render_roll(token, &rolls);
            Ok(text)
        },
        Err(e) => Err(e),
    }
}

} // verus!
