//! First steps: a sum, a name bound more than once, a look into a fixed
//! array, and loops that count and walk.
//!
//! What these steps have to show goes to the caller as plain values, for the
//! caller to print.

use crate::text::{parse_unsigned, parsed_unsigned};
use vstd::prelude::*;

verus! {

/// The sum of `x` and `y`, which has to fit in 32 bits.
pub fn sum(x: i32, y: i32) -> (total: i32)
    requires
        i32::MIN <= x + y <= i32::MAX,
    ensures
        total == x + y,
{
    x + y
}

/// A name bound three times. The second binding adds one to the first, which
/// was 5; a third, in an inner scope, doubles the second and ends with that
/// scope. Hands back the value seen inside the inner scope, then the value
/// seen after it.
pub fn shadowed() -> (seen: (i32, i32))
    ensures
        seen.0 == 12,
        seen.1 == 6,
{
    let x: i32 = 5;
    let x: i32 = x + 1;
    let inner: i32 = {
        let x: i32 = x * 2;
        x
    };
    (inner, x)
}

/// The five numbers that [`element_at`] looks into.
pub open spec fn sample_elements() -> Seq<i32> {
    seq![-1i32, 2i32, -3i32, 4i32, -5i32]
}

/// The sample element at `index`, if there is one.
pub fn element_at(index: usize) -> (element: Option<i32>)
    ensures
        index < sample_elements().len() ==> element == Some(sample_elements()[index as int]),
        index >= sample_elements().len() ==> element.is_none(),
{
    let a: [i32; 5] = [-1, 2, -3, 4, -5];
    if index < a.len() {
        Some(a[index])
    } else {
        None
    }
}

/// Why a line of input leads to no sample element.
#[derive(Clone, Copy, Debug, PartialEq, Eq, Structural)]
pub enum LookupError {
    /// The line does not hold an unsigned number that fits an index.
    NotANumber,
    /// The line holds this index, which lies behind the last element.
    OutOfBounds(usize),
}

/// What [`lookup_line`] owes for `line`: the index that the line holds, and
/// the sample element there if there is one.
pub open spec fn looked_up(line: Seq<char>) -> Result<(usize, i32), LookupError> {
    match parsed_unsigned(line, usize::MAX as u64) {
        None => Err(LookupError::NotANumber),
        Some(index) => if index < sample_elements().len() {
            Ok((index as usize, sample_elements()[index as int]))
        } else {
            Err(LookupError::OutOfBounds(index as usize))
        },
    }
}

/// Reads an index from one line of input and looks up the sample element
/// there.
pub fn lookup_line(line: &str) -> (found: Result<(usize, i32), LookupError>)
    ensures
        found == looked_up(line@),
{
    match parse_unsigned(line, usize::MAX as u64) {
        None => Err(LookupError::NotANumber),
        Some(number) => {
            let index: usize = number as usize;
            match element_at(index) {
                Some(element) => Ok((index, element)),
                None => Err(LookupError::OutOfBounds(index)),
            }
        },
    }
}

/// One line of the report that [`count_up`] gives of its run.
#[derive(Clone, Copy, Debug, PartialEq, Eq, Structural)]
pub enum Tick {
    /// The outer loop starts a round with its counter at this value.
    Counter(u32),
    /// The inner loop counts down and has this much left.
    Remaining(u32),
}

/// The ticks of `count` full rounds: in each the counter, then 10 and 9 left.
spec fn full_rounds(count: nat) -> Seq<Tick>
    decreases count,
{
    if count == 0 {
        Seq::empty()
    } else {
        full_rounds((count - 1) as nat) + seq![
            Tick::Counter((count - 1) as u32),
            Tick::Remaining(10),
            Tick::Remaining(9),
        ]
    }
}

/// The whole run: two full rounds, and a third that leaves both loops at
/// once as soon as it has started to count down.
pub open spec fn count_up_ticks() -> Seq<Tick> {
    seq![
        Tick::Counter(0),
        Tick::Remaining(10),
        Tick::Remaining(9),
        Tick::Counter(1),
        Tick::Remaining(10),
        Tick::Remaining(9),
        Tick::Counter(2),
        Tick::Remaining(10),
    ]
}

/// Counts up in an outer loop while an inner loop counts down from 10. The
/// inner loop ends a round at 9; once the counter stands at 2 it ends the
/// outer loop too. Hands back every tick in order, and the counter at the
/// end.
pub fn count_up() -> (run: (Vec<Tick>, u32))
    ensures
        run.0@ == count_up_ticks(),
        run.1 == 2,
{
    let mut ticks: Vec<Tick> = Vec::new();
    let mut count: u32 = 0;
    'counting_up: loop
        invariant_except_break
            count <= 2,
            ticks@ == full_rounds(count as nat),
        ensures
            count == 2,
            ticks@ == full_rounds(2) + seq![Tick::Counter(2), Tick::Remaining(10)],
        decreases 2 - count,
    {
        ticks.push(Tick::Counter(count));
        let mut remaining: u32 = 10;
        loop
            invariant_except_break
                count <= 2,
                9 <= remaining <= 10,
                remaining == 9 ==> count < 2,
                ticks@ == full_rounds(count as nat) + seq![Tick::Counter(count)] + (if remaining
                    == 10 {
                    Seq::<Tick>::empty()
                } else {
                    seq![Tick::Remaining(10)]
                }),
            ensures
                count < 2,
                ticks@ == full_rounds(count as nat) + seq![
                    Tick::Counter(count),
                    Tick::Remaining(10),
                    Tick::Remaining(9),
                ],
            decreases remaining,
        {
            ticks.push(Tick::Remaining(remaining));
            if remaining == 9 {
                break ;
            }
            if count == 2 {
                break 'counting_up;
            }
            remaining -= 1;
        }
        count += 1;
    }
    proof {
        reveal_with_fuel(full_rounds, 3);
    }
    (ticks, count)
}

/// The five numbers that [`while_values`] and [`for_values`] walk over.
pub open spec fn walked_elements() -> Seq<i32> {
    seq![10i32, 20i32, 30i32, 40i32, 50i32]
}

/// Walks over the array with `while` and an index, and hands back the
/// elements in the order in which it met them.
pub fn while_values() -> (values: Vec<i32>)
    ensures
        values@ == walked_elements(),
{
    let a: [i32; 5] = [10, 20, 30, 40, 50];
    let mut values: Vec<i32> = Vec::new();
    let mut index: usize = 0;
    while index < 5
        invariant
            index <= 5,
            a@ == walked_elements(),
            values@ == a@.take(index as int),
        decreases 5 - index,
    {
        values.push(a[index]);
        index += 1;
    }
    values
}

/// Walks over the same array with `for`, and hands back the elements in the
/// order in which it met them.
pub fn for_values() -> (values: Vec<i32>)
    ensures
        values@ == walked_elements(),
{
    let a: [i32; 5] = [10, 20, 30, 40, 50];
    let mut values: Vec<i32> = Vec::new();
    for element in it: a.iter()
        invariant
            a@ == walked_elements(),
            it.seq().len() == 5,
            forall|i: int| 0 <= i < 5 ==> *it.seq()[i] == a@[i],
            values@ == a@.take(it.index()),
    {
        values.push(*element);
    }
    values
}

} // verus!
