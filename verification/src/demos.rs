//! Small control-flow pieces: branching, loops and a function with two
//! results. Each returns the value it computes; printing it is left to the
//! caller.

use vstd::prelude::*;

verus! {

/// Branch on a comparison and hand back the line the branch chose.
pub fn if_demo() -> (m: &'static str)
    ensures
        m@ == "condition was true"@,
{
    let number: i32 = 3;
    if number < 5 {
        "condition was true"
    } else {
        "condition was false"
    }
}

/// A conditional is an expression: both the bound and the inline form pick
/// the same value.
pub fn ternary_demo() -> (r: (i32, i32))
    ensures
        r.0 == 5,
        r.1 == 5,
{
    let condition = true;
    let x: i32 = if condition {
        5
    } else {
        6
    };
    let inline: i32 = if condition {
        5
    } else {
        6
    };
    (x, inline)
}

/// Count up to ten, then hand back twice the counter.
pub fn loop_demo() -> (r: i32)
    ensures
        r == 20,
{
    let mut counter: i32 = 0;
    while counter != 10
        invariant
            0 <= counter <= 10,
        decreases 10 - counter,
    {
        counter += 1;
    }
    counter * 2
}

/// Count down from three: the numbers a launch would call out, in order.
pub fn while_demo() -> (v: Vec<i32>)
    ensures
        v@ == seq![3i32, 2i32, 1i32],
{
    let mut number: i32 = 3;
    let mut lines: Vec<i32> = Vec::new();
    while number != 0
        invariant
            0 <= number <= 3,
            lines@ =~= Seq::new((3 - number) as nat, |i: int| (3 - i) as i32),
        decreases number,
    {
        lines.push(number);
        number -= 1;
    }
    proof {
        assert(lines@ =~= seq![3i32, 2i32, 1i32]);
    }
    lines
}

/// Walk an array front to back, then a range back to front, and hand back
/// the elements in the order visited.
pub fn for_demo() -> (r: (Vec<i32>, Vec<i32>))
    ensures
        r.0@ == seq![10i32, 20i32, 30i32, 40i32, 50i32],
        r.1@ == seq![3i32, 2i32, 1i32],
{
    let a: [i32; 5] = [10, 20, 30, 40, 50];
    let mut values: Vec<i32> = Vec::new();
    let mut idx: usize = 0;
    while idx < 5
        invariant
            0 <= idx <= 5,
            values@ =~= a@.subrange(0, idx as int),
        decreases 5 - idx,
    {
        values.push(a[idx]);
        idx += 1;
    }
    proof {
        assert(values@ =~= seq![10i32, 20i32, 30i32, 40i32, 50i32]);
    }
    let mut reversed: Vec<i32> = Vec::new();
    let mut i: i32 = 3;
    while i >= 1
        invariant
            0 <= i <= 3,
            reversed@ =~= Seq::new((3 - i) as nat, |k: int| (3 - k) as i32),
        decreases i,
    {
        reversed.push(i);
        i -= 1;
    }
    proof {
        assert(reversed@ =~= seq![3i32, 2i32, 1i32]);
    }
    (values, reversed)
}

/// A function with one compound result: a pair of integers.
pub fn another_function(x: i32, c: char) -> (r: (i32, i32))
    ensures
        r == (2i32, 3i32),
{
    let _ = x;
    let _ = c;
    (2, 3)
}

} // verus!
