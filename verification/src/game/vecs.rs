//! Copying and joining vectors of plain values.

use vstd::prelude::*;

verus! {

/// Puts `items` behind what `pile` holds, in their order.
pub fn append<T: Copy>(pile: &mut Vec<T>, items: &Vec<T>)
    ensures
        final(pile)@ == old(pile)@ + items@,
{
    let mut i: usize = 0;
    while i < items.len()
        invariant
            i <= items@.len(),
            pile@ == old(pile)@ + items@.take(i as int),
        decreases items@.len() - i,
    {
        pile.push(items[i]);
        proof {
            assert(pile@ =~= old(pile)@ + items@.take(i + 1));
        }
        i += 1;
    }
    proof {
        assert(items@.take(items@.len() as int) =~= items@);
    }
}

/// A copy of the items.
pub fn copy_of<T: Copy>(items: &Vec<T>) -> (copy: Vec<T>)
    ensures
        copy@ == items@,
{
    let mut copy: Vec<T> = Vec::new();
    append(&mut copy, items);
    copy
}

} // verus!
