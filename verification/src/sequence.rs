//! Sequences turned round, so that they can be worked off from the front by popping.
use vstd::prelude::*;

verus! {

/// Moves the items of `items` into a vector that holds them in the opposite order.
pub(crate) fn reversed<A>(items: Vec<A>) -> (turned: Vec<A>)
    ensures
        turned@ == items@.reverse(),
{
    let mut rest = items;
    let mut turned: Vec<A> = Vec::new();
    while rest.len() > 0
        invariant
            rest@.len() <= items@.len(),
            rest@ == items@.take(rest@.len() as int),
            turned@ == items@.skip(rest@.len() as int).reverse(),
        decreases rest@.len(),
    {
        if let Some(item) = rest.pop() {
            turned.push(item);
        }
    }
    turned
}

/// Popping the last item off takes the first one off the sequence turned round.
pub(crate) proof fn lemma_reverse_after_pop<A>(items: Seq<A>)
    requires
        items.len() > 0,
    ensures
        items.reverse()[0] == items.last(),
        items.reverse().drop_first() == items.drop_last().reverse(),
{
    assert(items.reverse().drop_first() =~= items.drop_last().reverse());
}

/// Turning a sequence round twice gives the sequence back.
pub(crate) proof fn lemma_reverse_twice<A>(items: Seq<A>)
    ensures
        items.reverse().reverse() == items,
{
    assert(items.reverse().reverse() =~= items);
}

} // verus!
