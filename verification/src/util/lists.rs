//! Lists handed on item by item.

use vstd::prelude::*;

verus! {

/// The items of `list` in the opposite order.
pub fn reversed<T>(list: Vec<T>) -> (turned: Vec<T>)
    ensures
        turned@ == list@.reverse(),
{
    let mut list = list;
    let ghost whole = list@;
    let mut turned: Vec<T> = Vec::new();
    while list.len() > 0
        invariant
            list@.len() + turned@.len() == whole.len(),
            list@ == whole.take(list@.len() as int),
            forall|k: int|
                0 <= k < turned@.len() ==> #[trigger] turned@[k] == whole[whole.len() - 1 - k],
        decreases list@.len(),
    {
        let item = list.pop().unwrap();
        turned.push(item);
    }
    proof {
        assert(turned@ =~= whole.reverse());
    }
    turned
}

} // verus!
