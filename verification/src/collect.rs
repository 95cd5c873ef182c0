//! Gathering optional values.

use vstd::prelude::*;

verus! {

/// The values inside `items`, in their order, unless one of them is missing.
pub open spec fn all_present<T>(items: Seq<Option<T>>) -> Option<Seq<T>> {
    if forall|i: int| 0 <= i < items.len() ==> (#[trigger] items[i]).is_some() {
        Some(Seq::new(items.len(), |i: int| items[i].unwrap()))
    } else {
        None
    }
}

/// Unwraps every item, or returns `None` if any item is `None`.
pub fn try_collect<T>(items: Vec<Option<T>>) -> (r: Option<Vec<T>>)
    ensures
        r.is_some() == all_present(items@).is_some(),
        r matches Some(v) ==> Some(v@) == all_present(items@),
{
    let ghost all = items@;
    let mut rest = items;
    let mut out: Vec<T> = Vec::new();
    let n = rest.len();
    let mut k: usize = 0;
    // `pop` hands the items out last to first: collect them so, then reverse.
    while k < n
        invariant
            k <= n,
            n == all.len(),
            all == items@,
            rest@ == all.subrange(0, n - k),
            out@.len() == k,
            forall|j: int| 0 <= j < k ==> all[n - 1 - j] == Some(#[trigger] out@[j]),
        decreases n - k,
    {
        let last = rest.pop();
        assert(last == Some(all[n - 1 - k]));
        match last {
            Some(Some(x)) => {
                out.push(x);
            },
            _ => {
                assert(all[n - 1 - k].is_none());
                return None;
            },
        }
        k += 1;
    }
    let mut i: usize = 0;
    let mut result: Vec<T> = Vec::new();
    while i < n
        invariant
            i <= n,
            n == all.len(),
            all == items@,
            out@.len() == n - i,
            result@.len() == i,
            forall|j: int| 0 <= j < n - i ==> all[n - 1 - j] == Some(#[trigger] out@[j]),
            forall|j: int| 0 <= j < i ==> all[j] == Some(#[trigger] result@[j]),
        decreases n - i,
    {
        match out.pop() {
            Some(x) => {
                result.push(x);
            },
            None => {
            },
        }
        i += 1;
    }
    assert forall|j: int| 0 <= j < all.len() implies (#[trigger] all[j]).is_some() by {
        assert(all[j] == Some(result@[j]));
    }
    assert(result@ =~= Seq::new(all.len(), |i: int| all[i].unwrap()));
    Some(result)
}

} // verus!
