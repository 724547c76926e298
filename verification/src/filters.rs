//! What a filter of a sequence keeps.

use vstd::prelude::*;

verus! {

/// What a filter keeps is an element that the filter holds of.
pub proof fn kept_is_member<A>(s: Seq<A>, pred: spec_fn(A) -> bool, x: A)
    requires
        s.filter(pred).contains(x),
    ensures
        pred(x),
        s.contains(x),
    decreases s.len(),
{
    reveal(Seq::filter);
    if s.len() > 0 {
        let kept = s.drop_last().filter(pred);
        if kept.contains(x) {
            kept_is_member(s.drop_last(), pred, x);
            let i = choose|i: int| 0 <= i < s.drop_last().len() && s.drop_last()[i] == x;
            assert(s[i] == x);
        } else {
            let j = choose|j: int| 0 <= j < s.filter(pred).len() && s.filter(pred)[j] == x;
            if pred(s.last()) {
                assert(s.filter(pred) == kept.push(s.last()));
                if j < kept.len() {
                    assert(kept[j] == x);
                }
                assert(s[s.len() - 1] == x);
            }
        }
    }
}

/// A filter keeps every element that it holds of.
pub proof fn member_is_kept<A>(s: Seq<A>, pred: spec_fn(A) -> bool, i: int)
    requires
        0 <= i < s.len(),
        pred(s[i]),
    ensures
        s.filter(pred).contains(s[i]),
    decreases s.len(),
{
    reveal(Seq::filter);
    let kept = s.drop_last().filter(pred);
    if i == s.len() - 1 {
        assert(s.filter(pred) == kept.push(s.last()));
        assert(s.filter(pred)[kept.len() as int] == s[i]);
    } else {
        member_is_kept(s.drop_last(), pred, i);
        let j = choose|j: int| 0 <= j < kept.len() && kept[j] == s.drop_last()[i];
        if pred(s.last()) {
            assert(s.filter(pred) == kept.push(s.last()));
            assert(s.filter(pred)[j] == s[i]);
        } else {
            assert(s.filter(pred)[j] == s[i]);
        }
    }
}

} // verus!
