//! Lists in the order of a key: by name in catalogue order, by number, or by
//! date with the latest first. Lines of the same key stay in the order in
//! which they were given.

use crate::collation::{by_code_point, collation, collation_is_antisymmetric,
    collation_is_transitive, collation_separates, fb2sort, lexical, lexical_is_antisymmetric,
    lexical_is_transitive, lexical_separates, ordering_of, weights_are_separating};
use crate::filters::{kept_is_member, member_is_kept};
use std::cmp::Ordering;
use vstd::prelude::*;
use vstd::std_specs::iter::IteratorSpec;

verus! {

/// What a line is listed by.
#[derive(Debug)]
pub enum SortKey {
    /// A name: lines are listed in catalogue order.
    Name(String),
    /// A number: the lower comes first.
    Number(u32),
    /// A date as a text: the later in the plain order of texts comes first.
    Latest(String),
}

/// A key, over texts.
pub enum KeyView {
    Name(Seq<char>),
    Number(u32),
    Latest(Seq<char>),
}

impl View for SortKey {
    type V = KeyView;

    open spec fn view(&self) -> KeyView {
        match self {
            SortKey::Name(name) => KeyView::Name(name@),
            SortKey::Number(number) => KeyView::Number(*number),
            SortKey::Latest(date) => KeyView::Latest(date@),
        }
    }
}

/// The place of a key among keys of other sorts: names first, then numbers,
/// then dates.
pub open spec fn sort_of(key: KeyView) -> int {
    match key {
        KeyView::Name(_) => 0,
        KeyView::Number(_) => 1,
        KeyView::Latest(_) => 2,
    }
}

/// The order of two keys: -1 where the first comes first, 1 where the
/// second does, 0 where they are the same key.
pub open spec fn key_order(a: KeyView, b: KeyView) -> int {
    match (a, b) {
        (KeyView::Name(x), KeyView::Name(y)) => collation(x, y),
        (KeyView::Number(x), KeyView::Number(y)) => if x < y {
            -1
        } else if x == y {
            0
        } else {
            1
        },
        (KeyView::Latest(x), KeyView::Latest(y)) => lexical(y, x, by_code_point()),
        _ => if sort_of(a) < sort_of(b) {
            -1
        } else {
            1
        },
    }
}

/// Every key compares equal to itself, and to no other key.
pub proof fn key_order_separates(a: KeyView, b: KeyView)
    ensures
        key_order(a, b) == 0 <==> a == b,
{
    weights_are_separating();
    match (a, b) {
        (KeyView::Name(x), KeyView::Name(y)) => {
            collation_separates(x, y);
        },
        (KeyView::Latest(x), KeyView::Latest(y)) => {
            lexical_separates(y, x, by_code_point());
        },
        _ => {},
    }
}

/// Swapping two keys inverts their order.
pub proof fn key_order_is_antisymmetric(a: KeyView, b: KeyView)
    ensures
        key_order(a, b) == -key_order(b, a),
        -1 <= key_order(a, b) <= 1,
{
    match (a, b) {
        (KeyView::Name(x), KeyView::Name(y)) => {
            collation_is_antisymmetric(x, y);
        },
        (KeyView::Latest(x), KeyView::Latest(y)) => {
            lexical_is_antisymmetric(y, x, by_code_point());
            lexical_is_antisymmetric(x, y, by_code_point());
        },
        _ => {},
    }
}

/// Coming no later is transitive among keys.
pub proof fn key_order_is_transitive(a: KeyView, b: KeyView, c: KeyView)
    requires
        key_order(a, b) <= 0,
        key_order(b, c) <= 0,
    ensures
        key_order(a, c) <= 0,
        key_order(a, b) < 0 || key_order(b, c) < 0 ==> key_order(a, c) < 0,
{
    match (a, b, c) {
        (KeyView::Name(x), KeyView::Name(y), KeyView::Name(z)) => {
            collation_is_transitive(x, y, z);
        },
        (KeyView::Latest(x), KeyView::Latest(y), KeyView::Latest(z)) => {
            lexical_is_antisymmetric(y, x, by_code_point());
            lexical_is_antisymmetric(z, y, by_code_point());
            lexical_is_antisymmetric(z, x, by_code_point());
            lexical_is_transitive(z, y, x, by_code_point());
        },
        _ => {},
    }
}

/// Compares two texts in the plain order of texts: character by character,
/// by code point.
pub fn compare_code_points(lhv: &String, rhv: &String) -> (res: Ordering)
    ensures
        res == ordering_of(lexical(lhv@, rhv@, by_code_point())),
{
    let mut ac = lhv.as_str().chars();
    let mut bc = rhv.as_str().chars();
    loop
        invariant
            ac.obeys_prophetic_iter_laws(),
            bc.obeys_prophetic_iter_laws(),
            ac.decrease() is Some,
            lexical(lhv@, rhv@, by_code_point()) == lexical(
                ac.remaining(),
                bc.remaining(),
                by_code_point(),
            ),
        decreases ac.decrease()->0,
    {
        if let Some(a) = ac.next() {
            if let Some(b) = bc.next() {
                if a < b {
                    return Ordering::Less;
                } else if a > b {
                    return Ordering::Greater;
                }
            } else {
                return Ordering::Greater;
            }
        } else {
            if let Some(_) = bc.next() {
                return Ordering::Less;
            } else {
                return Ordering::Equal;
            }
        }
    }
}

/// Compares two keys.
pub fn compare_keys(a: &SortKey, b: &SortKey) -> (res: Ordering)
    ensures
        res == ordering_of(key_order(a@, b@)),
{
    match (a, b) {
        (SortKey::Name(x), SortKey::Name(y)) => fb2sort(x, y),
        (SortKey::Number(x), SortKey::Number(y)) => if *x < *y {
            Ordering::Less
        } else if *x == *y {
            Ordering::Equal
        } else {
            Ordering::Greater
        },
        (SortKey::Latest(x), SortKey::Latest(y)) => compare_code_points(y, x),
        (SortKey::Name(_), _) => Ordering::Less,
        (SortKey::Number(_), SortKey::Name(_)) => Ordering::Greater,
        (SortKey::Number(_), _) => Ordering::Less,
        (SortKey::Latest(_), _) => Ordering::Greater,
    }
}

/// The lines of a list over texts: each line's key, and what it shows.
pub open spec fn lines_of<T: View>(lines: Seq<(SortKey, T)>) -> Seq<(KeyView, T::V)> {
    lines.map_values(|line: (SortKey, T)| (line.0@, line.1@))
}

/// The test for a line of a given key.
pub open spec fn has_key<V>(key: KeyView) -> spec_fn((KeyView, V)) -> bool {
    |line: (KeyView, V)| line.0 == key
}

/// Whether no line comes after a later one by its key.
pub open spec fn in_key_order<V>(lines: Seq<(KeyView, V)>) -> bool {
    forall|i: int, j: int| 0 <= i < j < lines.len() ==> key_order(lines[i].0, lines[j].0) <= 0
}

/// Whether `after` is `before` put in the order of the keys, with the lines
/// of each key in the order in which `before` has them.
pub open spec fn stably_sorted<V>(before: Seq<(KeyView, V)>, after: Seq<(KeyView, V)>) -> bool {
    &&& in_key_order(after)
    &&& forall|key: KeyView| #[trigger]
        after.filter(has_key(key)) == before.filter(has_key(key))
}

/// `slice::sort_by` of std, called with `compare_keys` on the keys of two
/// lines as its comparison. std documents that the sort is stable and that
/// the slice then holds the elements it held before in ascending order
/// under the comparison, provided that the comparison is a total order; the
/// laws of `key_order` show that `compare_keys` is one. So the lines of
/// every key are those that were given, in the order given.
#[verifier::external_body]
pub(crate) fn sort_lines<T: View>(lines: &mut Vec<(SortKey, T)>)
    ensures
        stably_sorted(lines_of(old(lines)@), lines_of(final(lines)@)),
{
    lines.sort_by(|a, b| compare_keys(&a.0, &b.0));
}

/// Two lists in the order of their keys that hold the same lines under
/// every key, in the same order, are the same list.
pub proof fn key_order_settles_the_list<V>(x: Seq<(KeyView, V)>, y: Seq<(KeyView, V)>)
    requires
        in_key_order(x),
        in_key_order(y),
        forall|key: KeyView| #[trigger] x.filter(has_key(key)) == y.filter(has_key(key)),
    ensures
        x == y,
    decreases x.len(), y.len(),
{
    reveal(Seq::filter);
    if x.len() == 0 {
        if y.len() > 0 {
            member_is_kept(y, has_key(y[0].0), 0);
            assert(x.filter(has_key::<V>(y[0].0)) == y.filter(has_key(y[0].0)));
            kept_is_member(x, has_key(y[0].0), y[0]);
        }
        assert(x =~= y);
    } else {
        let e = x.last();
        let k = e.0;
        let same = has_key::<V>(k);
        member_is_kept(x, same, x.len() - 1);
        assert(x.filter(same) == y.filter(same));
        kept_is_member(y, same, e);
        assert(y.len() > 0);
        let f = y.last();
        let other = has_key::<V>(f.0);
        member_is_kept(y, other, y.len() - 1);
        assert(x.filter(other) == y.filter(other));
        kept_is_member(x, other, f);
        // `e` comes no later than `f` in `y`, and `f` no later than `e` in `x`.
        let at_e = choose|i: int| 0 <= i < y.len() && y[i] == e;
        let at_f = choose|i: int| 0 <= i < x.len() && x[i] == f;
        assert(key_order(k, f.0) <= 0) by {
            if at_e < y.len() - 1 {
                assert(key_order(y[at_e].0, y[y.len() - 1].0) <= 0);
            } else {
                key_order_separates(k, f.0);
            }
        }
        assert(key_order(f.0, k) <= 0) by {
            if at_f < x.len() - 1 {
                assert(key_order(x[at_f].0, x[x.len() - 1].0) <= 0);
            } else {
                key_order_separates(f.0, k);
            }
        }
        key_order_is_antisymmetric(k, f.0);
        key_order_separates(k, f.0);
        assert(f.0 == k);
        // Both lists end in the last line of that key.
        assert(x.filter(same) == x.drop_last().filter(same).push(e));
        assert(y.filter(same) == y.drop_last().filter(same).push(f));
        assert(x.filter(same).last() == e);
        assert(y.filter(same).last() == f);
        assert(e == f);
        let x0 = x.drop_last();
        let y0 = y.drop_last();
        assert forall|key: KeyView| #[trigger]
            x0.filter(has_key(key)) == y0.filter(has_key(key)) by {
            let p = has_key::<V>(key);
            assert(x.filter(p) == y.filter(p));
            if key == k {
                assert(x.filter(p).drop_last() =~= x0.filter(p));
                assert(y.filter(p).drop_last() =~= y0.filter(p));
            }
        }
        assert(in_key_order(x0)) by {
            assert forall|i: int, j: int| 0 <= i < j < x0.len() implies key_order(
                x0[i].0,
                x0[j].0,
            ) <= 0 by {
                assert(key_order(x[i].0, x[j].0) <= 0);
            }
        }
        assert(in_key_order(y0)) by {
            assert forall|i: int, j: int| 0 <= i < j < y0.len() implies key_order(
                y0[i].0,
                y0[j].0,
            ) <= 0 by {
                assert(key_order(y[i].0, y[j].0) <= 0);
            }
        }
        key_order_settles_the_list(x0, y0);
        assert(x =~= x0.push(e));
        assert(y =~= y0.push(f));
    }
}

/// There is one way only to put given lines in the order of their keys with
/// the lines of each key in the order given.
pub proof fn stable_order_is_unique<V>(
    lines: Seq<(KeyView, V)>,
    x: Seq<(KeyView, V)>,
    y: Seq<(KeyView, V)>,
)
    requires
        stably_sorted(lines, x),
        stably_sorted(lines, y),
    ensures
        x == y,
{
    assert forall|key: KeyView| #[trigger] x.filter(has_key(key)) == y.filter(has_key(key)) by {
        assert(x.filter(has_key(key)) == lines.filter(has_key(key)));
        assert(y.filter(has_key(key)) == lines.filter(has_key(key)));
    }
    key_order_settles_the_list(x, y);
}

/// The given lines in the order of their keys, with the lines of each key
/// in the order given.
pub open spec fn key_ordered<V>(lines: Seq<(KeyView, V)>) -> Seq<(KeyView, V)> {
    choose|listed: Seq<(KeyView, V)>| stably_sorted(lines, listed)
}

/// A list that is the given lines in the order of their keys, with the lines
/// of each key in the order given, is `key_ordered` of the lines.
pub proof fn key_ordered_is<V>(lines: Seq<(KeyView, V)>, listed: Seq<(KeyView, V)>)
    requires
        stably_sorted(lines, listed),
    ensures
        key_ordered(lines) == listed,
{
    stable_order_is_unique(lines, key_ordered(lines), listed);
}

} // verus!
