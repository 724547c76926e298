//! The order in which names are listed: the letters of the Russian alphabet
//! before every other character, and by code point among the letters and
//! among the other characters.

use crate::filters::{kept_is_member, member_is_kept};
use crate::listing::{has_key, key_order, lines_of, sort_lines, stably_sorted, KeyView, SortKey};
use std::cmp::Ordering;
use vstd::prelude::*;
use vstd::relations::{sorted_by, total_ordering};
use vstd::seq_lib::lemma_sorted_unique;
use vstd::std_specs::iter::IteratorSpec;

verus! {

/// The capital letters of the Russian alphabet, in alphabet order.
pub open spec fn cyrillic_upper() -> Seq<char> {
    seq![
        '\u{410}', '\u{411}', '\u{412}', '\u{413}', '\u{414}', '\u{415}', '\u{401}', '\u{416}',
        '\u{417}', '\u{418}', '\u{419}', '\u{41A}', '\u{41B}', '\u{41C}', '\u{41D}', '\u{41E}',
        '\u{41F}', '\u{420}', '\u{421}', '\u{422}', '\u{423}', '\u{424}', '\u{425}', '\u{426}',
        '\u{427}', '\u{428}', '\u{429}', '\u{42A}', '\u{42B}', '\u{42C}', '\u{42D}', '\u{42E}',
        '\u{42F}',
    ]
}

/// The small letters of the Russian alphabet, in alphabet order.
pub open spec fn cyrillic_lower() -> Seq<char> {
    seq![
        '\u{430}', '\u{431}', '\u{432}', '\u{433}', '\u{434}', '\u{435}', '\u{451}', '\u{436}',
        '\u{437}', '\u{438}', '\u{439}', '\u{43A}', '\u{43B}', '\u{43C}', '\u{43D}', '\u{43E}',
        '\u{43F}', '\u{440}', '\u{441}', '\u{442}', '\u{443}', '\u{444}', '\u{445}', '\u{446}',
        '\u{447}', '\u{448}', '\u{449}', '\u{44A}', '\u{44B}', '\u{44C}', '\u{44D}', '\u{44E}',
        '\u{44F}',
    ]
}

/// A letter of the catalogue's primary script, of either case.
pub open spec fn cyrillic(c: char) -> bool {
    cyrillic_upper().contains(c) || cyrillic_lower().contains(c)
}

/// A character of the ASCII range.
pub open spec fn ascii(c: char) -> bool {
    c as int <= 0x7F
}

/// The rank of a character: 0 for a Cyrillic letter, 1 for any other
/// character, of ASCII or of another script. The lower rank lists first.
pub open spec fn rank(c: char) -> int {
    if cyrillic(c) {
        0
    } else {
        1
    }
}

/// The sort key of a character: its rank first, its code point second.
pub open spec fn key(c: char) -> int {
    rank(c) * 0x11_0000 + c as int
}

/// The table of capital and small letters holds exactly the code points
/// U+0410 to U+044F and the two forms of the letter Yo.
pub proof fn cyrillic_table_is_two_ranges(c: char)
    ensures
        cyrillic(c) <==> (0x410 <= c as int <= 0x44F || c as int == 0x401 || c as int == 0x451),
{
    let up = cyrillic_upper();
    let lo = cyrillic_lower();
    let p = c as int;
    assert(up.len() == 33 && lo.len() == 33);
    if 0x410 <= p <= 0x415 {
        assert(up[p - 0x410] == c);
    } else if p == 0x401 {
        assert(up[6] == c);
    } else if 0x416 <= p <= 0x42F {
        assert(up[p - 0x410 + 1] == c);
    } else if 0x430 <= p <= 0x435 {
        assert(lo[p - 0x430] == c);
    } else if p == 0x451 {
        assert(lo[6] == c);
    } else if 0x436 <= p <= 0x44F {
        assert(lo[p - 0x430 + 1] == c);
    } else {
        assert forall|i: int| 0 <= i < 33 implies up[i] != c && lo[i] != c by {}
    }
}

/// Whether `ch` is a letter of the Russian alphabet.
pub fn is_cyrillic(ch: &char) -> (r: bool)
    ensures
        r == cyrillic(*ch),
{
    proof {
        cyrillic_table_is_two_ranges(*ch);
    }
    let c = *ch;
    ('\u{410}' <= c && c <= '\u{44F}') || c == '\u{401}' || c == '\u{451}'
}

/// The order of two texts by the weights of their characters: -1, 0 or 1.
/// The first position at which the weights differ decides; a text that is a
/// proper prefix of the other comes first.
pub open spec fn lexical(a: Seq<char>, b: Seq<char>, weight: spec_fn(char) -> int) -> int
    decreases a.len(),
{
    if a.len() == 0 {
        if b.len() == 0 {
            0
        } else {
            -1
        }
    } else if b.len() == 0 {
        1
    } else if weight(a[0]) < weight(b[0]) {
        -1
    } else if weight(a[0]) > weight(b[0]) {
        1
    } else {
        lexical(a.drop_first(), b.drop_first(), weight)
    }
}

/// No two characters have the same weight.
pub open spec fn separating(weight: spec_fn(char) -> int) -> bool {
    forall|a: char, b: char| #[trigger] weight(a) == #[trigger] weight(b) ==> a == b
}

/// The weights of the catalogue: the keys of the characters.
pub open spec fn by_key() -> spec_fn(char) -> int {
    |c: char| key(c)
}

/// The weights of the plain order of texts: the code points.
pub open spec fn by_code_point() -> spec_fn(char) -> int {
    |c: char| c as int
}

/// The order of two characters in the catalogue: -1 where `a` lists first,
/// 1 where `b` does, 0 where they are the same character.
pub open spec fn char_order(a: char, b: char) -> int {
    if key(a) < key(b) {
        -1
    } else if key(a) == key(b) {
        0
    } else {
        1
    }
}

/// The order of two names in the catalogue: -1, 0 or 1. The first position
/// at which the names differ decides by `char_order`; a name that is a
/// proper prefix of the other lists first.
pub open spec fn collation(a: Seq<char>, b: Seq<char>) -> int {
    lexical(a, b, by_key())
}

/// The keys of one rank fill a band of their own, below those of the next.
pub proof fn key_within_rank(c: char)
    ensures
        0 <= rank(c) <= 1,
        rank(c) * 0x11_0000 <= key(c) < (rank(c) + 1) * 0x11_0000,
{
}

/// A character's key determines the character.
pub proof fn char_order_separates(a: char, b: char)
    ensures
        char_order(a, b) == 0 <==> a == b,
{
}

/// A Cyrillic letter lists before any character that is none, whatever the
/// case of the letter and the code points of the two.
pub proof fn cyrillic_lists_before_others(a: char, b: char)
    requires
        cyrillic(a),
        !cyrillic(b),
    ensures
        char_order(a, b) == -1,
        char_order(b, a) == 1,
{
    cyrillic_table_is_two_ranges(a);
}

/// Two characters of the same rank list by their code points.
pub proof fn same_rank_lists_by_code_point(a: char, b: char)
    requires
        rank(a) == rank(b),
    ensures
        char_order(a, b) == -1 <==> (a as int) < (b as int),
        char_order(a, b) == 1 <==> (a as int) > (b as int),
{
}

/// Keys and code points tell any two characters apart.
pub proof fn weights_are_separating()
    ensures
        separating(by_key()),
        separating(by_code_point()),
{
    let weight = by_key();
    assert forall|a: char, b: char| #[trigger] weight(a) == #[trigger] weight(b) implies a == b by {
        char_order_separates(a, b);
    }
}

/// Every text compares equal to itself.
pub proof fn lexical_is_reflexive(a: Seq<char>, weight: spec_fn(char) -> int)
    ensures
        lexical(a, a, weight) == 0,
    decreases a.len(),
{
    if a.len() > 0 {
        lexical_is_reflexive(a.drop_first(), weight);
    }
}

/// Under weights that tell characters apart, only a text itself compares
/// equal to it.
pub proof fn lexical_separates(a: Seq<char>, b: Seq<char>, weight: spec_fn(char) -> int)
    requires
        separating(weight),
    ensures
        lexical(a, b, weight) == 0 <==> a == b,
    decreases a.len(),
{
    if a.len() > 0 && b.len() > 0 {
        lexical_separates(a.drop_first(), b.drop_first(), weight);
        if lexical(a, b, weight) == 0 {
            assert(a[0] == b[0]);
            assert(a =~= seq![a[0]] + a.drop_first());
            assert(b =~= seq![b[0]] + b.drop_first());
        }
        if a == b {
            lexical_is_reflexive(a, weight);
        }
    } else if a.len() == 0 && b.len() == 0 {
        assert(a =~= b);
    }
}

/// Swapping the texts inverts the result.
pub proof fn lexical_is_antisymmetric(a: Seq<char>, b: Seq<char>, weight: spec_fn(char) -> int)
    ensures
        lexical(a, b, weight) == -lexical(b, a, weight),
        -1 <= lexical(a, b, weight) <= 1,
    decreases a.len(),
{
    if a.len() > 0 && b.len() > 0 {
        lexical_is_antisymmetric(a.drop_first(), b.drop_first(), weight);
    }
}

/// Coming no later is transitive.
pub proof fn lexical_is_transitive(
    a: Seq<char>,
    b: Seq<char>,
    c: Seq<char>,
    weight: spec_fn(char) -> int,
)
    requires
        lexical(a, b, weight) <= 0,
        lexical(b, c, weight) <= 0,
    ensures
        lexical(a, c, weight) <= 0,
        lexical(a, b, weight) < 0 || lexical(b, c, weight) < 0 ==> lexical(a, c, weight) < 0,
    decreases a.len(),
{
    if a.len() > 0 && b.len() > 0 && c.len() > 0 {
        if weight(a[0]) == weight(b[0]) && weight(b[0]) == weight(c[0]) {
            lexical_is_transitive(a.drop_first(), b.drop_first(), c.drop_first(), weight);
        }
    }
}

/// Every name compares equal to itself.
pub proof fn collation_is_reflexive(a: Seq<char>)
    ensures
        collation(a, a) == 0,
{
    lexical_is_reflexive(a, by_key());
}

/// Only a name itself compares equal to it: the order decides between any
/// two distinct names.
pub proof fn collation_separates(a: Seq<char>, b: Seq<char>)
    ensures
        collation(a, b) == 0 <==> a == b,
{
    weights_are_separating();
    lexical_separates(a, b, by_key());
}

/// Swapping the arguments inverts the result: where `a` lists before `b`,
/// `b` lists after `a`, and the other way round.
pub proof fn collation_is_antisymmetric(a: Seq<char>, b: Seq<char>)
    ensures
        collation(a, b) == -collation(b, a),
        -1 <= collation(a, b) <= 1,
{
    lexical_is_antisymmetric(a, b, by_key());
}

/// Listing before is transitive.
pub proof fn collation_is_transitive(a: Seq<char>, b: Seq<char>, c: Seq<char>)
    requires
        collation(a, b) <= 0,
        collation(b, c) <= 0,
    ensures
        collation(a, c) <= 0,
        collation(a, b) < 0 || collation(b, c) < 0 ==> collation(a, c) < 0,
{
    lexical_is_transitive(a, b, c, by_key());
}

/// The first position at which two names differ decides their order, by the
/// order of the two characters there.
pub proof fn collation_at_first_difference(a: Seq<char>, b: Seq<char>, k: int)
    requires
        0 <= k < a.len(),
        k < b.len(),
        a.subrange(0, k) == b.subrange(0, k),
        a[k] != b[k],
    ensures
        collation(a, b) == char_order(a[k], b[k]),
    decreases k,
{
    if k > 0 {
        assert(a[0] == a.subrange(0, k)[0]);
        assert(b[0] == b.subrange(0, k)[0]);
        assert(a.drop_first().subrange(0, k - 1) =~= a.subrange(0, k).drop_first());
        assert(b.drop_first().subrange(0, k - 1) =~= b.subrange(0, k).drop_first());
        collation_at_first_difference(a.drop_first(), b.drop_first(), k - 1);
    } else {
        char_order_separates(a[0], b[0]);
    }
}

/// A name lists before every name that it is a proper prefix of.
pub proof fn prefix_lists_first(a: Seq<char>, b: Seq<char>)
    requires
        a.len() < b.len(),
        b.subrange(0, a.len() as int) == a,
    ensures
        collation(a, b) == -1,
    decreases a.len(),
{
    if a.len() > 0 {
        assert(a[0] == b.subrange(0, a.len() as int)[0]);
        assert(b.drop_first().subrange(0, a.len() - 1) =~= a.drop_first());
        prefix_lists_first(a.drop_first(), b.drop_first());
    }
}

/// Where two names first differ in a Cyrillic letter on one side and any
/// other character on the other, the name with the Cyrillic letter lists
/// first, whatever the case of the letter.
pub proof fn cyrillic_letter_lists_first(a: Seq<char>, b: Seq<char>, k: int)
    requires
        0 <= k < a.len(),
        k < b.len(),
        a.subrange(0, k) == b.subrange(0, k),
        cyrillic(a[k]),
        !cyrillic(b[k]),
    ensures
        collation(a, b) == -1,
        collation(b, a) == 1,
{
    cyrillic_table_is_two_ranges(a[k]);
    key_within_rank(a[k]);
    key_within_rank(b[k]);
    collation_at_first_difference(a, b, k);
    collation_is_antisymmetric(a, b);
}

/// The `Ordering` that stands for a sign.
pub open spec fn ordering_of(sign: int) -> Ordering {
    if sign < 0 {
        Ordering::Less
    } else if sign == 0 {
        Ordering::Equal
    } else {
        Ordering::Greater
    }
}

/// Whether `ch` is in the ASCII range.
fn is_ascii(ch: &char) -> (r: bool)
    ensures
        r == ascii(*ch),
{
    *ch <= '\u{7F}'
}

/// Whether `ch` is a letter of the catalogue's script: no ASCII character is
/// one, and the table decides on the rest.
fn is_word_script(ch: &char) -> (r: bool)
    ensures
        r == (rank(*ch) == 0),
{
    proof {
        cyrillic_table_is_two_ranges(*ch);
    }
    !is_ascii(ch) && is_cyrillic(ch)
}

/// Compares two characters: a Cyrillic letter lists before any other
/// character, and two characters of the same rank list by code point.
pub fn fb2cmp(a: &char, b: &char) -> (res: Ordering)
    ensures
        res == ordering_of(char_order(*a, *b)),
{
    let a_word = is_word_script(a);
    let b_word = is_word_script(b);
    if a_word && !b_word {
        return Ordering::Less;
    } else if !a_word && b_word {
        return Ordering::Greater;
    }
    if *a < *b {
        Ordering::Less
    } else if *a == *b {
        Ordering::Equal
    } else {
        Ordering::Greater
    }
}

/// Compares two names in catalogue order.
pub fn fb2sort(lhv: &String, rhv: &String) -> (res: Ordering)
    ensures
        res == ordering_of(collation(lhv@, rhv@)),
{
    let mut ac = lhv.as_str().chars();
    let mut bc = rhv.as_str().chars();
    loop
        invariant
            ac.obeys_prophetic_iter_laws(),
            bc.obeys_prophetic_iter_laws(),
            ac.decrease() is Some,
            collation(lhv@, rhv@) == collation(ac.remaining(), bc.remaining()),
        decreases ac.decrease()->0,
    {
        if let Some(a) = ac.next() {
            if let Some(b) = bc.next() {
                let res = fb2cmp(&a, &b);
                match res {
                    Ordering::Equal => {},
                    _ => {
                        return res;
                    },
                }
            } else {
                return Ordering::Greater;
            }
        } else {
            if let Some(_) = bc.next() {
                return Ordering::Less;
            } else {
                return Ordering::Equal;
            }
        }
    }
}

/// The names that a list of strings holds, in the order of the list.
pub open spec fn names_of(strings: Seq<String>) -> Seq<Seq<char>> {
    strings.map_values(|s: String| s@)
}

/// Whether a list of names is in catalogue order: no name lists after a
/// later one.
pub open spec fn in_catalogue_order(names: Seq<Seq<char>>) -> bool {
    forall|i: int, j: int| 0 <= i < j < names.len() ==> collation(names[i], names[j]) <= 0
}

/// The relation that a name lists no later than another.
pub open spec fn no_later() -> spec_fn(Seq<char>, Seq<char>) -> bool {
    |a: Seq<char>, b: Seq<char>| collation(a, b) <= 0
}

/// Listing no later is a total order of all names.
pub proof fn collation_is_total_order()
    ensures
        total_ordering(no_later()),
{
    let leq = no_later();
    assert forall|a: Seq<char>| #[trigger] leq(a, a) by {
        collation_is_reflexive(a);
    }
    assert forall|a: Seq<char>, b: Seq<char>| #[trigger] leq(a, b) && #[trigger] leq(b, a) implies a
        == b by {
        collation_is_antisymmetric(a, b);
        collation_separates(a, b);
    }
    assert forall|a: Seq<char>, b: Seq<char>, c: Seq<char>| #[trigger]
        leq(a, b) && #[trigger] leq(b, c) implies leq(a, c) by {
        collation_is_transitive(a, b, c);
    }
    assert forall|a: Seq<char>, b: Seq<char>| #[trigger] leq(a, b) || #[trigger] leq(b, a) by {
        collation_is_antisymmetric(a, b);
    }
}

/// There is one way only to put given names in catalogue order.
pub proof fn catalogue_order_is_unique(x: Seq<Seq<char>>, y: Seq<Seq<char>>)
    requires
        in_catalogue_order(x),
        in_catalogue_order(y),
        x.to_multiset() == y.to_multiset(),
    ensures
        x == y,
{
    collation_is_total_order();
    assert(sorted_by(x, no_later()));
    assert(sorted_by(y, no_later()));
    lemma_sorted_unique(x, y, no_later());
}

/// The given names in catalogue order.
pub open spec fn catalogue_order(names: Seq<Seq<char>>) -> Seq<Seq<char>> {
    names.sort_by(no_later())
}

/// `catalogue_order` keeps every name, as often as it was given, and lists
/// no name after a later one.
pub proof fn catalogue_order_lists_all(names: Seq<Seq<char>>)
    ensures
        in_catalogue_order(catalogue_order(names)),
        catalogue_order(names).to_multiset() == names.to_multiset(),
        catalogue_order(names).len() == names.len(),
{
    collation_is_total_order();
    names.lemma_sort_by_ensures(no_later());
    let listed = catalogue_order(names);
    assert(in_catalogue_order(listed)) by {
        assert forall|i: int, j: int| 0 <= i < j < listed.len() implies collation(
            listed[i],
            listed[j],
        ) <= 0 by {
            assert(no_later()(listed[i], listed[j]));
        }
    }
    listed.to_multiset_ensures();
    names.to_multiset_ensures();
}

/// The lines that stand for names: each listed by the name, and showing
/// nothing else.
pub open spec fn name_lines(names: Seq<Seq<char>>) -> Seq<(KeyView, ())> {
    names.map_values(|name: Seq<char>| (KeyView::Name(name), ()))
}

/// The test for a given name.
pub open spec fn is_name(name: Seq<char>) -> spec_fn(Seq<char>) -> bool {
    |other: Seq<char>| other == name
}

/// A sequence holds a value as often as a filter for the value keeps it.
proof fn count_is_kept<A>(s: Seq<A>, value: A, same: spec_fn(A) -> bool)
    requires
        forall|other: A| #[trigger] same(other) == (other == value),
    ensures
        s.to_multiset().count(value) == s.filter(same).len(),
    decreases s.len(),
{
    reveal(Seq::filter);
    if s.len() > 0 {
        count_is_kept(s.drop_last(), value, same);
        assert(s =~= s.drop_last().push(s.last()));
        vstd::seq_lib::to_multiset_build(s.drop_last(), s.last());
    } else {
        s.to_multiset_ensures();
    }
}

/// The lines of a key among the lines that stand for names are as many as
/// the name is among the names.
proof fn lines_of_a_name(names: Seq<Seq<char>>, name: Seq<char>)
    ensures
        name_lines(names).filter(has_key(KeyView::Name(name))).len() == names.filter(
            is_name(name),
        ).len(),
    decreases names.len(),
{
    reveal(Seq::filter);
    if names.len() > 0 {
        lines_of_a_name(names.drop_last(), name);
        assert(name_lines(names).drop_last() =~= name_lines(names.drop_last()));
        assert(name_lines(names).last() == (KeyView::Name(names.last()), ()));
    }
}

/// Lines that stand for names and are in the order of their keys stand for
/// the names in catalogue order.
proof fn sorted_lines_are_sorted_names(names: Seq<Seq<char>>, listed: Seq<Seq<char>>)
    requires
        stably_sorted(name_lines(names), name_lines(listed)),
    ensures
        listed == catalogue_order(names),
{
    let before = name_lines(names);
    let after = name_lines(listed);
    assert(in_catalogue_order(listed)) by {
        assert forall|i: int, j: int| 0 <= i < j < listed.len() implies collation(
            listed[i],
            listed[j],
        ) <= 0 by {
            assert(key_order(after[i].0, after[j].0) <= 0);
        }
    }
    assert forall|name: Seq<char>|
        listed.to_multiset().count(name) == names.to_multiset().count(name) by {
        count_is_kept(listed, name, is_name(name));
        count_is_kept(names, name, is_name(name));
        lines_of_a_name(listed, name);
        lines_of_a_name(names, name);
        assert(after.filter(has_key(KeyView::Name(name))) == before.filter(
            has_key(KeyView::Name(name)),
        ));
    }
    assert(listed.to_multiset() =~= names.to_multiset());
    catalogue_order_lists_all(names);
    catalogue_order_is_unique(listed, catalogue_order(names));
}

/// Puts names in catalogue order.
pub fn sorted(patterns: Vec<String>) -> (strings: Vec<String>)
    ensures
        names_of(strings@) == catalogue_order(names_of(patterns@)),
{
    let ghost names = names_of(patterns@);
    let mut lines: Vec<(SortKey, ())> = Vec::new();
    proof {
        assert(lines_of(lines@) =~= name_lines(names.take(0)));
    }
    for pattern in it: patterns
        invariant
            it.seq() == patterns@,
            names == names_of(patterns@),
            lines_of(lines@) == name_lines(names.take(it.index() as int)),
    {
        let ghost before = lines_of(lines@);
        proof {
            let seen = it.index() as int;
            assert(names.take(seen + 1) =~= names.take(seen).push(pattern@));
            assert(name_lines(names.take(seen + 1)) =~= name_lines(names.take(seen)).push(
                (KeyView::Name(pattern@), ()),
            ));
        }
        lines.push((SortKey::Name(pattern), ()));
        proof {
            assert(lines_of(lines@) =~= before.push((KeyView::Name(pattern@), ())));
        }
    }
    proof {
        assert(names.take(names.len() as int) =~= names);
    }
    sort_lines(&mut lines);
    let ghost listed = lines_of(lines@);
    proof {
        // Every line that comes out is one that went in: a line of a name.
        assert forall|i: int| 0 <= i < listed.len() implies (#[trigger] listed[i]).0 is Name by {
            let key = listed[i].0;
            member_is_kept(listed, has_key(key), i);
            assert(listed.filter(has_key(key)) == name_lines(names).filter(has_key(key)));
            kept_is_member(name_lines(names), has_key(key), listed[i]);
        }
    }
    let mut strings: Vec<String> = Vec::new();
    let ghost mut found: Seq<Seq<char>> = Seq::empty();
    proof {
        assert(name_lines(found) =~= listed.take(0));
    }
    for line in it: lines
        invariant
            it.seq() == lines@,
            listed == lines_of(lines@),
            forall|i: int| 0 <= i < listed.len() ==> (#[trigger] listed[i]).0 is Name,
            names_of(strings@) == found,
            name_lines(found) == listed.take(it.index() as int),
    {
        let ghost strings_before = strings@;
        let ghost seen = it.index() as int;
        proof {
            assert(listed[seen] == (line.0@, ()));
            assert(listed[seen].0 is Name);
        }
        match line.0 {
            SortKey::Name(name) => {
                proof {
                    assert(listed.take(seen + 1) =~= listed.take(seen).push(
                        (KeyView::Name(name@), ()),
                    ));
                    assert(name_lines(found.push(name@)) =~= name_lines(found).push(
                        (KeyView::Name(name@), ()),
                    ));
                    found = found.push(name@);
                }
                strings.push(name);
                proof {
                    assert(names_of(strings@) =~= names_of(strings_before).push(name@));
                }
            },
            _ => {
                assert(false);
            },
        }
    }
    proof {
        assert(listed.take(listed.len() as int) =~= listed);
        sorted_lines_are_sorted_names(names, found);
    }
    strings
}

} // verus!
