//! Narrowing a prefix until it names something: given a mask and an oracle
//! that lists the next-longer prefixes below a mask, find the names that the
//! mask already resolves to and the prefixes to offer next, walking through
//! every stretch of the way on which there is no choice.

use crate::collation::names_of;
use crate::filters::kept_is_member;
use vstd::prelude::*;

verus! {

/// The lowercase form of a name, as std's `str::to_lowercase` computes it.
pub uninterp spec fn lowercase_of(name: Seq<char>) -> Seq<char>;

/// `str::to_lowercase` of std: the lowercase form of the string, which
/// depends on the characters of the string alone.
#[verifier::external_body]
fn lowercase(name: &String) -> (lower: String)
    ensures
        lower@ == lowercase_of(name@),
{
    name.to_lowercase()
}

/// Whether two names differ at most in the case of their letters.
pub open spec fn case_variants(a: Seq<char>, b: Seq<char>) -> bool {
    lowercase_of(a) == lowercase_of(b)
}

/// Whether two names differ at most in the case of their letters.
pub fn same_ignoring_case(a: &String, b: &String) -> (same: bool)
    ensures
        same == case_variants(a@, b@),
{
    lowercase(a) == lowercase(b)
}

/// The test for a candidate that is the mask itself.
pub open spec fn is_mask(mask: Seq<char>) -> spec_fn(Seq<char>) -> bool {
    |c: Seq<char>| c == mask
}

/// The test for a candidate that is another name than the mask.
pub open spec fn leads_on(mask: Seq<char>) -> spec_fn(Seq<char>) -> bool {
    |c: Seq<char>| c != mask
}

/// The candidates that are the mask itself: the mask is a complete name.
pub open spec fn exact_of(mask: Seq<char>, candidates: Seq<Seq<char>>) -> Seq<Seq<char>> {
    candidates.filter(is_mask(mask))
}

/// The candidates that lead further than the mask, in the oracle's order.
pub open spec fn tail_of(mask: Seq<char>, candidates: Seq<Seq<char>>) -> Seq<Seq<char>> {
    candidates.filter(leads_on(mask))
}

/// Parts the candidates for a mask into those that are the mask itself and
/// the rest, each part in the order of the candidates.
pub fn split_candidates(mask: &String, candidates: Vec<String>) -> (parts: (Vec<String>, Vec<String>))
    ensures
        names_of(parts.0@) == exact_of(mask@, names_of(candidates@)),
        names_of(parts.1@) == tail_of(mask@, names_of(candidates@)),
{
    let ghost all = names_of(candidates@);
    let ghost is_mask = is_mask(mask@);
    let ghost is_other = leads_on(mask@);
    let mut exact: Vec<String> = Vec::new();
    let mut tail: Vec<String> = Vec::new();
    proof {
        reveal(Seq::filter);
        assert(all.take(0) =~= Seq::<Seq<char>>::empty());
        assert(names_of(exact@) =~= all.take(0).filter(is_mask));
        assert(names_of(tail@) =~= all.take(0).filter(is_other));
    }
    for candidate in it: candidates
        invariant
            it.seq() == candidates@,
            all == names_of(candidates@),
            names_of(exact@) == all.take(it.index() as int).filter(is_mask),
            names_of(tail@) == all.take(it.index() as int).filter(is_other),
            is_mask == self::is_mask(mask@),
            is_other == leads_on(mask@),
    {
        let ghost exact_before = exact@;
        let ghost tail_before = tail@;
        proof {
            reveal(Seq::filter);
            let seen = it.index() as int;
            assert(candidate == candidates@[seen]);
            assert(all.take(seen + 1).drop_last() =~= all.take(seen));
            assert(all.take(seen + 1).last() == candidate@);
        }
        if *mask == candidate {
            exact.push(candidate);
            proof {
                assert(names_of(exact@) =~= names_of(exact_before).push(candidate@));
            }
        } else {
            tail.push(candidate);
            proof {
                assert(names_of(tail@) =~= names_of(tail_before).push(candidate@));
            }
        }
    }
    proof {
        assert(all.take(all.len() as int) =~= all);
    }
    (exact, tail)
}

/// What one round of a search leads to.
#[derive(Debug)]
pub enum Step {
    /// Nothing leads further than the mask.
    Resolved,
    /// There is one way on: the search goes on with this mask.
    Descend(String),
    /// There are several ways on: these are offered, and the search ends.
    Offer(Vec<String>),
}

/// What one round of a search leads to, over names.
pub enum Outcome {
    Resolved,
    Descend(Seq<char>),
    Offer(Seq<Seq<char>>),
}

impl View for Step {
    type V = Outcome;

    open spec fn view(&self) -> Outcome {
        match self {
            Step::Resolved => Outcome::Resolved,
            Step::Descend(mask) => Outcome::Descend(mask@),
            Step::Offer(tail) => Outcome::Offer(names_of(tail@)),
        }
    }
}

/// The rule of a round, over the candidates that lead further: none ends
/// the search; a single one is followed; two are followed through the first
/// where `variants` says that they count as one; anything else is offered.
pub open spec fn decision(tail: Seq<Seq<char>>, variants: bool) -> Outcome {
    if tail.len() == 0 {
        Outcome::Resolved
    } else if tail.len() == 1 || (tail.len() == 2 && variants) {
        Outcome::Descend(tail[0])
    } else {
        Outcome::Offer(tail)
    }
}

/// Whether a tail of two counts as one way on: only where the policy says
/// so, and the two differ at most in case.
pub open spec fn counts_as_one(collapse_case_variants: bool, tail: Seq<Seq<char>>) -> bool {
    collapse_case_variants && tail.len() == 2 && case_variants(tail[0], tail[1])
}

/// What a round leads to, given the mask that was asked about and the
/// candidates that came back.
pub open spec fn outcome(
    collapse_case_variants: bool,
    mask: Seq<char>,
    candidates: Seq<Seq<char>>,
) -> Outcome {
    let tail = tail_of(mask, candidates);
    decision(tail, counts_as_one(collapse_case_variants, tail))
}

/// Applies the rule of a round to the candidates that lead further.
pub fn decide(tail: Vec<String>, variants: bool) -> (step: Step)
    ensures
        step@ == decision(names_of(tail@), variants),
{
    let mut tail = tail;
    if tail.is_empty() {
        Step::Resolved
    } else if tail.len() == 1 || (tail.len() == 2 && variants) {
        let next = tail.swap_remove(0);
        Step::Descend(next)
    } else {
        Step::Offer(tail)
    }
}

/// One round of a search: parts the candidates for `mask` into the exact
/// matches and the rest, and decides from the rest how the search goes on.
pub fn step(mask: &String, candidates: Vec<String>, collapse_case_variants: bool) -> (round: (
    Vec<String>,
    Step,
))
    ensures
        names_of(round.0@) == exact_of(mask@, names_of(candidates@)),
        round.1@ == outcome(collapse_case_variants, mask@, names_of(candidates@)),
{
    let (exact, tail) = split_candidates(mask, candidates);
    let variants = collapse_case_variants && tail.len() == 2 && same_ignoring_case(
        &tail[0],
        &tail[1],
    );
    (exact, decide(tail, variants))
}

/// One round of a search: the mask that the oracle was asked about and the
/// candidates that it handed back.
pub struct Round {
    pub mask: Seq<char>,
    pub candidates: Seq<Seq<char>>,
}

/// The oracle can hand back these candidates for this mask.
pub open spec fn answers<E, F: Fn(&String) -> Result<Vec<String>, E>>(
    fetcher: F,
    mask: Seq<char>,
    candidates: Seq<Seq<char>>,
) -> bool {
    exists|m: String, found: Vec<String>|
        m@ == mask && names_of(found@) == candidates && #[trigger] call_ensures(
            fetcher,
            (&m,),
            Ok::<Vec<String>, E>(found),
        )
}

/// The oracle can fail with this error for this mask.
pub open spec fn refuses<E, F: Fn(&String) -> Result<Vec<String>, E>>(
    fetcher: F,
    mask: Seq<char>,
    error: E,
) -> bool {
    exists|m: String|
        m@ == mask && #[trigger] call_ensures(fetcher, (&m,), Err::<Vec<String>, E>(error))
}

/// The rounds are a walk from `root`: the first asks about `root`, each is
/// an answer of the oracle, and each but the last leads to the mask of the
/// next.
pub open spec fn walk<E, F: Fn(&String) -> Result<Vec<String>, E>>(
    fetcher: F,
    collapse_case_variants: bool,
    root: Seq<char>,
    rounds: Seq<Round>,
) -> bool {
    &&& rounds.len() > 0 ==> rounds[0].mask == root
    &&& forall|i: int|
        0 <= i < rounds.len() ==> answers(
            fetcher,
            (#[trigger] rounds[i]).mask,
            rounds[i].candidates,
        )
    &&& forall|i: int|
        0 <= i < rounds.len() - 1 ==> outcome(
            collapse_case_variants,
            (#[trigger] rounds[i]).mask,
            rounds[i].candidates,
        ) == Outcome::Descend(rounds[i + 1].mask)
}

/// The mask that a walk asks about next: `root` before the first round, and
/// after a round that is followed the mask that it leads to.
pub open spec fn next_mask(collapse_case_variants: bool, root: Seq<char>, rounds: Seq<Round>) -> Seq<
    char,
> {
    if rounds.len() == 0 {
        root
    } else {
        match outcome(collapse_case_variants, rounds.last().mask, rounds.last().candidates) {
            Outcome::Descend(mask) => mask,
            _ => rounds.last().mask,
        }
    }
}

/// The exact matches of all rounds, in the order of the rounds.
pub open spec fn exact_found(rounds: Seq<Round>) -> Seq<Seq<char>>
    decreases rounds.len(),
{
    if rounds.len() == 0 {
        Seq::empty()
    } else {
        exact_found(rounds.drop_last()) + exact_of(rounds.last().mask, rounds.last().candidates)
    }
}

/// What a search hands back: the names that the mask resolves to, and the
/// prefixes to offer for going on.
#[derive(Debug)]
pub struct Resolution {
    pub exact: Vec<String>,
    pub continuations: Vec<String>,
}

/// The rounds are a finished walk from `root` with this result: the last
/// round is not followed, `exact` holds the exact matches of all rounds, and
/// `continuations` what the last round offers.
pub open spec fn resolves<E, F: Fn(&String) -> Result<Vec<String>, E>>(
    fetcher: F,
    collapse_case_variants: bool,
    root: Seq<char>,
    rounds: Seq<Round>,
    exact: Seq<Seq<char>>,
    continuations: Seq<Seq<char>>,
) -> bool {
    &&& rounds.len() > 0
    &&& walk(fetcher, collapse_case_variants, root, rounds)
    &&& exact == exact_found(rounds)
    &&& match outcome(collapse_case_variants, rounds.last().mask, rounds.last().candidates) {
        Outcome::Resolved => continuations.len() == 0,
        Outcome::Descend(_) => false,
        Outcome::Offer(tail) => continuations == tail,
    }
}

/// The rounds are a walk from `root` that ends in a failure: every round is
/// followed, and the oracle fails with `error` for the mask that the last
/// one leads to (for `root`, where there is no round).
pub open spec fn fails<E, F: Fn(&String) -> Result<Vec<String>, E>>(
    fetcher: F,
    collapse_case_variants: bool,
    root: Seq<char>,
    rounds: Seq<Round>,
    error: E,
) -> bool {
    &&& walk(fetcher, collapse_case_variants, root, rounds)
    &&& rounds.len() > 0 ==> outcome(
        collapse_case_variants,
        rounds.last().mask,
        rounds.last().candidates,
    ) is Descend
    &&& refuses(fetcher, next_mask(collapse_case_variants, root, rounds), error)
}

/// The rounds are a walk of the search from `root` that ended as `found`
/// says: with the names and prefixes of a result, or with the oracle's error.
pub open spec fn searched<E, F: Fn(&String) -> Result<Vec<String>, E>>(
    fetcher: F,
    collapse_case_variants: bool,
    root: Seq<char>,
    rounds: Seq<Round>,
    found: Result<Resolution, E>,
) -> bool {
    match found {
        Ok(resolution) => resolves(
            fetcher,
            collapse_case_variants,
            root,
            rounds,
            names_of(resolution.exact@),
            names_of(resolution.continuations@),
        ),
        Err(error) => fails(fetcher, collapse_case_variants, root, rounds, error),
    }
}

/// Each candidate that the oracle hands back for a mask, but the mask
/// itself, lies deeper than the mask: `depth` measures how far a search can
/// still go from a mask.
pub open spec fn descends<E, F: Fn(&String) -> Result<Vec<String>, E>>(
    fetcher: F,
    depth: spec_fn(Seq<char>) -> nat,
) -> bool {
    forall|m: String, found: Vec<String>, i: int|
        #![trigger call_ensures(fetcher, (&m,), Ok::<Vec<String>, E>(found)), found@[i]]
        call_ensures(fetcher, (&m,), Ok::<Vec<String>, E>(found)) && 0 <= i < found@.len()
            && found@[i]@ != m@ ==> depth(found@[i]@) < depth(m@)
}

/// The oracle can be asked about every mask, and no search with it goes on
/// for ever.
pub open spec fn well_founded<E, F: Fn(&String) -> Result<Vec<String>, E>>(fetcher: F) -> bool {
    &&& forall|m: String| call_requires(fetcher, (&m,))
    &&& exists|depth: spec_fn(Seq<char>) -> nat| descends(fetcher, depth)
}

/// A search, with its policy on candidates that differ in case only.
#[derive(Debug, Clone, Copy)]
pub struct Navigator {
    /// Whether two candidates that differ at most in the case of their
    /// letters are followed as one, in place of being offered.
    pub collapse_case_variants: bool,
}

impl Navigator {
    pub fn new(collapse_case_variants: bool) -> (navigator: Navigator)
        ensures
            navigator.collapse_case_variants == collapse_case_variants,
    {
        Navigator { collapse_case_variants }
    }

    /// Resolves `mask` against the oracle `fetcher`: asks about the mask,
    /// keeps the exact matches, and follows the candidates for as long as
    /// there is one way on. A failure of the oracle ends the search and is
    /// handed back as it is.
    pub fn resolve<E, F: Fn(&String) -> Result<Vec<String>, E>>(&self, mask: &str, fetcher: F) -> (found:
        Result<Resolution, E>)
        requires
            well_founded(fetcher),
        ensures
            exists|rounds: Seq<Round>|
                searched(fetcher, self.collapse_case_variants, mask@, rounds, found),
            found matches Ok(resolution) ==> forall|i: int|
                0 <= i < resolution.continuations@.len() ==> (
                #[trigger] resolution.continuations@[i])@ != mask@,
    {
        let collapse = self.collapse_case_variants;
        let ghost depth = choose|depth: spec_fn(Seq<char>) -> nat| descends(fetcher, depth);
        let ghost mut rounds: Seq<Round> = Seq::empty();
        let mut current = mask.to_owned();
        let mut exact: Vec<String> = Vec::new();
        proof {
            assert(names_of(exact@) =~= exact_found(rounds));
        }
        loop
            invariant
                well_founded(fetcher),
                descends(fetcher, depth),
                collapse == self.collapse_case_variants,
                walk(fetcher, collapse, mask@, rounds),
                rounds.len() > 0 ==> outcome(
                    collapse,
                    rounds.last().mask,
                    rounds.last().candidates,
                ) is Descend,
                current@ == next_mask(collapse, mask@, rounds),
                names_of(exact@) == exact_found(rounds),
            decreases depth(current@),
        {
            let candidates = match fetcher(&current) {
                Ok(candidates) => candidates,
                Err(error) => {
                    let found = Err(error);
                    proof {
                        assert(searched(fetcher, collapse, mask@, rounds, found));
                    }
                    return found;
                },
            };
            let ghost round = Round { mask: current@, candidates: names_of(candidates@) };
            let ghost earlier = rounds;
            let ghost exact_before = exact@;
            let ghost asked = candidates;
            let (mut matches, step) = step(&current, candidates, collapse);
            let ghost matched = matches@;
            exact.append(&mut matches);
            proof {
                rounds = earlier.push(round);
                assert(rounds.drop_last() =~= earlier);
                assert(names_of(exact@) =~= names_of(exact_before) + names_of(matched));
                assert(answers(fetcher, round.mask, round.candidates));
                assert(walk(fetcher, collapse, mask@, rounds)) by {
                    assert forall|i: int| 0 <= i < rounds.len() implies answers(
                        fetcher,
                        (#[trigger] rounds[i]).mask,
                        rounds[i].candidates,
                    ) by {
                        if i < earlier.len() {
                            assert(rounds[i] == earlier[i]);
                        }
                    }
                    assert forall|i: int| 0 <= i < rounds.len() - 1 implies outcome(
                        collapse,
                        (#[trigger] rounds[i]).mask,
                        rounds[i].candidates,
                    ) == Outcome::Descend(rounds[i + 1].mask) by {
                        assert(rounds[i] == earlier[i]);
                        if i < earlier.len() - 1 {
                            assert(rounds[i + 1] == earlier[i + 1]);
                        } else {
                            assert(earlier[i] == earlier.last());
                        }
                    }
                }
            }
            match step {
                Step::Resolved => {
                    let continuations: Vec<String> = Vec::new();
                    let found = Ok(Resolution { exact, continuations });
                    proof {
                        assert(searched(fetcher, collapse, mask@, rounds, found));
                    }
                    return found;
                },
                Step::Descend(next) => {
                    proof {
                        lemma_tail_is_deeper(fetcher, depth, current, asked);
                        let tail = tail_of(current@, names_of(asked@));
                        assert(tail.contains(tail[0]));
                    }
                    current = next;
                },
                Step::Offer(continuations) => {
                    proof {
                        continuations_lie_below_root(
                            fetcher,
                            collapse,
                            mask@,
                            rounds,
                            names_of(exact@),
                            names_of(continuations@),
                            depth,
                        );
                        assert forall|i: int| 0 <= i < continuations@.len() implies (
                        #[trigger] continuations@[i])@ != mask@ by {
                            assert(names_of(continuations@)[i] == continuations@[i]@);
                        }
                    }
                    let found = Ok(Resolution { exact, continuations });
                    proof {
                        assert(searched(fetcher, collapse, mask@, rounds, found));
                    }
                    return found;
                },
            }
        }
    }
}

/// Resolves `mask` against the oracle `fetcher`, following two candidates
/// that differ at most in case as one. Hands back the exact matches and
/// the prefixes to offer, or the oracle's failure as it is.
pub fn search_by_mask<E, F: Fn(&String) -> Result<Vec<String>, E>>(mask: &str, fetcher: F) -> (found:
    Result<(Vec<String>, Vec<String>), E>)
    requires
        well_founded(fetcher),
    ensures
        exists|rounds: Seq<Round>| searched_lists(fetcher, mask@, rounds, found),
        found matches Ok(lists) ==> forall|i: int|
            0 <= i < lists.1@.len() ==> (#[trigger] lists.1@[i])@ != mask@,
{
    let navigator = Navigator::new(true);
    match navigator.resolve(mask, fetcher) {
        Ok(resolution) => {
            let ghost whole: Result<Resolution, E> = Ok(resolution);
            let found = Ok((resolution.exact, resolution.continuations));
            proof {
                let rounds = choose|rounds: Seq<Round>|
                    searched(fetcher, true, mask@, rounds, whole);
                assert(searched_lists(fetcher, mask@, rounds, found));
            }
            found
        },
        Err(error) => {
            let ghost whole: Result<Resolution, E> = Err(error);
            let found = Err(error);
            proof {
                let rounds = choose|rounds: Seq<Round>|
                    searched(fetcher, true, mask@, rounds, whole);
                assert(searched_lists(fetcher, mask@, rounds, found));
            }
            found
        },
    }
}

/// The rounds are a walk from `root`, with case variants followed as one,
/// that ended as `found` says: with the exact matches and the prefixes to
/// offer, or with the oracle's error.
pub open spec fn searched_lists<E, F: Fn(&String) -> Result<Vec<String>, E>>(
    fetcher: F,
    root: Seq<char>,
    rounds: Seq<Round>,
    found: Result<(Vec<String>, Vec<String>), E>,
) -> bool {
    match found {
        Ok(lists) => resolves(fetcher, true, root, rounds, names_of(lists.0@), names_of(lists.1@)),
        Err(error) => fails(fetcher, true, root, rounds, error),
    }
}

/// In a finished walk, every prefix that is offered lies deeper than the
/// root, so the root itself is never offered.
pub proof fn continuations_lie_below_root<E, F: Fn(&String) -> Result<Vec<String>, E>>(
    fetcher: F,
    collapse_case_variants: bool,
    root: Seq<char>,
    rounds: Seq<Round>,
    exact: Seq<Seq<char>>,
    continuations: Seq<Seq<char>>,
    depth: spec_fn(Seq<char>) -> nat,
)
    requires
        resolves(fetcher, collapse_case_variants, root, rounds, exact, continuations),
        descends(fetcher, depth),
    ensures
        forall|i: int|
            0 <= i < continuations.len() ==> depth(#[trigger] continuations[i]) < depth(root)
                && continuations[i] != root,
{
    let last = rounds.last();
    walk_goes_deeper(fetcher, collapse_case_variants, root, rounds, depth, rounds.len() - 1);
    assert forall|i: int| 0 <= i < continuations.len() implies depth(#[trigger] continuations[i])
        < depth(root) && continuations[i] != root by {
        assert(continuations == tail_of(last.mask, last.candidates));
        assert(continuations.contains(continuations[i]));
        round_goes_deeper(fetcher, depth, last, continuations[i]);
    }
}

/// In a finished walk, every exact match is the mask of a round, and the
/// oracle's answer in that round holds it: the name is one that the oracle
/// confirmed.
pub proof fn exact_matches_are_confirmed<E, F: Fn(&String) -> Result<Vec<String>, E>>(
    fetcher: F,
    collapse_case_variants: bool,
    root: Seq<char>,
    rounds: Seq<Round>,
    exact: Seq<Seq<char>>,
    continuations: Seq<Seq<char>>,
)
    requires
        resolves(fetcher, collapse_case_variants, root, rounds, exact, continuations),
    ensures
        forall|name: Seq<char>| #[trigger]
            exact.contains(name) ==> exists|i: int|
                0 <= i < rounds.len() && (#[trigger] rounds[i]).mask == name && answers(
                    fetcher,
                    name,
                    rounds[i].candidates,
                ) && rounds[i].candidates.contains(name),
{
    assert forall|name: Seq<char>| #[trigger] exact.contains(name) implies exists|i: int|
        0 <= i < rounds.len() && (#[trigger] rounds[i]).mask == name && answers(
            fetcher,
            name,
            rounds[i].candidates,
        ) && rounds[i].candidates.contains(name) by {
        let i = exact_match_comes_from_round(rounds, name);
        assert(answers(fetcher, rounds[i].mask, rounds[i].candidates));
    }
}

/// An oracle whose candidates, but for the mask itself, are longer than the
/// mask and no longer than some bound, can be searched: no search with it
/// goes on for ever.
pub proof fn extending_oracle_is_well_founded<E, F: Fn(&String) -> Result<Vec<String>, E>>(
    fetcher: F,
    bound: nat,
)
    requires
        forall|m: String| call_requires(fetcher, (&m,)),
        forall|m: String, found: Vec<String>, i: int|
            #![trigger call_ensures(fetcher, (&m,), Ok::<Vec<String>, E>(found)), found@[i]]
            call_ensures(fetcher, (&m,), Ok::<Vec<String>, E>(found)) && 0 <= i < found@.len()
                && found@[i]@ != m@ ==> m@.len() < found@[i]@.len() <= bound,
    ensures
        well_founded(fetcher),
{
    let depth = |name: Seq<char>|
        if name.len() <= bound {
            (bound - name.len()) as nat
        } else {
            0nat
        };
    assert(descends(fetcher, depth)) by {
        assert forall|m: String, found: Vec<String>, i: int|
            #![trigger call_ensures(fetcher, (&m,), Ok::<Vec<String>, E>(found)), found@[i]]
            call_ensures(fetcher, (&m,), Ok::<Vec<String>, E>(found)) && 0 <= i < found@.len()
                && found@[i]@ != m@ implies depth(found@[i]@) < depth(m@) by {
            assert(m@.len() < found@[i]@.len() <= bound);
        }
    }
}

/// The oracle has one answer only for each mask: the candidates that
/// `answer` gives.
pub open spec fn answers_with<E, F: Fn(&String) -> Result<Vec<String>, E>>(
    fetcher: F,
    answer: spec_fn(Seq<char>) -> Seq<Seq<char>>,
) -> bool {
    forall|mask: Seq<char>, candidates: Seq<Seq<char>>| #[trigger]
        answers(fetcher, mask, candidates) ==> candidates == answer(mask)
}

/// What a search of `rounds` rounds from `mask` finds with an oracle that
/// answers as `answer` says: the exact matches, and the prefixes to offer.
pub open spec fn resolution(
    answer: spec_fn(Seq<char>) -> Seq<Seq<char>>,
    collapse_case_variants: bool,
    mask: Seq<char>,
    rounds: nat,
) -> (Seq<Seq<char>>, Seq<Seq<char>>)
    decreases rounds,
{
    if rounds == 0 {
        (Seq::empty(), Seq::empty())
    } else {
        let candidates = answer(mask);
        let here = exact_of(mask, candidates);
        match outcome(collapse_case_variants, mask, candidates) {
            Outcome::Resolved => (here, Seq::empty()),
            Outcome::Offer(tail) => (here, tail),
            Outcome::Descend(next) => {
                let deeper = resolution(answer, collapse_case_variants, next, (rounds - 1) as nat);
                (here + deeper.0, deeper.1)
            },
        }
    }
}

/// With an oracle that has one answer for each mask, the result of a search
/// is settled by the answers: it is the `resolution` of the mask.
pub proof fn search_is_settled_by_the_answers<E, F: Fn(&String) -> Result<Vec<String>, E>>(
    fetcher: F,
    answer: spec_fn(Seq<char>) -> Seq<Seq<char>>,
    collapse_case_variants: bool,
    root: Seq<char>,
    rounds: Seq<Round>,
    exact: Seq<Seq<char>>,
    continuations: Seq<Seq<char>>,
)
    requires
        answers_with(fetcher, answer),
        resolves(fetcher, collapse_case_variants, root, rounds, exact, continuations),
    ensures
        (exact, continuations) == resolution(answer, collapse_case_variants, root, rounds.len()),
    decreases rounds.len(),
{
    let first = rounds[0];
    assert(answers(fetcher, first.mask, first.candidates));
    assert(first.candidates == answer(root));
    exact_found_from_the_first(rounds);
    if rounds.len() == 1 {
        assert(rounds.drop_first() =~= Seq::<Round>::empty());
        assert(rounds.last() == first);
        assert(exact =~= exact_of(root, first.candidates));
        if outcome(collapse_case_variants, root, first.candidates) is Resolved {
            assert(continuations =~= Seq::<Seq<char>>::empty());
        }
    } else {
        let later = rounds.drop_first();
        assert(outcome(collapse_case_variants, first.mask, first.candidates) == Outcome::Descend(
            rounds[1].mask,
        ));
        assert(later.last() == rounds.last());
        assert(walk(fetcher, collapse_case_variants, rounds[1].mask, later)) by {
            assert(later[0] == rounds[1]);
            assert forall|i: int| 0 <= i < later.len() implies answers(
                fetcher,
                (#[trigger] later[i]).mask,
                later[i].candidates,
            ) by {
                assert(later[i] == rounds[i + 1]);
            }
            assert forall|i: int| 0 <= i < later.len() - 1 implies outcome(
                collapse_case_variants,
                (#[trigger] later[i]).mask,
                later[i].candidates,
            ) == Outcome::Descend(later[i + 1].mask) by {
                assert(later[i] == rounds[i + 1]);
                assert(later[i + 1] == rounds[i + 2]);
            }
        }
        search_is_settled_by_the_answers(
            fetcher,
            answer,
            collapse_case_variants,
            rounds[1].mask,
            later,
            exact_found(later),
            continuations,
        );
    }
}

/// The exact matches of some rounds are those of the first round and behind
/// them those of the later rounds.
proof fn exact_found_from_the_first(rounds: Seq<Round>)
    requires
        rounds.len() > 0,
    ensures
        exact_found(rounds) == exact_of(rounds[0].mask, rounds[0].candidates) + exact_found(
            rounds.drop_first(),
        ),
    decreases rounds.len(),
{
    let first = exact_of(rounds[0].mask, rounds[0].candidates);
    if rounds.len() == 1 {
        assert(rounds.drop_last() =~= Seq::<Round>::empty());
        assert(rounds.drop_first() =~= Seq::<Round>::empty());
        assert(rounds.last() == rounds[0]);
        assert(exact_found(rounds) =~= first + exact_found(rounds.drop_first()));
    } else {
        let earlier = rounds.drop_last();
        exact_found_from_the_first(earlier);
        assert(earlier[0] == rounds[0]);
        assert(earlier.drop_first() =~= rounds.drop_first().drop_last());
        assert(rounds.drop_first().last() == rounds.last());
        let last = exact_of(rounds.last().mask, rounds.last().candidates);
        assert(exact_found(rounds.drop_first()) == exact_found(earlier.drop_first()) + last);
        assert(exact_found(rounds) =~= first + exact_found(rounds.drop_first()));
    }
}

/// An exact match of some rounds is the mask of one of them, and among its
/// candidates.
proof fn exact_match_comes_from_round(rounds: Seq<Round>, name: Seq<char>) -> (i: int)
    requires
        exact_found(rounds).contains(name),
    ensures
        0 <= i < rounds.len(),
        rounds[i].mask == name,
        rounds[i].candidates.contains(name),
    decreases rounds.len(),
{
    let last = rounds.last();
    let earlier = exact_found(rounds.drop_last());
    let here = exact_of(last.mask, last.candidates);
    let k = choose|k: int| 0 <= k < exact_found(rounds).len() && exact_found(rounds)[k] == name;
    if k < earlier.len() {
        assert(earlier[k] == name);
        exact_match_comes_from_round(rounds.drop_last(), name)
    } else {
        assert(here[k - earlier.len()] == name);
        kept_is_member(last.candidates, is_mask(last.mask), name);
        rounds.len() - 1
    }
}

/// A candidate of a round that leads further than the round's mask lies
/// deeper than that mask.
proof fn round_goes_deeper<E, F: Fn(&String) -> Result<Vec<String>, E>>(
    fetcher: F,
    depth: spec_fn(Seq<char>) -> nat,
    round: Round,
    name: Seq<char>,
)
    requires
        descends(fetcher, depth),
        answers(fetcher, round.mask, round.candidates),
        tail_of(round.mask, round.candidates).contains(name),
    ensures
        depth(name) < depth(round.mask),
{
    let (m, found) = choose|m: String, found: Vec<String>|
        m@ == round.mask && names_of(found@) == round.candidates && #[trigger] call_ensures(
            fetcher,
            (&m,),
            Ok::<Vec<String>, E>(found),
        );
    lemma_tail_is_deeper(fetcher, depth, m, found);
}

/// The masks of a walk lie no higher than the root, each deeper than the
/// one before.
proof fn walk_goes_deeper<E, F: Fn(&String) -> Result<Vec<String>, E>>(
    fetcher: F,
    collapse_case_variants: bool,
    root: Seq<char>,
    rounds: Seq<Round>,
    depth: spec_fn(Seq<char>) -> nat,
    i: int,
)
    requires
        walk(fetcher, collapse_case_variants, root, rounds),
        descends(fetcher, depth),
        0 <= i < rounds.len(),
    ensures
        depth(rounds[i].mask) <= depth(root),
    decreases i,
{
    if i > 0 {
        walk_goes_deeper(fetcher, collapse_case_variants, root, rounds, depth, i - 1);
        let before = rounds[i - 1];
        let tail = tail_of(before.mask, before.candidates);
        assert(outcome(collapse_case_variants, before.mask, before.candidates) == Outcome::Descend(
            rounds[i].mask,
        ));
        assert(tail[0] == rounds[i].mask);
        assert(tail.contains(tail[0]));
        round_goes_deeper(fetcher, depth, before, rounds[i].mask);
    }
}

/// Every candidate that leads further than the mask lies deeper than it.
proof fn lemma_tail_is_deeper<E, F: Fn(&String) -> Result<Vec<String>, E>>(
    fetcher: F,
    depth: spec_fn(Seq<char>) -> nat,
    mask: String,
    found: Vec<String>,
)
    requires
        descends(fetcher, depth),
        call_ensures(fetcher, (&mask,), Ok::<Vec<String>, E>(found)),
    ensures
        forall|name: Seq<char>| #[trigger]
            tail_of(mask@, names_of(found@)).contains(name) ==> depth(name) < depth(mask@),
{
    let all = names_of(found@);
    let other = leads_on(mask@);
    assert forall|name: Seq<char>| #[trigger] all.filter(other).contains(name) implies depth(name)
        < depth(mask@) by {
        kept_is_member(all, other, name);
        let i = choose|i: int| 0 <= i < all.len() && all[i] == name;
        assert(found@[i]@ == name);
    }
}

} // verus!
