//! Typo tolerance for the Library filter box: one edit, and no more.
//!
//! An edit budget rather than a similarity score. A budget of one edit either matches or it
//! does not, and what it lets through is describable in a sentence: one wrong, missing or
//! extra character.

use vstd::prelude::*;

use crate::text;
use crate::text::{chars_of, to_lowercase, trim, words_of};

verus! {

/// Shortest term that is fuzzy-matched at all. One edit inside three characters reaches a
/// large share of any library, so below this the filter stays exact.
pub const MIN_TERM_CHARS: usize = 4;

/// Edits allowed.
pub const MAX_EDITS: u8 = 1;

/// The smaller of two numbers.
pub open spec fn least(a: nat, b: nat) -> nat {
    if a <= b {
        a
    } else {
        b
    }
}

/// Levenshtein distance: the fewest substitutions, removals and insertions of one character
/// that turn `a` into `b`.
pub open spec fn edit_distance(a: Seq<char>, b: Seq<char>) -> nat
    decreases a.len() + b.len(),
{
    if a.len() == 0 {
        b.len()
    } else if b.len() == 0 {
        a.len()
    } else {
        let substitute = edit_distance(a.drop_last(), b.drop_last()) + if a.last() == b.last() {
            0nat
        } else {
            1nat
        };
        let remove = edit_distance(a.drop_last(), b) + 1;
        let insert = edit_distance(a, b.drop_last()) + 1;
        least(substitute, least(remove, insert))
    }
}

/// The smallest distance from `term` to one of the prefixes of `candidate` no longer than
/// `upto`.
pub open spec fn closest_prefix(term: Seq<char>, candidate: Seq<char>, upto: nat) -> nat
    decreases upto,
{
    if upto == 0 {
        edit_distance(term, candidate.take(0))
    } else {
        least(
            closest_prefix(term, candidate, (upto - 1) as nat),
            edit_distance(term, candidate.take(upto as int)),
        )
    }
}

/// The distance from `term` to the closest prefix of `candidate`.
pub open spec fn prefix_edits(term: Seq<char>, candidate: Seq<char>) -> nat {
    closest_prefix(term, candidate, candidate.len())
}

/// A distance, unless it is over the budget.
pub open spec fn within_budget(edits: nat) -> Option<u8> {
    if edits <= MAX_EDITS {
        Some(edits as u8)
    } else {
        None
    }
}

/// The better of two results.
pub open spec fn closer(a: Option<u8>, b: Option<u8>) -> Option<u8> {
    match (a, b) {
        (Some(x), Some(y)) => if x <= y {
            a
        } else {
            b
        },
        (Some(_), None) => a,
        _ => b,
    }
}

/// The best result over several candidates.
pub open spec fn nearest(term: Seq<char>, candidates: Seq<Seq<char>>) -> Option<u8>
    decreases candidates.len(),
{
    if candidates.len() == 0 {
        None
    } else {
        closer(
            nearest(term, candidates.drop_last()),
            within_budget(prefix_edits(term, candidates.last())),
        )
    }
}

/// How a term matches a name, both in lower case: against the whole name and against each of
/// its words, by prefix, the best result winning.
pub open spec fn name_match(term: Seq<char>, name: Seq<char>) -> Option<u8> {
    if term.len() < MIN_TERM_CHARS {
        None
    } else {
        nearest(term, seq![name] + text::words(name))
    }
}

/// How an ASCII term matches an ASCII name, as they are typed.
pub open spec fn ascii_match(term: Seq<char>, name: Seq<char>) -> Option<u8> {
    name_match(text::ascii_lowercase(text::trimmed(term)), text::ascii_lowercase(name))
}

// ---------------------------------------------------------------------------------------
// Facts about the distance.
// ---------------------------------------------------------------------------------------

proof fn lemma_distance_at_least_length_difference(a: Seq<char>, b: Seq<char>)
    ensures
        edit_distance(a, b) >= a.len() - b.len(),
        edit_distance(a, b) >= b.len() - a.len(),
    decreases a.len() + b.len(),
{
    if a.len() > 0 && b.len() > 0 {
        lemma_distance_at_least_length_difference(a.drop_last(), b.drop_last());
        lemma_distance_at_least_length_difference(a.drop_last(), b);
        lemma_distance_at_least_length_difference(a, b.drop_last());
    }
}

/// The distance is zero between equal texts only.
pub proof fn law_zero_distance_is_equality(a: Seq<char>, b: Seq<char>)
    ensures
        edit_distance(a, b) == 0 <==> a == b,
    decreases a.len() + b.len(),
{
    if a.len() == 0 || b.len() == 0 {
        assert(a == b ==> a.len() == b.len());
        if a.len() == 0 && b.len() == 0 {
            assert(a =~= b);
        }
    } else {
        law_zero_distance_is_equality(a.drop_last(), b.drop_last());
        if edit_distance(a, b) == 0 {
            assert(a =~= a.drop_last().push(a.last()));
            assert(b =~= b.drop_last().push(b.last()));
        }
    }
}

/// `a` and `b` differ by one wrong, one missing or one extra character at most.
pub open spec fn one_edit_apart(a: Seq<char>, b: Seq<char>) -> bool {
    ||| a == b
    ||| exists|i: int| 0 <= i < a.len() && a.len() == b.len() && #[trigger] a.update(i, b[i]) == b
    ||| exists|i: int| 0 <= i < a.len() && #[trigger] a.remove(i) == b
    ||| exists|i: int| 0 <= i < b.len() && #[trigger] b.remove(i) == a
}

proof fn lemma_one_edit_apart_after_push(a: Seq<char>, b: Seq<char>, c: char)
    requires
        one_edit_apart(a, b),
    ensures
        one_edit_apart(a.push(c), b.push(c)),
{
    let x = a.push(c);
    let y = b.push(c);
    if a == b {
    } else if exists|i: int|
        0 <= i < a.len() && a.len() == b.len() && #[trigger] a.update(i, b[i]) == b {
        let i = choose|i: int|
            0 <= i < a.len() && a.len() == b.len() && #[trigger] a.update(i, b[i]) == b;
        assert(x.update(i, y[i]) =~= y) by {
            assert(x.update(i, y[i]).drop_last() =~= a.update(i, b[i]));
            assert forall|k: int| 0 <= k < y.len() implies x.update(i, y[i])[k] == y[k] by {
                if k < a.len() {
                    assert(a.update(i, b[i])[k] == b[k]);
                }
            }
        }
    } else if exists|i: int| 0 <= i < a.len() && #[trigger] a.remove(i) == b {
        let i = choose|i: int| 0 <= i < a.len() && #[trigger] a.remove(i) == b;
        assert(x.remove(i) =~= a.remove(i).push(c));
    } else {
        let i = choose|i: int| 0 <= i < b.len() && #[trigger] b.remove(i) == a;
        assert(y.remove(i) =~= b.remove(i).push(c));
    }
}

proof fn lemma_small_distance_is_one_edit(a: Seq<char>, b: Seq<char>)
    requires
        edit_distance(a, b) <= 1,
    ensures
        one_edit_apart(a, b),
    decreases a.len() + b.len(),
{
    law_zero_distance_is_equality(a, b);
    if a != b {
        if a.len() == 0 {
            assert(b.remove(0) =~= a);
        } else if b.len() == 0 {
            assert(a.remove(0) =~= b);
        } else {
            let substitute = edit_distance(a.drop_last(), b.drop_last()) + if a.last()
                == b.last() {
                0nat
            } else {
                1nat
            };
            assert(a =~= a.drop_last().push(a.last()));
            assert(b =~= b.drop_last().push(b.last()));
            if substitute <= 1 {
                if a.last() == b.last() {
                    lemma_small_distance_is_one_edit(a.drop_last(), b.drop_last());
                    lemma_one_edit_apart_after_push(a.drop_last(), b.drop_last(), a.last());
                } else {
                    law_zero_distance_is_equality(a.drop_last(), b.drop_last());
                    let i = a.len() - 1;
                    assert(a.update(i, b[i]) =~= b);
                }
            } else if edit_distance(a.drop_last(), b) == 0 {
                law_zero_distance_is_equality(a.drop_last(), b);
                assert(a.remove(a.len() - 1) =~= b);
            } else {
                law_zero_distance_is_equality(a, b.drop_last());
                assert(b.remove(b.len() - 1) =~= a);
            }
        }
    }
}

proof fn lemma_substitution_is_small(a: Seq<char>, b: Seq<char>, i: int)
    requires
        0 <= i < a.len(),
        a.len() == b.len(),
        a.update(i, b[i]) == b,
    ensures
        edit_distance(a, b) <= 1,
    decreases a.len(),
{
    if i == a.len() - 1 {
        assert(a.drop_last() =~= b.drop_last()) by {
            assert(forall|k: int| 0 <= k < i ==> a.update(i, b[i])[k] == a[k]);
        }
        law_zero_distance_is_equality(a.drop_last(), b.drop_last());
    } else {
        assert(a.update(i, b[i]).last() == a.last());
        assert(a.drop_last().update(i, b.drop_last()[i]) =~= b.drop_last()) by {
            assert(a.drop_last().update(i, b[i]) =~= a.update(i, b[i]).drop_last());
        }
        lemma_substitution_is_small(a.drop_last(), b.drop_last(), i);
    }
}

proof fn lemma_removal_is_small(a: Seq<char>, b: Seq<char>, i: int)
    requires
        0 <= i < a.len(),
        a.remove(i) == b,
    ensures
        edit_distance(a, b) <= 1,
        edit_distance(b, a) <= 1,
    decreases a.len(),
{
    if i == a.len() - 1 {
        assert(a.remove(i) =~= a.drop_last());
        law_zero_distance_is_equality(b, b);
    } else {
        assert(a.remove(i).last() == a.last());
        assert(a.drop_last().remove(i) =~= b.drop_last()) by {
            assert(a.drop_last().remove(i) =~= a.remove(i).drop_last());
        }
        lemma_removal_is_small(a.drop_last(), b.drop_last(), i);
    }
}

/// Being within the budget means one wrong, one missing or one extra character.
pub proof fn law_budget_is_one_edit(a: Seq<char>, b: Seq<char>)
    ensures
        edit_distance(a, b) <= MAX_EDITS <==> one_edit_apart(a, b),
{
    if edit_distance(a, b) <= 1 {
        lemma_small_distance_is_one_edit(a, b);
    }
    if one_edit_apart(a, b) {
        if a == b {
            law_zero_distance_is_equality(a, b);
        } else if exists|i: int|
            0 <= i < a.len() && a.len() == b.len() && #[trigger] a.update(i, b[i]) == b {
            let i = choose|i: int|
                0 <= i < a.len() && a.len() == b.len() && #[trigger] a.update(i, b[i]) == b;
            lemma_substitution_is_small(a, b, i);
        } else if exists|i: int| 0 <= i < a.len() && #[trigger] a.remove(i) == b {
            let i = choose|i: int| 0 <= i < a.len() && #[trigger] a.remove(i) == b;
            lemma_removal_is_small(a, b, i);
        } else {
            let i = choose|i: int| 0 <= i < b.len() && #[trigger] b.remove(i) == a;
            lemma_removal_is_small(b, a, i);
        }
    }
}

proof fn lemma_closest_prefix_is_least(term: Seq<char>, candidate: Seq<char>, upto: nat)
    requires
        upto <= candidate.len(),
    ensures
        forall|k: int|
            0 <= k <= upto ==> closest_prefix(term, candidate, upto) <= edit_distance(
                term,
                #[trigger] candidate.take(k),
            ),
        exists|k: int|
            0 <= k <= upto && closest_prefix(term, candidate, upto) == edit_distance(
                term,
                #[trigger] candidate.take(k),
            ),
    decreases upto,
{
    if upto > 0 {
        lemma_closest_prefix_is_least(term, candidate, (upto - 1) as nat);
        let k = choose|k: int|
            0 <= k <= upto - 1 && closest_prefix(term, candidate, (upto - 1) as nat)
                == edit_distance(term, #[trigger] candidate.take(k));
        assert(closest_prefix(term, candidate, (upto - 1) as nat) == edit_distance(
            term,
            candidate.take(k),
        ));
        if closest_prefix(term, candidate, upto) == edit_distance(
            term,
            candidate.take(upto as int),
        ) {
        } else {
            assert(closest_prefix(term, candidate, upto) == edit_distance(
                term,
                candidate.take(k),
            ));
        }
    } else {
        assert(closest_prefix(term, candidate, upto) == edit_distance(term, candidate.take(0)));
    }
}

/// A candidate is matched exactly when some prefix of it is one wrong, one missing or one
/// extra character away from the term, at most.
pub proof fn law_match_is_one_edit_from_a_prefix(term: Seq<char>, candidate: Seq<char>)
    ensures
        within_budget(prefix_edits(term, candidate)) is Some <==> exists|k: int|
            0 <= k <= candidate.len() && one_edit_apart(term, #[trigger] candidate.take(k)),
{
    lemma_closest_prefix_is_least(term, candidate, candidate.len());
    if within_budget(prefix_edits(term, candidate)) is Some {
        let k = choose|k: int|
            0 <= k <= candidate.len() && prefix_edits(term, candidate) == edit_distance(
                term,
                #[trigger] candidate.take(k),
            );
        law_budget_is_one_edit(term, candidate.take(k));
    }
    if exists|k: int|
        0 <= k <= candidate.len() && one_edit_apart(term, #[trigger] candidate.take(k)) {
        let k = choose|k: int|
            0 <= k <= candidate.len() && one_edit_apart(term, #[trigger] candidate.take(k));
        law_budget_is_one_edit(term, candidate.take(k));
    }
}

/// The distance is zero exactly when the term is itself a prefix of the candidate.
pub proof fn law_exact_prefix_is_distance_zero(term: Seq<char>, candidate: Seq<char>)
    ensures
        prefix_edits(term, candidate) == 0 <==> term.is_prefix_of(candidate),
{
    lemma_closest_prefix_is_least(term, candidate, candidate.len());
    if prefix_edits(term, candidate) == 0 {
        let k = choose|k: int|
            0 <= k <= candidate.len() && prefix_edits(term, candidate) == edit_distance(
                term,
                #[trigger] candidate.take(k),
            );
        law_zero_distance_is_equality(term, candidate.take(k));
    }
    if term.is_prefix_of(candidate) {
        let k = term.len() as int;
        assert(candidate.take(k) =~= term);
        law_zero_distance_is_equality(term, candidate.take(k));
    }
}

/// A longer candidate is at least as close, because only prefixes count.
pub proof fn law_longer_candidate_is_no_further(
    term: Seq<char>,
    candidate: Seq<char>,
    longer: Seq<char>,
)
    requires
        candidate.is_prefix_of(longer),
    ensures
        prefix_edits(term, longer) <= prefix_edits(term, candidate),
{
    lemma_closest_prefix_is_least(term, candidate, candidate.len());
    lemma_closest_prefix_is_least(term, longer, longer.len());
    let k = choose|k: int|
        0 <= k <= candidate.len() && prefix_edits(term, candidate) == edit_distance(
            term,
            #[trigger] candidate.take(k),
        );
    assert(longer.take(k) =~= candidate.take(k));
}

/// What is found over several candidates is found for one of them.
proof fn lemma_nearest_is_of_some(term: Seq<char>, candidates: Seq<Seq<char>>)
    requires
        nearest(term, candidates) is Some,
    ensures
        exists|i: int|
            0 <= i < candidates.len() && within_budget(
                prefix_edits(term, #[trigger] candidates[i]),
            ) == nearest(term, candidates),
    decreases candidates.len(),
{
    let front = candidates.drop_last();
    if nearest(term, candidates) == within_budget(prefix_edits(term, candidates.last())) {
        assert(candidates[candidates.len() - 1] == candidates.last());
    } else {
        lemma_nearest_is_of_some(term, front);
        let i = choose|i: int|
            0 <= i < front.len() && within_budget(prefix_edits(term, #[trigger] front[i]))
                == nearest(term, front);
        assert(candidates[i] == front[i]);
    }
}

/// What is found over several candidates is no further than any of them.
proof fn lemma_nearest_is_least(term: Seq<char>, candidates: Seq<Seq<char>>, i: int)
    requires
        0 <= i < candidates.len(),
        prefix_edits(term, candidates[i]) <= MAX_EDITS,
    ensures
        nearest(term, candidates) is Some,
        nearest(term, candidates).unwrap() <= prefix_edits(term, candidates[i]),
    decreases candidates.len(),
{
    if i < candidates.len() - 1 {
        assert(candidates.drop_last()[i] == candidates[i]);
        lemma_nearest_is_least(term, candidates.drop_last(), i);
    }
}

/// Making a name longer never loses or worsens a match.
pub proof fn law_longer_name_matches_no_worse(term: Seq<char>, name: Seq<char>, more: Seq<char>)
    requires
        name_match(term, name) is Some,
    ensures
        name_match(term, name + more) is Some,
        name_match(term, name + more).unwrap() <= name_match(term, name).unwrap(),
{
    let longer = name + more;
    let all = seq![name] + text::words(name);
    let all_longer = seq![longer] + text::words(longer);
    lemma_nearest_is_of_some(term, all);
    let i = choose|i: int|
        0 <= i < all.len() && within_budget(prefix_edits(term, #[trigger] all[i])) == nearest(
            term,
            all,
        );
    text::lemma_words_of_longer(name, more);
    assert(all[i].is_prefix_of(all_longer[i])) by {
        if i > 0 {
            assert(all[i] == text::words(name)[i - 1]);
            assert(all_longer[i] == text::words(longer)[i - 1]);
        }
    }
    law_longer_candidate_is_no_further(term, all[i], all_longer[i]);
    lemma_nearest_is_least(term, all_longer, i);
}

/// Making an ASCII name longer never loses or worsens a match, whatever the case of its letters.
pub proof fn law_longer_ascii_name_matches_no_worse(
    term: Seq<char>,
    name: Seq<char>,
    more: Seq<char>,
)
    requires
        text::is_ascii(term),
        text::is_ascii(name),
        text::is_ascii(more),
        ascii_match(term, name) is Some,
    ensures
        text::is_ascii(name + more),
        ascii_match(term, name + more) is Some,
        ascii_match(term, name + more).unwrap() <= ascii_match(term, name).unwrap(),
{
    assert(text::ascii_lowercase(name + more) =~= text::ascii_lowercase(name)
        + text::ascii_lowercase(more));
    law_longer_name_matches_no_worse(
        text::ascii_lowercase(text::trimmed(term)),
        text::ascii_lowercase(name),
        text::ascii_lowercase(more),
    );
    assert forall|i: int| 0 <= i < (name + more).len() implies (#[trigger] (name
        + more)[i]) as u32 <= 0x7f by {
        if i < name.len() {
            assert((name + more)[i] == name[i]);
        } else {
            assert((name + more)[i] == more[i - name.len()]);
        }
    }
}

proof fn lemma_long_prefixes_are_over_budget(
    term: Seq<char>,
    candidate: Seq<char>,
    from: nat,
    upto: nat,
)
    requires
        term.len() + 1 <= from <= upto <= candidate.len(),
    ensures
        within_budget(closest_prefix(term, candidate, from)) == within_budget(
            closest_prefix(term, candidate, upto),
        ),
    decreases upto,
{
    if from < upto {
        lemma_long_prefixes_are_over_budget(term, candidate, from, (upto - 1) as nat);
        lemma_distance_at_least_length_difference(term, candidate.take(upto as int));
    }
}

proof fn lemma_prefix_of_prefix(term: Seq<char>, candidate: Seq<char>, keep: nat, upto: nat)
    requires
        upto <= keep <= candidate.len(),
    ensures
        closest_prefix(term, candidate.take(keep as int), upto) == closest_prefix(
            term,
            candidate,
            upto,
        ),
    decreases upto,
{
    assert(candidate.take(keep as int).take(upto as int) =~= candidate.take(upto as int));
    if upto > 0 {
        lemma_prefix_of_prefix(term, candidate, keep, (upto - 1) as nat);
    }
}

/// One row of the distance table, each entry capped just over the budget.
spec fn is_row(row: Seq<u8>, term: Seq<char>, candidate: Seq<char>) -> bool {
    &&& row.len() == candidate.len() + 1
    &&& forall|j: int|
        0 <= j < row.len() ==> #[trigger] row[j] == capped(
            edit_distance(term, candidate.take(j)),
        )
}

spec fn capped(d: nat) -> nat {
    least(d, 2)
}

proof fn lemma_over_budget_row_stays_over(a: Seq<char>, b: Seq<char>, c: char, j: int)
    requires
        0 <= j <= b.len(),
        forall|k: int| 0 <= k <= b.len() ==> edit_distance(a, #[trigger] b.take(k)) >= 2,
    ensures
        edit_distance(a.push(c), b.take(j)) >= 2,
    decreases j,
{
    let x = a.push(c);
    assert(x.drop_last() =~= a);
    if j > 0 {
        lemma_over_budget_row_stays_over(a, b, c, j - 1);
        assert(b.take(j).drop_last() =~= b.take(j - 1));
    } else {
        assert(edit_distance(a, b.take(0)) >= 2);
    }
}

proof fn lemma_over_budget_settles(term: Seq<char>, b: Seq<char>, i: int, n: int)
    requires
        0 <= i <= n <= term.len(),
        forall|k: int|
            0 <= k <= b.len() ==> edit_distance(term.take(i), #[trigger] b.take(k)) >= 2,
    ensures
        forall|k: int|
            0 <= k <= b.len() ==> edit_distance(term.take(n), #[trigger] b.take(k)) >= 2,
    decreases n - i,
{
    if i < n {
        assert(term.take(i + 1) =~= term.take(i).push(term[i]));
        assert forall|k: int| 0 <= k <= b.len() implies edit_distance(
            term.take(i + 1),
            #[trigger] b.take(k),
        ) >= 2 by {
            lemma_over_budget_row_stays_over(term.take(i), b, term[i], k);
        }
        lemma_over_budget_settles(term, b, i + 1, n);
    }
}

// ---------------------------------------------------------------------------------------
// Matching.
// ---------------------------------------------------------------------------------------

fn plus_one(d: u8) -> (r: u8)
    requires
        d <= 2,
    ensures
        r == capped((d + 1) as nat),
{
    if d >= 1 {
        2
    } else {
        1
    }
}

fn lesser(a: u8, b: u8) -> (r: u8)
    ensures
        r == least(a as nat, b as nat),
{
    if a <= b {
        a
    } else {
        b
    }
}

/// The next row of the distance table.
fn next_row(prev: &Vec<u8>, term: &[char], i: usize, candidate: &[char]) -> (cur: Vec<u8>)
    requires
        i < term@.len(),
        is_row(prev@, term@.take(i as int), candidate@),
    ensures
        is_row(cur@, term@.take(i + 1), candidate@),
{
    let ghost a = term@.take(i + 1);
    proof {
        assert(a.drop_last() =~= term@.take(i as int));
        assert(candidate@.take(0).len() == 0);
        assert(prev@[0] == capped(edit_distance(term@.take(i as int), candidate@.take(0))));
    }
    let mut cur: Vec<u8> = Vec::new();
    cur.push(plus_one(prev[0]));
    let mut j: usize = 0;
    while j < candidate.len()
        invariant
            i < term@.len(),
            j <= candidate@.len(),
            a == term@.take(i + 1),
            a.drop_last() == term@.take(i as int),
            is_row(prev@, term@.take(i as int), candidate@),
            cur@.len() == j + 1,
            forall|k: int|
                0 <= k <= j ==> #[trigger] cur@[k] == capped(
                    edit_distance(a, candidate@.take(k)),
                ),
        decreases candidate@.len() - j,
    {
        proof {
            let b = candidate@.take(j + 1);
            assert(b.drop_last() =~= candidate@.take(j as int));
            assert(a.last() == term@[i as int]);
            assert(b.last() == candidate@[j as int]);
            assert(prev@[j as int] == capped(
                edit_distance(term@.take(i as int), candidate@.take(j as int)),
            ));
            assert(prev@[j + 1] == capped(
                edit_distance(term@.take(i as int), candidate@.take(j + 1)),
            ));
            assert(cur@[j as int] == capped(edit_distance(a, candidate@.take(j as int))));
        }
        let substitute = if term[i] == candidate[j] {
            prev[j]
        } else {
            plus_one(prev[j])
        };
        let remove = plus_one(prev[j + 1]);
        let insert = plus_one(cur[j]);
        cur.push(lesser(substitute, lesser(remove, insert)));
        j += 1;
    }
    cur
}

/// The smallest entry of a row.
fn row_min(row: &Vec<u8>, Ghost(term): Ghost<Seq<char>>, candidate: &[char]) -> (r: u8)
    requires
        is_row(row@, term, candidate@),
    ensures
        r == capped(closest_prefix(term, candidate@, candidate@.len())),
{
    let mut best = row[0];
    let mut j: usize = 0;
    assert(row@[0] == capped(edit_distance(term, candidate@.take(0))));
    while j < candidate.len()
        invariant
            j <= candidate@.len(),
            is_row(row@, term, candidate@),
            best == capped(closest_prefix(term, candidate@, j as nat)),
        decreases candidate@.len() - j,
    {
        assert(row@[j + 1] == capped(edit_distance(term, candidate@.take(j + 1))));
        j += 1;
        best = lesser(best, row[j]);
    }
    best
}

/// Levenshtein distance from `term` to the closest prefix of `candidate`, abandoned as soon
/// as it cannot come in within the budget.
pub fn prefix_distance_capped(term: &[char], candidate: &[char]) -> (r: Option<u8>)
    ensures
        r == within_budget(prefix_edits(term@, candidate@)),
{
    // A prefix longer than the term plus the budget cannot be within it, so the rest of the
    // name is not worth aligning against.
    let keep = if candidate.len() > term.len() && candidate.len() - term.len() > 1 {
        term.len() + 1
    } else {
        candidate.len()
    };
    let kept = text::part(candidate, 0, keep);
    proof {
        assert(candidate@.subrange(0, keep as int) =~= candidate@.take(keep as int));
        lemma_prefix_of_prefix(term@, candidate@, keep as nat, keep as nat);
        if keep < candidate@.len() {
            lemma_long_prefixes_are_over_budget(
                term@,
                candidate@,
                keep as nat,
                candidate@.len(),
            );
        }
    }
    let kept = kept.as_slice();
    let ghost b = kept@;
    assert(within_budget(prefix_edits(term@, b)) == within_budget(prefix_edits(term@, candidate@)));

    let mut row: Vec<u8> = Vec::new();
    let mut j: usize = 0;
    row.push(0);
    assert(term@.take(0).len() == 0);
    while j < kept.len()
        invariant
            j <= kept@.len(),
            row@.len() == j + 1,
            term@.take(0).len() == 0,
            forall|k: int|
                0 <= k <= j ==> #[trigger] row@[k] == capped(
                    edit_distance(term@.take(0), kept@.take(k)),
                ),
        decreases kept@.len() - j,
    {
        let next = plus_one(row[j]);
        assert(row@[j as int] == capped(edit_distance(term@.take(0), kept@.take(j as int))));
        row.push(next);
        j += 1;
        assert(kept@.take(j as int).len() == j);
    }

    let mut i: usize = 0;
    while i < term.len()
        invariant
            i <= term@.len(),
            b == kept@,
            is_row(row@, term@.take(i as int), b),
            within_budget(prefix_edits(term@, b)) == within_budget(
                prefix_edits(term@, candidate@),
            ),
        decreases term@.len() - i,
    {
        row = next_row(&row, term, i, kept);
        i += 1;
        let ghost t = term@.take(i as int);
        // Distances only grow further down the rows, so a row whose every entry is already
        // over the budget settles the whole comparison.
        if row_min(&row, Ghost(t), kept) > MAX_EDITS {
            proof {
                lemma_closest_prefix_is_least(t, b, b.len());
                lemma_over_budget_settles(term@, b, i as int, term@.len() as int);
                assert(term@.take(term@.len() as int) =~= term@);
                lemma_closest_prefix_is_least(term@, b, b.len());
            }
            return None;
        }
    }
    assert(term@.take(i as int) =~= term@);
    let best = row_min(&row, Ghost(term@), kept);
    if best <= MAX_EDITS {
        Some(best)
    } else {
        None
    }
}

fn better(a: Option<u8>, b: Option<u8>) -> (r: Option<u8>)
    ensures
        r == closer(a, b),
{
    match (a, b) {
        (Some(x), Some(y)) => if x <= y {
            Some(x)
        } else {
            Some(y)
        },
        (Some(x), None) => Some(x),
        (None, other) => other,
    }
}

/// Edit distance between a term and the closest prefix of a name or of one of its words, both
/// already trimmed and in lower case, or `None` if that is further than one edit.
pub fn lowercase_distance(term: &[char], name: &[char]) -> (r: Option<u8>)
    ensures
        r == name_match(term@, name@),
{
    if term.len() < MIN_TERM_CHARS {
        return None;
    }
    let mut best = prefix_distance_capped(term, name);
    let parts = words_of(name);
    let ghost all = seq![name@] + text::words(name@);
    let mut i: usize = 0;
    proof {
        assert(all.take(1).last() == name@);
        assert(all.take(1).drop_last() =~= Seq::empty());
        assert(nearest(term@, all.take(1).drop_last()) == None::<u8>);
    }
    while i < parts.len()
        invariant
            i <= parts.len(),
            all == seq![name@] + text::words(name@),
            text::runs(parts@) == text::words(name@),
            best == nearest(term@, all.take(i + 1)),
        decreases parts.len() - i,
    {
        let found = prefix_distance_capped(term, parts[i].as_slice());
        best = better(best, found);
        proof {
            let next = all.take(i + 2);
            assert(text::runs(parts@)[i as int] == parts@[i as int]@);
            assert(next.last() == parts@[i as int]@);
            assert(next.drop_last() =~= all.take(i + 1));
        }
        i += 1;
    }
    proof {
        assert(text::runs(parts@).len() == parts@.len());
        assert(all.take(i + 1) =~= all);
    }
    best
}

/// Edit distance between `term` and the closest prefix of `name` or of one of its words, or
/// `None` if that is further than one edit.
///
/// Prefixes rather than whole words, because a filter box is read while it is still being
/// typed. Words as well as the whole name, so a surname matches. Case does not count, nor
/// does white space around the term.
pub fn prefix_distance(term: &str, name: &str) -> (r: Option<u8>)
    ensures
        r == name_match(text::lowercase(text::trimmed(term@)), text::lowercase(name@)),
        text::is_ascii(term@) && text::is_ascii(name@) ==> r == ascii_match(term@, name@),
{
    proof {
        if text::is_ascii(term@) {
            text::lemma_trimmed_is_ascii(term@);
        }
    }
    let term = chars_of(to_lowercase(trim(term).as_str()).as_str());
    let name = chars_of(to_lowercase(name).as_str());
    lowercase_distance(term.as_slice(), name.as_slice())
}

/// A name matches where the term has four characters at least and the whole name or one of its
/// words begins within one edit of it, and in no other case. The closest of them counts.
pub proof fn law_a_name_matches_by_its_closest_word(term: Seq<char>, name: Seq<char>)
    ensures
        name_match(term, name) is Some <==> term.len() >= 4 && (prefix_edits(term, name) <= 1
            || exists|w: int|
            0 <= w < text::words(name).len() && prefix_edits(
                term,
                #[trigger] text::words(name)[w],
            ) <= 1),
        name_match(term, name) matches Some(edits) ==> {
            &&& edits <= 1
            &&& edits <= prefix_edits(term, name)
            &&& forall|w: int|
                0 <= w < text::words(name).len() ==> edits <= prefix_edits(
                    term,
                    #[trigger] text::words(name)[w],
                )
            &&& edits == prefix_edits(term, name) || exists|w: int|
                0 <= w < text::words(name).len() && prefix_edits(
                    term,
                    #[trigger] text::words(name)[w],
                ) == edits
        },
{
    let words = text::words(name);
    let all = seq![name] + words;
    lemma_nearest_among(term, all);
    assert(all[0] == name);
    assert forall|w: int| 0 <= w < words.len() implies #[trigger] words[w] == all[w + 1] by {}
    if nearest(term, all) is Some {
        let i = choose|i: int|
            0 <= i < all.len() && prefix_edits(term, #[trigger] all[i]) == nearest(
                term,
                all,
            ).unwrap();
        if i > 0 {
            assert(words[i - 1] == all[i]);
        }
    }
}

proof fn lemma_nearest_among(term: Seq<char>, candidates: Seq<Seq<char>>)
    ensures
        match nearest(term, candidates) {
            Some(edits) => {
                &&& edits <= 1
                &&& forall|i: int|
                    0 <= i < candidates.len() ==> edits <= prefix_edits(
                        term,
                        #[trigger] candidates[i],
                    )
                &&& exists|i: int|
                    0 <= i < candidates.len() && prefix_edits(term, #[trigger] candidates[i])
                        == edits
            },
            None => forall|i: int|
                0 <= i < candidates.len() ==> prefix_edits(term, #[trigger] candidates[i]) > 1,
        },
    decreases candidates.len(),
{
    if candidates.len() > 0 {
        let front = candidates.drop_last();
        lemma_nearest_among(term, front);
        assert forall|i: int| 0 <= i < front.len() implies #[trigger] candidates[i] == front[i] by {}
        assert(candidates[candidates.len() - 1] == candidates.last());
        if nearest(term, front) is Some {
            let k = choose|k: int|
                0 <= k < front.len() && prefix_edits(term, #[trigger] front[k]) == nearest(
                    term,
                    front,
                ).unwrap();
            assert(candidates[k] == front[k]);
        }
    }
}

} // verus!
