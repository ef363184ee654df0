//! The three best distinct scores of a day, from which medals are handed out.
//!
//! A day's high scores are a triple `[gold, silver, bronze]` of optional guess
//! counts. Fewer guesses are better, so gold holds the lowest value. A failed
//! attempt is recorded as the score `0` and never earns a medal.

use vstd::prelude::*;

verus! {

/// Filled slots come first: silver is only set when gold is, bronze only when
/// silver is.
pub open spec fn well_shaped(t: Seq<Option<i64>>) -> bool {
    &&& t.len() == 3
    &&& (t[0] is None ==> t[1] is None)
    &&& (t[1] is None ==> t[2] is None)
}

/// The filled slots hold strictly increasing values.
pub open spec fn strictly_increasing(t: Seq<Option<i64>>) -> bool {
    forall|i: int, j: int|
        0 <= i < j < t.len() && t[i] is Some && t[j] is Some ==> t[i].unwrap() < t[j].unwrap()
}

/// What a day's record of high scores always satisfies.
pub open spec fn valid_high_scores(t: Seq<Option<i64>>) -> bool {
    well_shaped(t) && strictly_increasing(t)
}

/// The filled slots hold numbers of guesses that solve a puzzle: `1` to `6`.
pub open spec fn holds_guesses(t: Seq<Option<i64>>) -> bool {
    forall|i: int| 0 <= i < t.len() && t[i] is Some ==> 1 <= (#[trigger] t[i]).unwrap() <= 6
}

/// Whether `v` sits in one of the slots of `t`.
pub open spec fn holds(t: Seq<Option<i64>>, v: i64) -> bool {
    exists|i: int| 0 <= i < t.len() && t[i] == Some(v)
}

/// The first slot, counted from `from`, that is empty or holds a value not
/// below `v`; the length of `t` if there is none.
pub open spec fn slot_for(t: Seq<Option<i64>>, v: i64, from: int) -> int
    decreases t.len() - from,
{
    if from < 0 || from >= t.len() {
        t.len() as int
    } else if t[from] is None || t[from].unwrap() >= v {
        from
    } else {
        slot_for(t, v, from + 1)
    }
}

/// The high scores after the score `v` came in.
///
/// A failed attempt changes nothing, nor does a value that a slot already
/// holds or one that is worse than a full triple's bronze. Any other value is
/// put in its place by ascending order, and what then falls behind the third
/// slot is dropped.
pub open spec fn upsert(t: Seq<Option<i64>>, v: i64) -> Seq<Option<i64>> {
    let i = slot_for(t, v, 0);
    if v == 0 || i >= t.len() || t[i] == Some(v) {
        t
    } else {
        t.insert(i, Some(v)).take(t.len() as int)
    }
}

/// Upserts a new potential high score into a day's sorted triple of high
/// scores.
pub fn recalcualate_high_scores(high_scores: [Option<i64>; 3], score: i64) -> (r: [Option<i64>; 3])
    requires
        well_shaped(high_scores@),
    ensures
        r@ == upsert(high_scores@, score),
        well_shaped(r@),
        valid_high_scores(high_scores@) ==> valid_high_scores(r@),
        holds_guesses(high_scores@) && 0 <= score <= 6 ==> holds_guesses(r@),
{
    reveal_with_fuel(slot_for, 4);
    if score == 0 {
        return high_scores;
    }
    match (high_scores[0], high_scores[1], high_scores[2]) {
        (None, _, _) => [Some(score), None, None],
        (Some(gold), None, _) => {
            if score < gold {
                [Some(score), Some(gold), None]
            } else if score == gold {
                high_scores
            } else {
                [Some(gold), Some(score), None]
            }
        },
        (Some(gold), Some(silver), None) => {
            if score < gold {
                [Some(score), Some(gold), Some(silver)]
            } else if score == gold || score == silver {
                high_scores
            } else if score < silver {
                [Some(gold), Some(score), Some(silver)]
            } else {
                [Some(gold), Some(silver), Some(score)]
            }
        },
        (Some(gold), Some(silver), Some(bronze)) => {
            if score < gold {
                [Some(score), Some(gold), Some(silver)]
            } else if score == gold || score == silver {
                high_scores
            } else if score < silver {
                [Some(gold), Some(score), Some(silver)]
            } else if score < bronze {
                [Some(gold), Some(silver), Some(score)]
            } else {
                high_scores
            }
        },
    }
}

/// Whether the triple can stand as the high scores of a day: the filled
/// slots come first and hold strictly increasing numbers of guesses from `1`
/// to `6`.
pub fn is_valid_high_scores(high_scores: &[Option<i64>; 3]) -> (r: bool)
    ensures
        r == (valid_high_scores(high_scores@) && holds_guesses(high_scores@)),
{
    let shaped = match (high_scores[0], high_scores[1], high_scores[2]) {
        (None, None, None) => true,
        (Some(_), None, None) => true,
        (Some(gold), Some(silver), None) => gold < silver,
        (Some(gold), Some(silver), Some(bronze)) => gold < silver && silver < bronze,
        _ => false,
    };
    shaped && is_guesses(high_scores[0]) && is_guesses(high_scores[1]) && is_guesses(
        high_scores[2],
    )
}

/// Whether the slot is empty or holds a number of guesses from `1` to `6`.
fn is_guesses(slot: Option<i64>) -> (r: bool)
    ensures
        r == (slot matches Some(v) ==> 1 <= v <= 6),
{
    match slot {
        Some(v) => 1 <= v && v <= 6,
        None => true,
    }
}

/// `t` holds the lowest values of `seen`, at most three of them, in ascending
/// order: every slot's value was seen, and a value that was seen and has no
/// slot is worse than the bronze of a full triple.
pub open spec fn best_three_of(t: Seq<Option<i64>>, seen: Set<i64>) -> bool {
    &&& valid_high_scores(t)
    &&& forall|i: int| 0 <= i < t.len() && t[i] is Some ==> seen.contains(#[trigger] t[i].unwrap())
    &&& forall|v: i64| #[trigger]
        seen.contains(v) ==> holds(t, v) || (t[2] is Some && t[2].unwrap() < v)
}

/// The high scores after the scores of `scores` came in one after the other.
pub open spec fn upsert_all(t: Seq<Option<i64>>, scores: Seq<i64>) -> Seq<Option<i64>>
    decreases scores.len(),
{
    if scores.len() == 0 {
        t
    } else {
        upsert(upsert_all(t, scores.drop_last()), scores.last())
    }
}

/// The values of `scores` that can earn a medal: all but the failed attempts.
pub open spec fn medal_scores(scores: Seq<i64>) -> Set<i64> {
    Set::new(|v: i64| v != 0 && scores.contains(v))
}

/// A day without scores: no slot is filled.
pub open spec fn no_high_scores() -> Seq<Option<i64>> {
    seq![None, None, None]
}

/// Inserting a score keeps the triple's shape, and keeps it strictly
/// increasing if it was.
pub proof fn lemma_upsert_valid(t: Seq<Option<i64>>, v: i64)
    requires
        well_shaped(t),
    ensures
        well_shaped(upsert(t, v)),
        valid_high_scores(t) ==> valid_high_scores(upsert(t, v)),
        holds_guesses(t) && 0 <= v <= 6 ==> holds_guesses(upsert(t, v)),
{
    reveal_with_fuel(slot_for, 4);
}

/// Inserting the same score twice in a row is the same as inserting it once.
pub proof fn lemma_upsert_idempotent(t: Seq<Option<i64>>, v: i64)
    requires
        well_shaped(t),
    ensures
        upsert(upsert(t, v), v) == upsert(t, v),
{
    reveal_with_fuel(slot_for, 4);
}

/// A failed attempt never enters the triple.
pub proof fn lemma_upsert_zero(t: Seq<Option<i64>>)
    ensures
        upsert(t, 0) == t,
{
}

/// A triple that holds the best three of the values seen so far holds the
/// best three again once a further score has come in.
pub proof fn lemma_upsert_best_three(t: Seq<Option<i64>>, seen: Set<i64>, v: i64)
    requires
        best_three_of(t, seen),
    ensures
        v == 0 ==> best_three_of(upsert(t, v), seen),
        v != 0 ==> best_three_of(upsert(t, v), seen.insert(v)),
{
    reveal_with_fuel(slot_for, 4);
    let r = upsert(t, v);
    if v != 0 {
        let seen_now = seen.insert(v);
        let i = slot_for(t, v, 0);
        assert forall|w: i64| #[trigger] seen_now.contains(w) implies holds(r, w) || (r[2] is Some
            && r[2].unwrap() < w) by {
            if w == v {
                if !(r[2] is Some && r[2].unwrap() < v) {
                    assert(r[i] == Some(v));
                }
            } else if holds(t, w) {
                let k = choose|k: int| 0 <= k < t.len() && t[k] == Some(w);
                if i < 3 && t[i] != Some(v) && k < i {
                    assert(r[k] == Some(w));
                }
            }
        }
        assert forall|k: int| 0 <= k < r.len() && r[k] is Some implies seen_now.contains(
            #[trigger] r[k].unwrap(),
        ) by {}
    }
}

/// Whatever scores come in, and in whatever order, a day that started without
/// high scores ends with a strictly increasing triple that holds the lowest
/// distinct non-zero values among them, at most three, in ascending order.
pub proof fn lemma_upsert_all_best_three(scores: Seq<i64>)
    ensures
        best_three_of(upsert_all(no_high_scores(), scores), medal_scores(scores)),
    decreases scores.len(),
{
    if scores.len() > 0 {
        let before = scores.drop_last();
        let v = scores.last();
        lemma_upsert_all_best_three(before);
        lemma_upsert_best_three(upsert_all(no_high_scores(), before), medal_scores(before), v);
        assert(scores =~= before.push(v));
        if v == 0 {
            assert(medal_scores(scores) =~= medal_scores(before));
        } else {
            assert(medal_scores(scores) =~= medal_scores(before).insert(v));
        }
    }
}

} // verus!
