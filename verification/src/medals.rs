//! How the high scores of a day follow from the score sheets of the day.
//!
//! A store that only ever changed by recorded results keeps, for every day,
//! the best three of the scores that were handed in for it. Every medal is
//! then held by somebody.

use crate::bot::{after_message, after_messages, with_daily_score, with_result, MessageView};
use crate::database::DatabaseView;
use crate::error::Error;
use crate::high_scores::{best_three_of, lemma_upsert_best_three, lemma_upsert_valid, upsert};
use crate::parser::{lemma_score_range, message_of};
use crate::placement::Placement;
use crate::scoresheet::ScoresheetView;
use vstd::prelude::*;

verus! {

/// The scores that were handed in for the day and can earn a medal: all but
/// the failed attempts.
pub open spec fn day_scores(db: DatabaseView, day: i64) -> Set<i64> {
    Set::new(
        |score: i64|
            score != 0 && exists|i: int|
                0 <= i < db.score_sheets.len() && (#[trigger] db.score_sheets[i]).day == day
                    && db.score_sheets[i].score == score,
    )
}

/// The high scores of every day are the best three of the scores that were
/// handed in for it.
pub open spec fn high_scores_follow(db: DatabaseView) -> bool {
    forall|k: int|
        0 <= k < db.dailies.len() ==> best_three_of(
            (#[trigger] db.dailies[k]).high_scores,
            day_scores(db, db.dailies[k].id),
        )
}

/// The scores of a day after one more score sheet was kept.
proof fn lemma_day_scores_with_score_sheet(
    db: DatabaseView,
    msg_id: i64,
    day: i64,
    player_id: i64,
    score: i64,
    cup_number: Seq<char>,
    other: i64,
)
    ensures
        day_scores(db.with_score_sheet(msg_id, day, player_id, score, cup_number), other) == (
        if other == day && score != 0 {
            day_scores(db, other).insert(score)
        } else {
            day_scores(db, other)
        }),
{
    let after = db.with_score_sheet(msg_id, day, player_id, score, cup_number);
    let n = db.score_sheets.len() as int;
    let wanted = if other == day && score != 0 {
        day_scores(db, other).insert(score)
    } else {
        day_scores(db, other)
    };
    assert forall|v: i64| day_scores(after, other).contains(v) <==> wanted.contains(v) by {
        if day_scores(after, other).contains(v) {
            let i = choose|i: int|
                0 <= i < after.score_sheets.len() && (#[trigger] after.score_sheets[i]).day == other
                    && after.score_sheets[i].score == v;
            if i < n {
                assert(db.score_sheets[i].day == other);
            }
        }
        if wanted.contains(v) {
            if day_scores(db, other).contains(v) {
                let i = choose|i: int|
                    0 <= i < db.score_sheets.len() && (#[trigger] db.score_sheets[i]).day == other
                        && db.score_sheets[i].score == v;
                assert(after.score_sheets[i].day == other);
            } else {
                assert(after.score_sheets[n].day == other);
            }
        }
    }
    assert(day_scores(after, other) =~= wanted);
}

/// A store without score sheets and days keeps the best three of nothing.
pub proof fn lemma_empty_store_follows(db: DatabaseView)
    requires
        db.dailies.len() == 0,
    ensures
        high_scores_follow(db),
{
}

/// Handing in a result keeps the store well-formed, and keeps the high
/// scores of every day the best three of the day's scores.
pub proof fn lemma_with_result_follows(
    db: DatabaseView,
    msg_id: i64,
    day: i64,
    player_id: i64,
    score: i64,
    cup_number: Seq<char>,
)
    requires
        db.wf(),
        player_id >= 0,
        0 <= score <= 6,
    ensures
        with_result(db, msg_id, day, player_id, score, cup_number).wf(),
        high_scores_follow(db) ==> high_scores_follow(
            with_result(db, msg_id, day, player_id, score, cup_number),
        ),
{
    let known = db.with_player(player_id);
    db.lemma_with_player(player_id);
    let ready = known.with_daily(day);
    known.lemma_with_daily(day);
    if high_scores_follow(db) {
        assert forall|k: int| 0 <= k < ready.dailies.len() implies best_three_of(
            (#[trigger] ready.dailies[k]).high_scores,
            day_scores(ready, ready.dailies[k].id),
        ) by {
            if k < db.dailies.len() {
                assert(ready.dailies[k] == db.dailies[k]);
                assert(day_scores(ready, db.dailies[k].id) =~= day_scores(db, db.dailies[k].id));
            } else {
                assert forall|v: i64| !day_scores(ready, day).contains(v) by {
                    if day_scores(ready, day).contains(v) {
                        let i = choose|i: int|
                            0 <= i < ready.score_sheets.len() && (
                            #[trigger] ready.score_sheets[i]).day == day
                                && ready.score_sheets[i].score == v;
                        assert(known.sheet_fits(i));
                    }
                }
            }
        }
    }
    if ready.admission(day, player_id) == Ok::<bool, Error>(true) {
        let kept = ready.with_score_sheet(msg_id, day, player_id, score, cup_number);
        ready.lemma_with_score_sheet(msg_id, day, player_id, score, cup_number);
        let d = choose|d: int| 0 <= d < kept.dailies.len() && (#[trigger] kept.dailies[d]).id == day;
        kept.lemma_high_scores_at(d);
        let before = kept.dailies[d].high_scores;
        let after = upsert(before, score);
        lemma_upsert_valid(before, score);
        kept.lemma_with_high_scores(day, after);
        let done = with_daily_score(kept, day, score);
        if high_scores_follow(db) {
            assert forall|k: int| 0 <= k < done.dailies.len() implies best_three_of(
                (#[trigger] done.dailies[k]).high_scores,
                day_scores(done, done.dailies[k].id),
            ) by {
                let other = ready.dailies[k].id;
                lemma_day_scores_with_score_sheet(
                    ready,
                    msg_id,
                    day,
                    player_id,
                    score,
                    cup_number,
                    other,
                );
                assert(best_three_of(ready.dailies[k].high_scores, day_scores(ready, other)));
                assert(day_scores(done, other) =~= day_scores(kept, other));
                if other == day {
                    assert(k == d);
                    lemma_upsert_best_three(before, day_scores(ready, day), score);
                }
            }
        }
    }
}

/// The first result of a player for a day stands: handing in another one
/// for the same day, whatever its score, changes nothing.
pub proof fn lemma_first_result_stands(
    db: DatabaseView,
    day: i64,
    player_id: i64,
    first: (i64, i64, Seq<char>),
    second: (i64, i64, Seq<char>),
)
    requires
        db.wf(),
        player_id >= 0,
        0 <= first.1 <= 6,
    ensures
        ({
            let once = with_result(db, first.0, day, player_id, first.1, first.2);
            &&& with_result(once, second.0, day, player_id, second.1, second.2) == once
            &&& once.with_player(player_id).with_daily(day).admission(day, player_id) != Ok::<
                bool,
                Error,
            >(true)
        }),
{
    let once = with_result(db, first.0, day, player_id, first.1, first.2);
    let known = db.with_player(player_id);
    db.lemma_with_player(player_id);
    let ready = known.with_daily(day);
    known.lemma_with_daily(day);
    if ready.admission(day, player_id) == Ok::<bool, Error>(true) {
        let kept = ready.with_score_sheet(first.0, day, player_id, first.1, first.2);
        ready.lemma_with_score_sheet(first.0, day, player_id, first.1, first.2);
        let d = choose|d: int| 0 <= d < kept.dailies.len() && (#[trigger] kept.dailies[d]).id == day;
        kept.lemma_high_scores_at(d);
        lemma_upsert_valid(kept.dailies[d].high_scores, first.1);
        kept.lemma_with_high_scores(day, upsert(kept.dailies[d].high_scores, first.1));
        assert(kept.score_sheets[ready.score_sheets.len() as int].day == day);
        assert(once.has_score_sheet(day, player_id));
    }
    assert(once.has_daily(day));
}

/// Recording a message keeps the store well-formed, and keeps the high
/// scores of every day the best three of the day's scores.
pub proof fn lemma_after_message_follows(db: DatabaseView, msg: MessageView)
    requires
        db.wf(),
        msg.author >= 0,
    ensures
        after_message(db, msg).wf(),
        high_scores_follow(db) ==> high_scores_follow(after_message(db, msg)),
{
    lemma_score_range(msg.content);
    match message_of(msg.content) {
        Ok((day, score)) => {
            lemma_with_result_follows(
                db,
                msg.id,
                day,
                msg.author,
                score,
                crate::cup::cup_key_at(msg.timestamp),
            );
        },
        Err(_) => {},
    }
}

/// Whatever messages are recorded, one after the other, the store stays
/// well-formed, and the high scores of every day stay the best three of the
/// day's scores.
pub proof fn lemma_after_messages_follows(db: DatabaseView, messages: Seq<MessageView>)
    requires
        db.wf(),
        forall|i: int| 0 <= i < messages.len() ==> (#[trigger] messages[i]).author >= 0,
    ensures
        after_messages(db, messages).wf(),
        high_scores_follow(db) ==> high_scores_follow(after_messages(db, messages)),
    decreases messages.len(),
{
    if messages.len() > 0 {
        lemma_after_messages_follows(db, messages.drop_last());
        lemma_after_message_follows(after_messages(db, messages.drop_last()), messages.last());
    }
}

/// Where the high scores follow from the score sheets, every placement that
/// is decided has a holder.
pub proof fn lemma_medal_has_holder(db: DatabaseView, day: Option<i64>, placement: Placement)
    requires
        db.wf(),
        high_scores_follow(db),
        db.medalists(day, placement) is Some,
    ensures
        db.medalists(day, placement).unwrap().len() > 0,
{
    let (day, score) = db.medal_score(day, placement).unwrap();
    let k = choose|k: int| 0 <= k < db.dailies.len() && (#[trigger] db.dailies[k]).id == day;
    db.lemma_high_scores_at(k);
    let slot = placement.slot().unwrap();
    assert(db.dailies[k].high_scores[slot] == Some(score));
    assert(day_scores(db, day).contains(db.dailies[k].high_scores[slot].unwrap()));
    let i = choose|i: int|
        0 <= i < db.score_sheets.len() && (#[trigger] db.score_sheets[i]).day == day
            && db.score_sheets[i].score == score;
    let wanted = |sheet: ScoresheetView| sheet.day == day && sheet.score == score;
    db.score_sheets.lemma_filter_contains(wanted, i);
}

} // verus!
