//! What the bot does with a message: it reads the result, records it, and
//! says which medal markers have to leave and which have to be put.
//!
//! The bot decides; it does not talk to the chat platform. Whoever runs it
//! hands it the messages as plain values and carries out the actions that it
//! returns.

use crate::cup::{checked_cup_number_from_unixtime, cup_key_at, utc_year_month};
use crate::database::{Database, DatabaseView};
use crate::error::{Error, Result};
use crate::high_scores::{recalcualate_high_scores, upsert};
use crate::medals::{high_scores_follow, lemma_after_messages_follows, lemma_with_result_follows};
use crate::parser::{lemma_score_range, message_of, parse_msg, starts_with_wordle, wordle_word};
use crate::placement::Placement;
use crate::scoresheet::{Scoresheet, ScoresheetView};
use vstd::prelude::*;

verus! {

/// A message of the channel, with what the bot reads of it.
#[derive(Debug, PartialEq, Eq)]
pub struct Message {
    pub id: i64,
    /// The id of the player who wrote the message.
    pub author: i64,
    pub content: String,
    /// When the message was sent, in seconds since the beginning of 1970.
    pub timestamp: i64,
}

/// A message as a plain value.
pub struct MessageView {
    pub id: i64,
    pub author: i64,
    pub content: Seq<char>,
    pub timestamp: i64,
}

impl View for Message {
    type V = MessageView;

    open spec fn view(&self) -> MessageView {
        MessageView {
            id: self.id,
            author: self.author,
            content: self.content@,
            timestamp: self.timestamp,
        }
    }
}

/// Something for the chat platform to do.
#[derive(Debug, PartialEq, Eq, Copy, Clone, Structural)]
pub enum Action {
    /// Put the marker of the placement on the message.
    CreateReaction { message_id: u64, placement: Placement },
    /// Take the marker of the placement off the message.
    DeleteReaction { message_id: u64, placement: Placement },
}

/// The messages that hold the placement of the day.
pub open spec fn placed(db: DatabaseView, day: i64, placement: Placement) -> Seq<u64> {
    match db.medalists(Some(day), placement) {
        Some(sheets) => sheets.map_values(|sheet: ScoresheetView| sheet.msg_id as u64),
        None => Seq::empty(),
    }
}

/// The markers to put for the day: gold first, then silver, then bronze,
/// each on the messages that hold the placement.
pub open spec fn markers_to_set(db: DatabaseView, day: i64) -> Seq<Action> {
    placed(db, day, Placement::Gold).map_values(
        |message_id: u64| Action::CreateReaction { message_id, placement: Placement::Gold },
    ) + placed(db, day, Placement::Silver).map_values(
        |message_id: u64| Action::CreateReaction { message_id, placement: Placement::Silver },
    ) + placed(db, day, Placement::Bronze).map_values(
        |message_id: u64| Action::CreateReaction { message_id, placement: Placement::Bronze },
    )
}

/// The markers to take off for the day, in the same order.
pub open spec fn markers_to_clear(db: DatabaseView, day: i64) -> Seq<Action> {
    placed(db, day, Placement::Gold).map_values(
        |message_id: u64| Action::DeleteReaction { message_id, placement: Placement::Gold },
    ) + placed(db, day, Placement::Silver).map_values(
        |message_id: u64| Action::DeleteReaction { message_id, placement: Placement::Silver },
    ) + placed(db, day, Placement::Bronze).map_values(
        |message_id: u64| Action::DeleteReaction { message_id, placement: Placement::Bronze },
    )
}

/// The store after a score for `day` came in: a failed attempt changes
/// nothing, any other score is put into the high scores of the day.
pub open spec fn with_daily_score(db: DatabaseView, day: i64, score: i64) -> DatabaseView {
    if score == 0 || !db.has_daily(day) {
        db
    } else {
        db.with_high_scores(day, upsert(db.high_scores(day).unwrap(), score))
    }
}

/// The store after the result `score` of `player_id` for `day` was handed
/// in. The player and the day are made known first. If the player has no
/// score sheet for the day yet, and the store takes one more, the score
/// sheet is kept and the score goes into the high scores of the day.
pub open spec fn with_result(
    db: DatabaseView,
    msg_id: i64,
    day: i64,
    player_id: i64,
    score: i64,
    cup_number: Seq<char>,
) -> DatabaseView {
    let ready = db.with_player(player_id).with_daily(day);
    if ready.admission(day, player_id) == Ok::<bool, Error>(true) {
        with_daily_score(
            ready.with_score_sheet(msg_id, day, player_id, score, cup_number),
            day,
            score,
        )
    } else {
        ready
    }
}

/// What comes of recording the message: whether a score sheet was kept, or
/// why the message was not recorded.
pub open spec fn outcome(db: DatabaseView, msg: MessageView) -> Result<bool> {
    if utc_year_month(msg.timestamp) is None {
        Err(Error::TimestampOutOfRange)
    } else {
        match message_of(msg.content) {
            Err(e) => Err(e),
            Ok((day, _)) => db.with_player(msg.author).with_daily(day).admission(day, msg.author),
        }
    }
}

/// The store after the message was recorded.
pub open spec fn after_message(db: DatabaseView, msg: MessageView) -> DatabaseView {
    if utc_year_month(msg.timestamp) is None {
        db
    } else {
        match message_of(msg.content) {
            Err(_) => db,
            Ok((day, score)) => with_result(
                db,
                msg.id,
                day,
                msg.author,
                score,
                cup_key_at(msg.timestamp),
            ),
        }
    }
}

pub struct Bot {
    pub database: Database,
}

impl Bot {
    /// Puts the score into the high scores of the day, or of the latest day
    /// if none is given. A failed attempt changes nothing.
    pub fn new_daily_score(&mut self, day: Option<i64>, score: i64) -> (r: Result<()>)
        requires
            old(self).database.wf(),
            0 <= score <= 6,
        ensures
            final(self).database.wf(),
            score == 0 ==> r is Ok && final(self).database@ == old(self).database@,
            score != 0 ==> {
                let day = if day is Some { day } else { old(self).database@.latest_day() };
                if day is Some && old(self).database@.has_daily(day.unwrap()) {
                    r is Ok && final(self).database@ == with_daily_score(
                        old(self).database@,
                        day.unwrap(),
                        score,
                    )
                } else {
                    r == Err::<(), Error>(Error::PrecursorMissing) && final(self).database@ == old(
                        self,
                    ).database@
                }
            },
    {
        if score == 0 {
            return Ok(());
        }
        let day = match day {
            Some(day) => day,
            None => match self.database.get_daily_day() {
                Some(day) => day,
                None => {
                    return Err(Error::PrecursorMissing);
                },
            },
        };
        let high_scores = match self.database.get_daily_high_scores(day) {
            Some(high_scores) => high_scores,
            None => {
                return Err(Error::PrecursorMissing);
            },
        };
        let high_scores = recalcualate_high_scores(high_scores, score);
        self.database.update_daily(day, high_scores[0], high_scores[1], high_scores[2]);
        proof {
            assert(high_scores@ =~= seq![high_scores[0], high_scores[1], high_scores[2]]);
        }
        Ok(())
    }

    /// Records the result `score` of `player_id` for `day`, as reported by
    /// the message `msg_id` in the cup `cup_number`. Returns whether a score
    /// sheet was kept: none is kept for a player who already has one for the
    /// day.
    ///
    /// The player and the day are made known first. A score sheet that is
    /// kept puts its score into the high scores of the day.
    pub fn record_result(
        &mut self,
        msg_id: i64,
        day: i64,
        player_id: i64,
        score: i64,
        cup_number: String,
    ) -> (r: Result<bool>)
        requires
            old(self).database.wf(),
            player_id >= 0,
            0 <= score <= 6,
        ensures
            final(self).database.wf(),
            r == old(self).database@.with_player(player_id).with_daily(day).admission(
                day,
                player_id,
            ),
            r != Err::<bool, Error>(Error::PrecursorMissing),
            final(self).database@ == with_result(
                old(self).database@,
                msg_id,
                day,
                player_id,
                score,
                cup_number@,
            ),
            high_scores_follow(old(self).database@) ==> high_scores_follow(final(self).database@),
    {
        proof {
            lemma_with_result_follows(
                old(self).database@,
                msg_id,
                day,
                player_id,
                score,
                cup_number@,
            );
            old(self).database@.lemma_with_player(player_id);
            old(self).database@.with_player(player_id).lemma_with_daily(day);
        }
        self.database.new_player(player_id);
        self.database.new_daily(day);
        let kept = match self.database.new_score_sheet(msg_id, day, player_id, score, cup_number) {
            Ok(kept) => kept,
            Err(e) => {
                return Err(e);
            },
        };
        if kept {
            let _ = self.new_daily_score(Some(day), score);
        }
        Ok(kept)
    }

    /// Records the result that the message reports. Returns whether a score
    /// sheet was kept: none is kept for a player who already has one for the
    /// day.
    pub fn new_score_sheet(&mut self, msg: &Message) -> (r: Result<bool>)
        requires
            old(self).database.wf(),
            msg.author >= 0,
        ensures
            final(self).database.wf(),
            r == outcome(old(self).database@, msg@),
            final(self).database@ == after_message(old(self).database@, msg@),
            r != Err::<bool, Error>(Error::PrecursorMissing),
            high_scores_follow(old(self).database@) ==> high_scores_follow(final(self).database@),
    {
        let cup_number = match checked_cup_number_from_unixtime(msg.timestamp) {
            Some(cup_number) => cup_number,
            None => {
                return Err(Error::TimestampOutOfRange);
            },
        };
        let (day, score) = match parse_msg(msg.content.as_str()) {
            Ok(found) => found,
            Err(e) => {
                return Err(e);
            },
        };
        proof {
            lemma_score_range(msg.content@);
        }
        self.record_result(msg.id, day, msg.author, score, cup_number)
    }

    /// The markers of the day's medals, for the chat platform to put.
    pub fn set_medals(&self, day: i64) -> (actions: Vec<Action>)
        requires
            self.database.wf(),
        ensures
            actions@ == markers_to_set(self.database@, day),
    {
        let mut actions: Vec<Action> = Vec::new();
        self.place(day, Placement::Gold, true, &mut actions);
        self.place(day, Placement::Silver, true, &mut actions);
        self.place(day, Placement::Bronze, true, &mut actions);
        actions
    }

    /// The markers of the day's medals, for the chat platform to take off.
    pub fn clear_medals(&self, day: i64) -> (actions: Vec<Action>)
        requires
            self.database.wf(),
        ensures
            actions@ == markers_to_clear(self.database@, day),
    {
        let mut actions: Vec<Action> = Vec::new();
        self.place(day, Placement::Gold, false, &mut actions);
        self.place(day, Placement::Silver, false, &mut actions);
        self.place(day, Placement::Bronze, false, &mut actions);
        actions
    }

    /// Adds one action for each message that holds the placement of the
    /// day: to put the marker if `set`, to take it off if not.
    fn place(&self, day: i64, placement: Placement, set: bool, actions: &mut Vec<Action>)
        requires
            self.database.wf(),
        ensures
            final(actions)@ == old(actions)@ + placed(self.database@, day, placement).map_values(
                |message_id: u64|
                    if set {
                        Action::CreateReaction { message_id, placement }
                    } else {
                        Action::DeleteReaction { message_id, placement }
                    },
            ),
    {
        let ghost id = |sheet: ScoresheetView| sheet.msg_id as u64;
        let ghost action = |message_id: u64|
            if set {
                Action::CreateReaction { message_id, placement }
            } else {
                Action::DeleteReaction { message_id, placement }
            };
        let medalists = match self.database.medalists(Some(day), placement) {
            Some(medalists) => medalists,
            None => {
                return ;
            },
        };
        let ghost holders = self.database@.medalists(Some(day), placement).unwrap();
        let mut i: usize = 0;
        while i < medalists.len()
            invariant
                i <= medalists.len(),
                holders.len() == medalists.len(),
                forall|k: int| 0 <= k < holders.len() ==> holders[k] == (#[trigger] medalists[k])@,
                id == |sheet: ScoresheetView| sheet.msg_id as u64,
                action == |message_id: u64|
                    if set {
                        Action::CreateReaction { message_id, placement }
                    } else {
                        Action::DeleteReaction { message_id, placement }
                    },
                actions@ == old(actions)@ + holders.take(i as int).map_values(id).map_values(
                    action,
                ),
            decreases medalists.len() - i,
        {
            let message_id = medalists[i].message_id();
            if set {
                actions.push(Action::CreateReaction { message_id, placement });
            } else {
                actions.push(Action::DeleteReaction { message_id, placement });
            }
            proof {
                holders.lemma_take_succ_push(i as int);
            }
            i += 1;
        }
        proof {
            holders.lemma_take_len();
        }
    }

    /// Handles a result message: records it, and returns what has to be done
    /// about the medal markers of its day. The markers that stood before the
    /// message are taken off first, then those that stand after it are put.
    ///
    /// Nothing is recorded and nothing is to be done if the message cannot be
    /// read or its score sheet cannot be kept.
    pub fn handle_wordle_message(&mut self, msg: &Message) -> (r: Result<Vec<Action>>)
        requires
            old(self).database.wf(),
            msg.author >= 0,
        ensures
            final(self).database.wf(),
            final(self).database@ == (if message_of(msg.content@) is Ok {
                after_message(old(self).database@, msg@)
            } else {
                old(self).database@
            }),
            high_scores_follow(old(self).database@) ==> high_scores_follow(final(self).database@),
            match message_of(msg.content@) {
                Err(e) => r == Err::<Vec<Action>, Error>(e),
                Ok((day, _)) => match outcome(old(self).database@, msg@) {
                    Err(e) => r == Err::<Vec<Action>, Error>(e),
                    Ok(_) => r is Ok && r.unwrap()@ == markers_to_clear(old(self).database@, day)
                        + markers_to_set(final(self).database@, day),
                },
            },
    {
        let (day, _) = match parse_msg(msg.content.as_str()) {
            Ok(found) => found,
            Err(e) => {
                return Err(e);
            },
        };
        let mut actions = self.clear_medals(day);
        match self.new_score_sheet(msg) {
            Ok(_) => {},
            Err(e) => {
                return Err(e);
            },
        }
        let mut set = self.set_medals(day);
        actions.append(&mut set);
        Ok(actions)
    }

    /// Records the result messages among `messages`, oldest or newest first
    /// as they come, and returns how many result messages there were. A
    /// message that cannot be recorded is passed over.
    pub fn read_old_messages(&mut self, messages: &Vec<Message>) -> (msg_count: usize)
        requires
            old(self).database.wf(),
            forall|i: int| 0 <= i < messages.len() ==> (#[trigger] messages[i]).author >= 0,
        ensures
            final(self).database.wf(),
            final(self).database@ == after_messages(old(self).database@, message_views(messages@)),
            msg_count == message_views(messages@).filter(
                |msg: MessageView| wordle_word().is_prefix_of(msg.content),
            ).len(),
            high_scores_follow(old(self).database@) ==> high_scores_follow(final(self).database@),
    {
        proof {
            lemma_after_messages_follows(old(self).database@, message_views(messages@));
        }
        let ghost wanted = |msg: MessageView| wordle_word().is_prefix_of(msg.content);
        let ghost all = message_views(messages@);
        let mut msg_count: usize = 0;
        let mut i: usize = 0;
        proof {
            reveal(Seq::filter);
        }
        while i < messages.len()
            invariant
                i <= messages.len(),
                self.database.wf(),
                all == message_views(messages@),
                forall|k: int| 0 <= k < messages.len() ==> (#[trigger] messages[k]).author >= 0,
                wanted == |msg: MessageView| wordle_word().is_prefix_of(msg.content),
                msg_count == all.take(i as int).filter(wanted).len(),
                msg_count <= i,
                self.database@ == after_messages(old(self).database@, all.take(i as int)),
            decreases messages.len() - i,
        {
            let msg = &messages[i];
            proof {
                all.lemma_take_succ_push(i as int);
                all.take(i as int).lemma_filter_push(all[i as int], wanted);
                assert(all.take(i + 1).drop_last() =~= all.take(i as int));
            }
            if starts_with_wordle(msg.content.as_str()) {
                msg_count += 1;
                let _ = self.new_score_sheet(msg);
            }
            i += 1;
        }
        proof {
            all.lemma_take_len();
        }
        msg_count
    }
}

/// The views of a list of messages, in the same order.
pub open spec fn message_views(messages: Seq<Message>) -> Seq<MessageView> {
    Seq::new(messages.len(), |i: int| messages[i]@)
}

/// The store after the result messages among `messages` were recorded, one
/// after the other.
pub open spec fn after_messages(db: DatabaseView, messages: Seq<MessageView>) -> DatabaseView
    decreases messages.len(),
{
    if messages.len() == 0 {
        db
    } else {
        let before = after_messages(db, messages.drop_last());
        if wordle_word().is_prefix_of(messages.last().content) {
            after_message(before, messages.last())
        } else {
            before
        }
    }
}

} // verus!
