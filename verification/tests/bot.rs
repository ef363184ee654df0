use wordle_cup::bot::{Action, Bot, Message};
use wordle_cup::database::Database;
use wordle_cup::error::Error;
use wordle_cup::placement::Placement;
use wordle_cup::player::Player;

const A: i64 = 11;
const B: i64 = 22;
const C: i64 = 33;
const D: i64 = 44;

fn bot() -> Bot {
    Bot {
        database: Database::new(),
    }
}

fn message(id: i64, author: i64, content: &str) -> Message {
    Message {
        id,
        author,
        content: String::from(content),
        timestamp: 1_700_000_000,
    }
}

fn put(message_id: u64, placement: Placement) -> Action {
    Action::CreateReaction {
        message_id,
        placement,
    }
}

fn take(message_id: u64, placement: Placement) -> Action {
    Action::DeleteReaction {
        message_id,
        placement,
    }
}

fn holders(bot: &Bot, day: i64, placement: Placement) -> Option<Vec<i64>> {
    bot.database
        .medalists(Some(day), placement)
        .map(|sheets| sheets.iter().map(|sheet| sheet.player_id).collect())
}

#[test]
fn two_results_of_a_day_share_the_medals() {
    let mut bot = bot();
    assert_eq!(
        bot.new_score_sheet(&message(1, A, "Wordle 100 2/6")),
        Ok(true)
    );
    assert_eq!(
        bot.new_score_sheet(&message(2, B, "Wordle 100 3/6")),
        Ok(true)
    );
    assert_eq!(
        bot.database.get_daily_high_scores(100),
        Some([Some(2), Some(3), None])
    );
    assert_eq!(holders(&bot, 100, Placement::Gold), Some(vec![A]));
    assert_eq!(holders(&bot, 100, Placement::Silver), Some(vec![B]));
    assert_eq!(holders(&bot, 100, Placement::Bronze), None);
}

#[test]
fn a_second_result_of_a_player_is_passed_over() {
    let mut bot = bot();
    assert_eq!(
        bot.new_score_sheet(&message(1, 9, "Wordle 547 4/6")),
        Ok(true)
    );
    assert_eq!(
        bot.new_score_sheet(&message(2, 9, "Wordle 547 2/6")),
        Ok(false)
    );
    assert_eq!(bot.database.get_user_scores(9), vec![4]);
    assert_eq!(
        bot.database.get_daily_high_scores(547),
        Some([Some(4), None, None])
    );
    assert_eq!(holders(&bot, 547, Placement::Gold), Some(vec![9]));
}

#[test]
fn a_failed_attempt_is_kept_without_a_medal() {
    let mut bot = bot();
    assert_eq!(
        bot.new_score_sheet(&message(1, A, "Wordle 100 X/6")),
        Ok(true)
    );
    assert_eq!(
        bot.database.get_daily_high_scores(100),
        Some([None, None, None])
    );
    assert_eq!(bot.database.get_user_scores(A), vec![0]);
    assert_eq!(holders(&bot, 100, Placement::Gold), None);
}

#[test]
fn a_message_that_cannot_be_read_changes_nothing() {
    let mut bot = bot();
    assert_eq!(
        bot.new_score_sheet(&message(1, A, "Wordle 100 7/6")),
        Err(Error::IlleagalNumberOfGuesses('7'))
    );
    assert_eq!(
        bot.new_score_sheet(&message(1, A, "wordle 100 3/6")),
        Err(Error::MalformedMessage)
    );
    assert_eq!(bot.database.get_players(), Vec::<i64>::new());
    assert_eq!(bot.database.get_daily_day(), None);
}

#[test]
fn a_message_from_outside_the_calendar_is_refused() {
    let mut bot = bot();
    let mut msg = message(1, A, "Wordle 100 3/6");
    msg.timestamp = i64::MAX;
    assert_eq!(bot.new_score_sheet(&msg), Err(Error::TimestampOutOfRange));
    assert_eq!(
        bot.handle_wordle_message(&msg),
        Err(Error::TimestampOutOfRange)
    );
    msg.content = String::from("Wordle 100 9/6");
    assert_eq!(bot.new_score_sheet(&msg), Err(Error::TimestampOutOfRange));
    assert_eq!(
        bot.handle_wordle_message(&msg),
        Err(Error::IlleagalNumberOfGuesses('9'))
    );
    assert_eq!(bot.database.get_players(), Vec::<i64>::new());
}

#[test]
fn the_cup_of_a_result_is_that_of_its_message() {
    let mut bot = bot();
    let mut msg = message(1, A, "Wordle 100 3/6");
    msg.timestamp = 1_704_067_199;
    bot.new_score_sheet(&msg).unwrap();
    let mut msg = message(2, A, "Wordle 101 2/6");
    msg.timestamp = 1_704_067_200;
    bot.new_score_sheet(&msg).unwrap();
    assert_eq!(
        bot.database.get_player_scores_for_cup_number(A, "202312"),
        vec![3]
    );
    assert_eq!(
        bot.database.get_player_scores_for_cup_number(A, "20241"),
        vec![2]
    );
}

#[test]
fn new_daily_score_goes_to_the_latest_day_if_none_is_given() {
    let mut bot = bot();
    assert_eq!(bot.new_daily_score(None, 3), Err(Error::PrecursorMissing));
    assert_eq!(bot.new_daily_score(None, 0), Ok(()));
    bot.database.new_daily(7);
    bot.database.new_daily(8);
    assert_eq!(bot.new_daily_score(None, 3), Ok(()));
    assert_eq!(bot.new_daily_score(Some(7), 5), Ok(()));
    assert_eq!(bot.new_daily_score(Some(7), 0), Ok(()));
    assert_eq!(bot.new_daily_score(Some(9), 1), Err(Error::PrecursorMissing));
    assert_eq!(
        bot.database.get_daily_high_scores(8),
        Some([Some(3), None, None])
    );
    assert_eq!(
        bot.database.get_daily_high_scores(7),
        Some([Some(5), None, None])
    );
    assert_eq!(bot.database.get_daily_high_scores(9), None);
}

#[test]
fn the_first_result_of_a_day_puts_gold() {
    let mut bot = bot();
    assert_eq!(
        bot.handle_wordle_message(&message(1, A, "Wordle 100 4/6")),
        Ok(vec![put(1, Placement::Gold)])
    );
}

#[test]
fn a_better_result_moves_the_markers() {
    let mut bot = bot();
    bot.handle_wordle_message(&message(1, A, "Wordle 100 4/6"))
        .unwrap();
    assert_eq!(
        bot.handle_wordle_message(&message(2, B, "Wordle 100 5/6")),
        Ok(vec![
            take(1, Placement::Gold),
            put(1, Placement::Gold),
            put(2, Placement::Silver),
        ])
    );
    assert_eq!(
        bot.handle_wordle_message(&message(3, C, "Wordle 100 6/6")),
        Ok(vec![
            take(1, Placement::Gold),
            take(2, Placement::Silver),
            put(1, Placement::Gold),
            put(2, Placement::Silver),
            put(3, Placement::Bronze),
        ])
    );
    assert_eq!(
        bot.handle_wordle_message(&message(4, D, "Wordle 100 2/6")),
        Ok(vec![
            take(1, Placement::Gold),
            take(2, Placement::Silver),
            take(3, Placement::Bronze),
            put(4, Placement::Gold),
            put(1, Placement::Silver),
            put(2, Placement::Bronze),
        ])
    );
}

#[test]
fn equal_results_share_a_marker() {
    let mut bot = bot();
    bot.handle_wordle_message(&message(1, A, "Wordle 100 4/6"))
        .unwrap();
    assert_eq!(
        bot.handle_wordle_message(&message(2, B, "Wordle 100 4/6")),
        Ok(vec![
            take(1, Placement::Gold),
            put(1, Placement::Gold),
            put(2, Placement::Gold),
        ])
    );
    assert_eq!(
        bot.set_medals(100),
        vec![put(1, Placement::Gold), put(2, Placement::Gold)]
    );
    assert_eq!(
        bot.clear_medals(100),
        vec![take(1, Placement::Gold), take(2, Placement::Gold)]
    );
    assert_eq!(bot.set_medals(101), vec![]);
}

#[test]
fn a_repeated_result_leaves_the_markers_as_they_are() {
    let mut bot = bot();
    bot.handle_wordle_message(&message(1, A, "Wordle 100 4/6"))
        .unwrap();
    assert_eq!(
        bot.handle_wordle_message(&message(2, A, "Wordle 100 1/6")),
        Ok(vec![take(1, Placement::Gold), put(1, Placement::Gold)])
    );
    assert_eq!(bot.database.get_user_scores(A), vec![4]);
}

#[test]
fn a_message_that_cannot_be_read_asks_for_nothing() {
    let mut bot = bot();
    bot.handle_wordle_message(&message(1, A, "Wordle 100 4/6"))
        .unwrap();
    assert_eq!(
        bot.handle_wordle_message(&message(2, B, "Wordle 100 Y/6")),
        Err(Error::IlleagalNumberOfGuesses('Y'))
    );
    assert_eq!(
        bot.handle_wordle_message(&message(2, B, "Wordle")),
        Err(Error::MalformedMessage)
    );
    assert_eq!(bot.database.get_players(), vec![A]);
}

#[test]
fn old_messages_are_recorded_in_the_order_given() {
    let mut bot = bot();
    let messages = vec![
        message(1, A, "Wordle 100 4/6"),
        message(2, B, "hello"),
        message(3, B, "Wordle 100 3/6"),
        message(4, A, "Wordle 100 1/6"),
        message(5, C, "Wordle nonsense"),
        message(6, C, "Wordle 101 X/6"),
        message(7, C, "!reset"),
    ];
    assert_eq!(bot.read_old_messages(&messages), 5);
    assert_eq!(bot.database.get_players(), vec![A, B, C]);
    assert_eq!(
        bot.database.get_daily_high_scores(100),
        Some([Some(3), Some(4), None])
    );
    assert_eq!(
        bot.database.get_daily_high_scores(101),
        Some([None, None, None])
    );
    assert_eq!(bot.database.get_user_scores(A), vec![4]);
    assert_eq!(
        bot.database.total_cup_score(),
        vec![(Player { id: 22 }, 5), (Player { id: 11 }, 3)]
    );
}

#[test]
fn every_medal_of_recorded_results_has_a_holder() {
    let mut bot = bot();
    let results = [
        (A, "Wordle 1 5/6"),
        (B, "Wordle 1 X/6"),
        (C, "Wordle 1 5/6"),
        (D, "Wordle 1 2/6"),
        (A, "Wordle 1 1/6"),
        (A, "Wordle 2 6/6"),
        (B, "Wordle 2 4/6"),
        (C, "Wordle 2 3/6"),
        (D, "Wordle 2 2/6"),
    ];
    let mut id = 0;
    for (author, content) in results {
        id += 1;
        bot.handle_wordle_message(&message(id, author, content))
            .unwrap();
        for day in [1, 2] {
            for placement in [Placement::Gold, Placement::Silver, Placement::Bronze] {
                if let Some(holders) = holders(&bot, day, placement) {
                    assert!(!holders.is_empty());
                }
            }
        }
    }
    assert_eq!(
        bot.database.get_daily_high_scores(1),
        Some([Some(2), Some(5), None])
    );
    assert_eq!(
        bot.database.get_daily_high_scores(2),
        Some([Some(2), Some(3), Some(4)])
    );
    assert_eq!(holders(&bot, 1, Placement::Silver), Some(vec![A, C]));
    assert_eq!(holders(&bot, 2, Placement::Bronze), Some(vec![B]));
}

#[test]
fn a_result_makes_its_player_and_day_known() {
    let mut bot = bot();
    assert_eq!(
        bot.record_result(5, 100, A, 3, String::from("20241")),
        Ok(true)
    );
    assert_eq!(
        bot.record_result(6, 100, A, 1, String::from("20241")),
        Ok(false)
    );
    assert_eq!(
        bot.record_result(7, 101, A, 0, String::from("20242")),
        Ok(true)
    );
    assert_eq!(bot.database.get_players(), vec![A]);
    assert_eq!(bot.database.get_daily_day(), Some(101));
    assert_eq!(
        bot.database.get_daily_high_scores(100),
        Some([Some(3), None, None])
    );
    assert_eq!(
        bot.database.get_daily_high_scores(101),
        Some([None, None, None])
    );
    assert_eq!(bot.database.get_score_sheet(100, A).unwrap().msg_id, 5);
    assert_eq!(bot.database.get_user_scores(A), vec![3, 0]);
}
