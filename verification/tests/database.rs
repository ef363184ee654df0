use wordle_cup::database::{Database, Window, MAX_SCORE_SHEETS};
use wordle_cup::error::Error;
use wordle_cup::placement::Placement;
use wordle_cup::player::Player;
use wordle_cup::scoresheet::Scoresheet;

fn store_with(players: &[i64], days: &[i64]) -> Database {
    let mut db = Database::new();
    for player in players {
        db.new_player(*player);
    }
    for day in days {
        db.new_daily(*day);
    }
    db
}

fn cup(name: &str) -> String {
    String::from(name)
}

#[test]
fn a_new_store_is_empty() {
    let db = Database::new();
    assert_eq!(db.get_players(), Vec::<i64>::new());
    assert_eq!(db.get_daily_day(), None);
    assert_eq!(db.get_daily_high_scores(1), None);
    assert_eq!(db.get_gold_medalist(None), None);
    assert_eq!(db.get_user_played_games(1), 0);
    assert_eq!(db.total_cup_score(), Vec::new());
    assert_eq!(db.cup_leader("20241"), None);
}

#[test]
fn making_a_player_known_twice_changes_nothing() {
    let mut db = Database::new();
    db.new_player(7);
    db.new_player(3);
    db.new_player(7);
    assert_eq!(db.get_players(), vec![7, 3]);
}

#[test]
fn making_a_day_known_twice_keeps_its_high_scores() {
    let mut db = Database::new();
    db.new_daily(100);
    assert_eq!(db.get_daily_high_scores(100), Some([None, None, None]));
    db.update_daily(100, Some(2), Some(3), None);
    db.new_daily(100);
    assert_eq!(db.get_daily_high_scores(100), Some([Some(2), Some(3), None]));
    assert_eq!(db.get_daily_high_scores(101), None);
}

#[test]
fn update_daily_passes_over_an_unknown_day() {
    let mut db = store_with(&[], &[100]);
    db.update_daily(101, Some(1), None, None);
    assert_eq!(db.get_daily_high_scores(101), None);
    assert_eq!(db.get_daily_high_scores(100), Some([None, None, None]));
}

#[test]
fn the_latest_day_has_the_highest_number() {
    let mut db = store_with(&[], &[5, 9, -2, 7]);
    assert_eq!(db.get_daily_day(), Some(9));
    db.new_daily(10);
    assert_eq!(db.get_daily_day(), Some(10));
}

#[test]
fn a_second_score_for_a_day_is_passed_over() {
    let mut db = store_with(&[9], &[547]);
    assert_eq!(db.new_score_sheet(1, 547, 9, 4, cup("202212")), Ok(true));
    assert_eq!(db.new_score_sheet(2, 547, 9, 2, cup("202212")), Ok(false));
    assert_eq!(db.get_user_scores(9), vec![4]);
    assert_eq!(db.get_user_played_games(9), 1);
}

#[test]
fn a_score_needs_a_known_day_and_player() {
    let mut db = store_with(&[9], &[547]);
    assert_eq!(
        db.new_score_sheet(1, 548, 9, 4, cup("202212")),
        Err(Error::PrecursorMissing)
    );
    assert_eq!(
        db.new_score_sheet(1, 547, 8, 4, cup("202212")),
        Err(Error::PrecursorMissing)
    );
    assert_eq!(db.get_user_played_games(9), 0);
    assert_eq!(db.get_user_played_games(8), 0);
}

#[test]
fn score_sheets_are_numbered_in_order() {
    let mut db = store_with(&[1, 2], &[10]);
    db.new_score_sheet(71, 10, 1, 3, cup("20241")).unwrap();
    db.new_score_sheet(72, 10, 2, 3, cup("20241")).unwrap();
    db.update_daily(10, Some(3), None, None);
    let gold = db.get_gold_medalist(Some(10)).unwrap();
    assert_eq!(
        gold,
        vec![
            Scoresheet {
                id: 1,
                msg_id: 71,
                day: 10,
                player_id: 1,
                score: 3,
                cup_number: cup("20241")
            },
            Scoresheet {
                id: 2,
                msg_id: 72,
                day: 10,
                player_id: 2,
                score: 3,
                cup_number: cup("20241")
            },
        ]
    );
    assert_eq!(gold[0].player(), Player { id: 1 });
    assert_eq!(gold[1].message_id(), 72);
    assert_eq!(gold[1].score(), 3);
}

#[test]
fn the_store_takes_a_bounded_number_of_score_sheets() {
    assert!(13 * (MAX_SCORE_SHEETS as u64) <= u32::MAX as u64);
    assert!(13 * (MAX_SCORE_SHEETS as u64 + 1) > u32::MAX as u64);
}

#[test]
fn an_empty_slot_has_no_medalists() {
    let mut db = store_with(&[1], &[10]);
    db.new_score_sheet(71, 10, 1, 3, cup("20241")).unwrap();
    assert_eq!(db.get_gold_medalist(Some(10)), None);
    db.update_daily(10, Some(3), None, None);
    assert_eq!(db.get_gold_medalist(Some(10)).unwrap().len(), 1);
    assert_eq!(db.get_silver_medalist(Some(10)), None);
    assert_eq!(db.get_bronze_medalist(Some(10)), None);
    assert_eq!(db.medalists(Some(10), Placement::Loser), None);
    assert_eq!(db.get_gold_medalist(Some(11)), None);
}

#[test]
fn a_filled_slot_may_have_no_holder() {
    let mut db = store_with(&[1], &[10]);
    db.new_score_sheet(71, 10, 1, 3, cup("20241")).unwrap();
    db.update_daily(10, Some(2), Some(3), None);
    assert_eq!(db.get_gold_medalist(Some(10)), Some(vec![]));
    assert_eq!(db.get_silver_medalist(Some(10)).unwrap().len(), 1);
}

#[test]
fn medalists_of_no_day_are_those_of_the_latest() {
    let mut db = store_with(&[1, 2], &[10, 11]);
    db.new_score_sheet(71, 10, 1, 3, cup("20241")).unwrap();
    db.new_score_sheet(72, 11, 2, 4, cup("20241")).unwrap();
    db.update_daily(10, Some(3), None, None);
    db.update_daily(11, Some(4), None, None);
    let gold = db.get_gold_medalist(None).unwrap();
    assert_eq!(gold.len(), 1);
    assert_eq!(gold[0].player_id, 2);
}

#[test]
fn medals_are_counted_over_all_days() {
    let mut db = store_with(&[1, 2], &[10, 11, 12]);
    db.new_score_sheet(1, 10, 1, 2, cup("20241")).unwrap();
    db.new_score_sheet(2, 10, 2, 3, cup("20241")).unwrap();
    db.update_daily(10, Some(2), Some(3), None);
    db.new_score_sheet(3, 11, 1, 4, cup("20241")).unwrap();
    db.new_score_sheet(4, 11, 2, 4, cup("20241")).unwrap();
    db.update_daily(11, Some(4), None, None);
    db.new_score_sheet(5, 12, 1, 0, cup("20242")).unwrap();
    db.new_score_sheet(6, 12, 2, 6, cup("20242")).unwrap();
    db.update_daily(12, Some(5), Some(6), None);
    assert_eq!(db.get_user_gold_medals(1), 2);
    assert_eq!(db.get_user_silver_medals(1), 0);
    assert_eq!(db.get_user_bronze_medals(1), 0);
    assert_eq!(db.get_user_gold_medals(2), 1);
    assert_eq!(db.get_user_silver_medals(2), 2);
    assert_eq!(db.get_user_medals(2, Placement::Loser), 0);
    assert_eq!(db.get_user_played_games(1), 3);
    assert_eq!(db.get_user_gold_medals(3), 0);
}

#[test]
fn scores_are_found_by_day_and_by_cup() {
    let mut db = store_with(&[1, 2], &[10, 11, 12]);
    db.new_score_sheet(1, 10, 1, 2, cup("20241")).unwrap();
    db.new_score_sheet(2, 10, 2, 3, cup("20241")).unwrap();
    db.new_score_sheet(3, 11, 1, 4, cup("20241")).unwrap();
    db.new_score_sheet(4, 12, 1, 0, cup("20242")).unwrap();
    assert_eq!(db.get_user_scores(1), vec![2, 4, 0]);
    assert_eq!(db.get_player_scores_from_day(11, 1), vec![4, 0]);
    assert_eq!(db.get_player_scores_from_day(13, 1), Vec::<i64>::new());
    assert_eq!(db.get_player_scores_for_cup_number(1, "20241"), vec![2, 4]);
    assert_eq!(db.get_player_scores_for_cup_number(1, "20242"), vec![0]);
    assert_eq!(db.get_player_scores_for_cup_number(2, "20242"), Vec::<i64>::new());
    assert_eq!(db.get_scores(2, &Window::All), vec![3]);
    assert_eq!(db.get_scores(1, &Window::FromDay(12)), vec![0]);
    assert_eq!(db.get_scores(1, &Window::Cup(cup("20241"))), vec![2, 4]);
}

#[test]
fn a_score_sheet_is_found_by_day_and_player() {
    let mut db = store_with(&[1, 2], &[10, 11]);
    db.new_score_sheet(71, 10, 1, 3, cup("20241")).unwrap();
    db.new_score_sheet(72, 11, 1, 5, cup("20241")).unwrap();
    db.new_score_sheet(73, 11, 2, 0, cup("20241")).unwrap();
    assert_eq!(db.get_score_sheet(11, 1).unwrap().msg_id, 72);
    assert_eq!(db.get_score_sheet(11, 2).unwrap().id, 3);
    assert_eq!(db.get_score_sheet(10, 2), None);
    assert_eq!(db.get_score_sheet(12, 1), None);
}
