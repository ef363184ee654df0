use wordle_cup::cup::{
    checked_cup_number_from_unixtime, cup_number, cup_number_cute_format,
    cup_number_from_unixtime, current_cup_number, current_cup_number_cute_format,
};

#[test]
fn a_cup_number_is_year_then_month_without_padding() {
    assert_eq!(cup_number(2024, 1), "20241");
    assert_eq!(cup_number(2024, 11), "202411");
    assert_eq!(cup_number(1970, 12), "197012");
    assert_eq!(cup_number(0, 1), "01");
    assert_eq!(cup_number(9, 9), "99");
    assert_eq!(cup_number(-5, 12), "-512");
    assert_eq!(cup_number(i32::MAX, u32::MAX), "21474836474294967295");
    assert_eq!(cup_number(i32::MIN, 0), "-21474836480");
}

#[test]
fn the_cute_format_puts_a_slash_between() {
    assert_eq!(cup_number_cute_format(2024, 1), "2024/1");
    assert_eq!(cup_number_cute_format(2024, 11), "2024/11");
    assert_eq!(cup_number_cute_format(-1, 3), "-1/3");
}

#[test]
fn the_cup_of_a_moment_goes_by_utc() {
    assert_eq!(cup_number_from_unixtime(0), "19701");
    assert_eq!(cup_number_from_unixtime(1_700_000_000), "202311");
    assert_eq!(cup_number_from_unixtime(1_704_067_199), "202312");
    assert_eq!(cup_number_from_unixtime(1_704_067_200), "20241");
    assert_eq!(cup_number_from_unixtime(951_782_400), "20002");
    assert_eq!(cup_number_from_unixtime(951_868_800), "20003");
    assert_eq!(cup_number_from_unixtime(-1), "196912");
}

#[test]
fn a_moment_outside_the_calendar_has_no_cup() {
    assert_eq!(checked_cup_number_from_unixtime(i64::MAX), None);
    assert_eq!(checked_cup_number_from_unixtime(i64::MIN), None);
    assert_eq!(
        checked_cup_number_from_unixtime(1_700_000_000),
        Some(String::from("202311"))
    );
    assert_eq!(
        checked_cup_number_from_unixtime(253_402_300_799),
        Some(String::from("999912"))
    );
}

#[test]
fn the_current_cup_is_a_year_and_a_month() {
    let cup = current_cup_number();
    let cute = current_cup_number_cute_format();
    assert!(cup.len() >= 5);
    assert!(cup.chars().all(|c| c.is_ascii_digit()));
    let (year, month) = cute.split_once('/').unwrap();
    let month: u32 = month.parse().unwrap();
    assert!((1..=12).contains(&month));
    assert!(year.parse::<i32>().unwrap() >= 2024);
}
