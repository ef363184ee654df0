use nom::bytes::complete::tag;
use nom::character::complete::{i64 as nom_i64, one_of};
use nom::sequence::{preceded, separated_pair};
use nom::IResult;
use wordle_cup::error::Error;
use wordle_cup::parser::{
    parse_day, parse_day_and_score, parse_msg, parse_score, parse_wordle, parse_wordle_str,
    starts_with_wordle,
};

#[test]
fn test_parse_wordle_str() {
    assert_eq!(parse_wordle_str("Wordle "), Ok(("", ())));
    assert!(parse_wordle_str("wordle").is_err());
}

#[test]
fn test_parse_day() {
    assert_eq!(parse_day("547 bla"), Ok((" bla", 547)));
    assert!(parse_day("blabla").is_err());
    assert!(parse_day("").is_err());
}

#[test]
fn test_parse_score_char() {
    for x in ['X', '1', '2', '3', '4', '5', '6'] {
        assert!(parse_score(&format!("{x}/6")).is_ok());
    }
    assert!(parse_score("7/6").is_err())
}

#[test]
fn test_parse_day_and_score() {
    assert_eq!(parse_day_and_score("547 3/6"), Ok(("/6", (547, 3))));

    assert!(parse_day_and_score("547 7/6").is_err());
}

#[test]
fn test_parse_wordle() {
    assert_eq!(parse_wordle("Wordle 547 3/6"), Ok(("/6", (547, 3))));
    assert!(parse_wordle("Wordle 547 7/6").is_err());
    assert!(parse_wordle("wordle 547 7/6").is_err());
    assert!(parse_wordle("Wordle foo 7/6").is_err());
}

#[test]
fn parse_msg_reads_day_and_guesses() {
    assert_eq!(parse_msg("Wordle 547 3/6"), Ok((547, 3)));
    assert_eq!(parse_msg("Wordle 547 1/6"), Ok((547, 1)));
    assert_eq!(parse_msg("Wordle 547 6/6"), Ok((547, 6)));
}

#[test]
fn parse_msg_reads_a_failed_attempt_as_zero() {
    assert_eq!(parse_msg("Wordle 547 X/6"), Ok((547, 0)));
    assert_eq!(parse_msg("Wordle 547 0/6"), Ok((547, 0)));
}

#[test]
fn parse_msg_refuses_an_illegal_guess_count() {
    assert_eq!(
        parse_msg("Wordle 547 7/6"),
        Err(Error::IlleagalNumberOfGuesses('7'))
    );
    assert_eq!(
        parse_msg("Wordle 547 x/6"),
        Err(Error::IlleagalNumberOfGuesses('x'))
    );
    assert_eq!(
        parse_msg("Wordle 547 é"),
        Err(Error::IlleagalNumberOfGuesses('é'))
    );
    assert_eq!(
        parse_msg("Wordle 547  3/6"),
        Err(Error::IlleagalNumberOfGuesses(' '))
    );
}

#[test]
fn parse_msg_refuses_a_malformed_message() {
    assert_eq!(parse_msg("wordle 547 3/6"), Err(Error::MalformedMessage));
    assert_eq!(parse_msg(""), Err(Error::MalformedMessage));
    assert_eq!(parse_msg("Wordle"), Err(Error::MalformedMessage));
    assert_eq!(parse_msg("Wordle "), Err(Error::MalformedMessage));
    assert_eq!(parse_msg("Wordle foo 7/6"), Err(Error::MalformedMessage));
    assert_eq!(parse_msg("Wordle 547"), Err(Error::MalformedMessage));
    assert_eq!(parse_msg("Wordle 547 "), Err(Error::MalformedMessage));
    assert_eq!(parse_msg("Wordle 547\t3/6"), Err(Error::MalformedMessage));
    assert_eq!(parse_msg("Wordle  547 3/6"), Err(Error::MalformedMessage));
    assert_eq!(parse_msg("Wordle547 3/6"), Err(Error::MalformedMessage));
}

#[test]
fn parse_msg_does_not_look_behind_the_score() {
    assert_eq!(parse_msg("Wordle 547 3"), Ok((547, 3)));
    assert_eq!(parse_msg("Wordle 547 3/6\n\n⬛🟨⬛⬛⬛\n🟩🟩🟩🟩🟩"), Ok((547, 3)));
    assert_eq!(parse_msg("Wordle 547 36"), Ok((547, 3)));
}

#[test]
fn parse_day_takes_a_sign() {
    assert_eq!(parse_day("-12 x"), Ok((" x", -12)));
    assert_eq!(parse_day("+12"), Ok(("", 12)));
    assert_eq!(parse_day("-"), Err(Error::MalformedMessage));
    assert_eq!(parse_day("+ 1"), Err(Error::MalformedMessage));
    assert_eq!(parse_day("--1"), Err(Error::MalformedMessage));
    assert_eq!(parse_day("007"), Ok(("", 7)));
    assert_eq!(parse_day("0"), Ok(("", 0)));
}

#[test]
fn parse_day_stops_at_the_bounds_of_an_i64() {
    assert_eq!(parse_day("9223372036854775807"), Ok(("", i64::MAX)));
    assert_eq!(parse_day("-9223372036854775808"), Ok(("", i64::MIN)));
    assert_eq!(parse_day("9223372036854775808"), Err(Error::MalformedMessage));
    assert_eq!(parse_day("-9223372036854775809"), Err(Error::MalformedMessage));
    assert_eq!(
        parse_day("99999999999999999999999 3/6"),
        Err(Error::MalformedMessage)
    );
    assert_eq!(parse_day("00000000000000000000000012"), Ok(("", 12)));
}

#[test]
fn parse_day_reads_only_ascii_digits() {
    assert_eq!(parse_day("12٣"), Ok(("٣", 12)));
    assert_eq!(parse_day("٣"), Err(Error::MalformedMessage));
}

#[test]
fn parse_score_reads_each_score_character() {
    assert_eq!(parse_score("X/6"), Ok(("/6", 0)));
    assert_eq!(parse_score("0/6"), Ok(("/6", 0)));
    assert_eq!(parse_score("1/6"), Ok(("/6", 1)));
    assert_eq!(parse_score("2/6"), Ok(("/6", 2)));
    assert_eq!(parse_score("3/6"), Ok(("/6", 3)));
    assert_eq!(parse_score("4/6"), Ok(("/6", 4)));
    assert_eq!(parse_score("5/6"), Ok(("/6", 5)));
    assert_eq!(parse_score("6"), Ok(("", 6)));
    assert_eq!(parse_score(""), Err(Error::MalformedMessage));
    assert_eq!(parse_score("8"), Err(Error::IlleagalNumberOfGuesses('8')));
    assert_eq!(parse_score("9"), Err(Error::IlleagalNumberOfGuesses('9')));
}

#[test]
fn starts_with_wordle_goes_by_the_word_alone() {
    assert!(starts_with_wordle("Wordle 547 3/6"));
    assert!(starts_with_wordle("Wordle"));
    assert!(starts_with_wordle("Wordleish"));
    assert!(!starts_with_wordle("wordle 547 3/6"));
    assert!(!starts_with_wordle(" Wordle"));
    assert!(!starts_with_wordle("Wordl"));
    assert!(!starts_with_wordle(""));
}

fn by_combinators(s: &str) -> IResult<&str, (i64, i64)> {
    let (rest, (day, score)) = preceded(
        tag("Wordle "),
        separated_pair(nom_i64, tag(" "), one_of("X123456")),
    )(s)?;
    let guesses = if score == 'X' {
        0
    } else {
        score as i64 - '0' as i64
    };
    Ok((rest, (day, guesses)))
}

#[test]
fn parse_wordle_agrees_with_parser_combinators() {
    let messages = [
        "Wordle 547 3/6",
        "Wordle 547 X/6",
        "Wordle 547 7/6",
        "wordle 547 3/6",
        "Wordle -3 1/6",
        "Wordle +3 6/6 and more",
        "Wordle 9223372036854775807 2",
        "Wordle 9223372036854775808 2",
        "Wordle -9223372036854775808 4",
        "Wordle -9223372036854775809 4",
        "Wordle 1 ",
        "Wordle 1",
        "Wordle  1 1",
        "Wordle 12a 3",
        "Wordle 12 é",
        "Wordle é 3",
        "",
        "W",
        "Wordle ",
        "Wordle 000 5/6",
    ];
    for message in messages {
        match (parse_wordle(message), by_combinators(message)) {
            (Ok(ours), Ok(theirs)) => assert_eq!(ours, theirs, "on {message:?}"),
            (Err(_), Err(_)) => {}
            (ours, theirs) => panic!("on {message:?}: {ours:?} against {theirs:?}"),
        }
    }
}

#[test]
fn parse_day_agrees_with_parser_combinators() {
    let texts = [
        "547 bla", "blabla", "", "-", "+", "-0", "+0x", "12", "0012", "1 2", "18446744073709551616",
        "9223372036854775807", "9223372036854775808", "-9223372036854775808",
        "-9223372036854775809", "٣", "1٣",
    ];
    for text in texts {
        let theirs: IResult<&str, i64> = nom_i64(text);
        match (parse_day(text), theirs) {
            (Ok(ours), Ok(theirs)) => assert_eq!(ours, theirs, "on {text:?}"),
            (Err(_), Err(_)) => {}
            (ours, theirs) => panic!("on {text:?}: {ours:?} against {theirs:?}"),
        }
    }
}
