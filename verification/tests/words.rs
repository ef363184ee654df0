use wordle_cup::announcement::{announcement, congratulation, CONGRATULATIONS};
use wordle_cup::error::Error;
use wordle_cup::placement::Placement;

#[test]
fn each_placement_has_its_marker() {
    assert_eq!(Placement::Gold.to_string(), "🥇");
    assert_eq!(Placement::Silver.to_string(), "🥈");
    assert_eq!(Placement::Bronze.to_string(), "🥉");
    assert_eq!(Placement::Loser.to_string(), ":youtried:");
}

#[test]
fn an_error_says_what_went_wrong() {
    assert_eq!(
        Error::IlleagalNumberOfGuesses('7').to_string(),
        "Illeagal number of guesses: 7"
    );
    assert_eq!(
        Error::IlleagalNumberOfGuesses('é').to_string(),
        "Illeagal number of guesses: é"
    );
    assert_eq!(
        Error::MalformedMessage.to_string(),
        "Parse error: not a result message"
    );
    assert_eq!(
        Error::PrecursorMissing.to_string(),
        "Score handed in for an unknown day or player."
    );
    assert_eq!(Error::StorageFull.to_string(), "The score store is full.");
    assert_eq!(
        Error::TimestampOutOfRange.to_string(),
        "Message sent outside the calendar."
    );
}

#[test]
fn a_congratulation_names_the_winner() {
    assert_eq!(
        congratulation(0, "Esa"),
        "@here Grattis Esa till segern i wordlecupen, du är verkligen bäst!"
    );
    assert_eq!(
        congratulation(8, "Esa"),
        "@here Wow! Esa, du är en riktig vinnare som har erövrat wordlecupen. Stort grattis!"
    );
    assert_eq!(
        congratulation(9, ""),
        "@here Enorma gratulationer till  för att ha segrat i wordlecupen. Du är en otroligt skicklig spelare!"
    );
}

#[test]
fn the_announcement_is_one_of_the_congratulations() {
    let all: Vec<String> = (0..CONGRATULATIONS.len())
        .map(|pick| congratulation(pick, "Esa"))
        .collect();
    let mut seen = vec![false; all.len()];
    for _ in 0..2000 {
        let said = announcement(Some("Esa"));
        let pick = all.iter().position(|one| *one == said).unwrap();
        seen[pick] = true;
    }
    assert!(seen.iter().filter(|seen| **seen).count() > 1);
}

#[test]
fn a_cup_without_a_winner_is_announced_too() {
    assert_eq!(announcement(None), "Ingen vinnare i denna cup.");
}
