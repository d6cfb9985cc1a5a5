use blackjack_analyzer_rs::terminal::{green, red, yellow};

#[test]
fn yellow_wraps_text_in_escape_codes() {
    assert_eq!(yellow("Push."), "\x1b[33mPush.\x1b[0m");
}

#[test]
fn red_wraps_text_in_escape_codes() {
    assert_eq!(red("Bust."), "\x1b[31mBust.\x1b[0m");
}

#[test]
fn green_wraps_text_in_escape_codes() {
    assert_eq!(green("Blackjack!"), "\x1b[32mBlackjack!\x1b[0m");
}

#[test]
fn painting_an_empty_text_gives_the_codes_alone() {
    assert_eq!(green(""), "\x1b[32m\x1b[0m");
}
