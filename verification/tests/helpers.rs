use iceland::browser::{command_from, command_line, Command};
use iceland::error::Error;
use iceland::flashcards::{parse_card, parse_deck, Card};
use iceland::layout::{
    area_dir, config_path, current_area_file, iceland_dir, session_start_file, sessions_file,
};
use iceland::scaffold::{plan, reset_directories, DestroyTarget};

fn names(list: &[&str]) -> Vec<String> {
    list.iter().map(|name| name.to_string()).collect()
}

#[test]
fn paths_lie_below_the_hidden_directory() {
    assert_eq!(iceland_dir("/home/ann"), "/home/ann/.iceland");
    assert_eq!(config_path("/home/ann"), "/home/ann/.iceland/config.toml");
    assert_eq!(current_area_file("/home/ann"), "/home/ann/.iceland/current_area");
    assert_eq!(sessions_file("/home/ann"), "/home/ann/.iceland/sessions.csv");
    assert_eq!(session_start_file("/home/ann"), "/home/ann/.iceland/session_start");
    assert_eq!(area_dir("/home/ann", "math"), "/home/ann/.iceland/math");
}

#[test]
fn every_error_has_its_message() {
    assert_eq!(Error::NoCurrentArea.message(), "No current area set");
    assert_eq!(Error::NoActiveSession.message(), "No active session. Use `start` first.");
    assert_eq!(Error::SessionAlreadyActive.message(), "Session already started. Use `stop` first.");
    assert_eq!(Error::AreaNotFound.message(), "Area does not exist. Use `add-area` first.");
    assert_eq!(Error::AreaAlreadyExists.message(), "Area already exists.");
    assert_eq!(Error::Parse.message(), "Invalid time format");
    assert_eq!(Error::ConfigCorrupt.message(), "The configuration is corrupt.");
    assert_eq!(Error::EndBeforeStart.message(), "The session would end before it started.");
    assert_eq!(Error::Io.message(), "The session could not be written.");
}

#[test]
fn plan_of_a_built_in_area() {
    let math = plan("math");
    assert_eq!(math.directories, names(&["notes", "flashcards", "browser_firefox"]));
    assert_eq!(
        math.links,
        Some("Math resources:\nhttps://www.khanacademy.org\n".to_string())
    );
    let work = plan("work");
    assert_eq!(
        work.directories,
        names(&["notes", "flashcards", "projects", "docs", "browser_profile"])
    );
    assert_eq!(work.links, None);
    let learning = plan("learning");
    assert_eq!(learning.directories, names(&["notes", "flashcards", "browser_comet"]));
    assert_eq!(
        learning.links,
        Some(
            "Primuss: https://www3.primuss.de/\nWikipedia: https://www.wikipedia.org\nChatGPT: https://chat.openai.com\n"
                .to_string()
        )
    );
    assert_eq!(
        plan("gaming").directories,
        names(&["notes", "flashcards", "games", "clips", "browser_profile"])
    );
    assert_eq!(plan("traveling").directories, names(&["notes", "flashcards", "plans"]));
    assert_eq!(plan("trading").directories, names(&["notes", "flashcards", "analysis"]));
    assert_eq!(plan("trading").links, None);
}

#[test]
fn plan_of_a_custom_area() {
    let music = plan("music");
    assert_eq!(music.directories, names(&["notes", "flashcards"]));
    assert_eq!(music.links, Some("# Links for music\n\n".to_string()));
}

#[test]
fn reset_directories_of_each_target() {
    assert_eq!(
        reset_directories(DestroyTarget::Browser),
        names(&["browser_firefox", "browser_comet", "browser_profile"])
    );
    assert_eq!(reset_directories(DestroyTarget::Notes), names(&["notes"]));
}

#[test]
fn card_is_cut_at_the_first_bar() {
    assert_eq!(
        parse_card("2+2|4"),
        Some(Card { front: "2+2".to_string(), back: "4".to_string() })
    );
    assert_eq!(
        parse_card("a|b|c"),
        Some(Card { front: "a".to_string(), back: "b|c".to_string() })
    );
    assert_eq!(parse_card("|"), Some(Card { front: String::new(), back: String::new() }));
    assert_eq!(parse_card("no separator"), None);
    assert_eq!(parse_card(""), None);
}

#[test]
fn deck_notes_the_lines_without_card() {
    let deck = parse_deck(&names(&["a|1", "", "b|2", "oops", "c|3"]));
    assert_eq!(
        deck.cards,
        vec![
            Card { front: "a".to_string(), back: "1".to_string() },
            Card { front: "b".to_string(), back: "2".to_string() },
            Card { front: "c".to_string(), back: "3".to_string() },
        ]
    );
    assert_eq!(deck.skipped, vec![2, 4]);
    let empty = parse_deck(&Vec::new());
    assert!(empty.cards.is_empty());
    assert!(empty.skipped.is_empty());
}

#[test]
fn browser_command_puts_the_area_in() {
    assert_eq!(
        command_line("firefox -P {area}", "math"),
        Some(Command { program: "firefox".to_string(), arguments: names(&["-P", "math"]) })
    );
    assert_eq!(
        command_line("  open  {area} {area}\t--new ", "x"),
        Some(Command { program: "open".to_string(), arguments: names(&["x", "x", "--new"]) })
    );
    assert_eq!(
        command_line("firefox", "math"),
        Some(Command { program: "firefox".to_string(), arguments: Vec::new() })
    );
}

#[test]
fn browser_command_may_be_absent() {
    assert_eq!(command_line("", "math"), None);
    assert_eq!(command_line("   ", "math"), None);
    assert_eq!(command_line("{area}", ""), None);
}

#[test]
fn command_from_takes_the_first_word_as_the_program() {
    assert_eq!(
        command_from("a b c", names(&["a", "b", "c"])),
        Some(Command { program: "a".to_string(), arguments: names(&["b", "c"]) })
    );
    assert_eq!(command_from("a", Vec::new()), None);
    assert_eq!(command_from("", names(&["a"])), None);
}
