use board_game_bot::board_games::{BoardGame, Location};
use board_game_bot::search::{game_matches, search, SearchQuery, MIN_QUERY_BYTES};
use board_game_bot::substring::{bytes_contain, contains};

fn named(name: &str) -> BoardGame {
    BoardGame {
        url: format!("https://example.com/{}", name),
        name: name.to_string(),
        locations: vec![Location { store: "Shelf A".to_string(), locale: "Room 1".to_string() }],
    }
}

fn names(found: &[&BoardGame]) -> Vec<String> {
    found.iter().map(|g| g.name.clone()).collect()
}

#[test]
fn search_finds_by_substring_of_the_name() {
    let catalog = vec![named("Catan"), named("Azul"), named("Concordia")];
    assert_eq!(names(&search(&catalog, "cat")), vec!["Catan"]);
    assert_eq!(names(&search(&catalog, "ata")), vec!["Catan"]);
    assert_eq!(names(&search(&catalog, "zul")), vec!["Azul"]);
}

#[test]
fn search_ignores_case_on_both_sides() {
    let catalog = vec![named("Catan"), named("SCATTERGORIES"), named("Azul")];
    assert_eq!(names(&search(&catalog, "CAT")), vec!["Catan", "SCATTERGORIES"]);
    assert_eq!(names(&search(&catalog, "cAt")), vec!["Catan", "SCATTERGORIES"]);
}

#[test]
fn search_folds_case_beyond_ascii() {
    let catalog = vec![named("ČARODĚJOVÉ"), named("Carcassonne")];
    assert_eq!(names(&search(&catalog, "čaroděj")), vec!["ČARODĚJOVÉ"]);
}

#[test]
fn search_keeps_the_order_of_the_catalog() {
    let catalog = vec![named("Zoo Cat"), named("Azul"), named("Cat Lady"), named("Alley Cats")];
    assert_eq!(names(&search(&catalog, "cat")), vec!["Zoo Cat", "Cat Lady", "Alley Cats"]);
}

#[test]
fn search_keeps_duplicates() {
    let catalog = vec![named("Catan"), named("Catan")];
    assert_eq!(search(&catalog, "catan").len(), 2);
}

#[test]
fn search_that_finds_nothing_is_empty() {
    let catalog = vec![named("Catan")];
    assert!(search(&catalog, "zzz").is_empty());
    let empty: Vec<BoardGame> = Vec::new();
    assert!(search(&empty, "cat").is_empty());
}

#[test]
fn search_takes_the_whole_term_as_one_pattern() {
    let catalog = vec![named("Ticket to Ride"), named("Ride the Ticket")];
    assert_eq!(names(&search(&catalog, "ticket to")), vec!["Ticket to Ride"]);
    assert!(search(&catalog, "ticket ride").is_empty());
}

#[test]
fn search_returns_the_games_of_the_catalog_themselves() {
    let catalog = vec![named("Catan"), named("Azul")];
    let found = search(&catalog, "azul");
    assert_eq!(found.len(), 1);
    assert_eq!(found[0].name, catalog[1].name);
    assert_eq!(found[0].url, catalog[1].url);
    assert_eq!(found[0].locations.len(), catalog[1].locations.len());
}

#[test]
fn game_matches_agrees_with_search() {
    let g = named("Catan");
    assert!(game_matches(&g, "CATAN"));
    assert!(game_matches(&g, "an"));
    assert!(game_matches(&g, ""));
    assert!(!game_matches(&g, "catan!"));
}

#[test]
fn contains_is_plain_containment() {
    assert!(contains("catan", "cat"));
    assert!(contains("catan", "tan"));
    assert!(contains("catan", "ata"));
    assert!(contains("catan", "catan"));
    assert!(contains("catan", ""));
    assert!(contains("", ""));
    assert!(!contains("catan", "Cat"));
    assert!(!contains("cat", "catan"));
    assert!(!contains("", "a"));
    assert!(!contains("catan", "ct"));
    assert!(contains("aab", "ab"));
    assert!(contains("ababac", "abac"));
}

#[test]
fn contains_goes_by_characters() {
    assert!(contains("日本語", "本"));
    assert!(contains("日本語", "本語"));
    assert!(!contains("日本語", "語本"));
    assert!(contains("café", "é"));
    assert!(contains("café racer", "fé r"));
    assert!(!contains("café", "e"));
    assert!(!contains("é", "è"));
    assert!(contains("a\u{10348}b", "\u{10348}"));
}

#[test]
fn contains_agrees_with_the_standard_library() {
    let texts = ["", "a", "ab", "aba", "abab", "é", "aé", "éa", "éé", "日本", "本日", "a本"];
    for hay in texts.iter() {
        for needle in texts.iter() {
            assert_eq!(contains(hay, needle), hay.contains(needle));
        }
    }
}

#[test]
fn bytes_contain_finds_a_run_of_bytes() {
    assert!(bytes_contain(&[1, 2, 3, 4], &[2, 3]));
    assert!(bytes_contain(&[1, 2, 3, 4], &[1, 2, 3, 4]));
    assert!(bytes_contain(&[1, 2, 3, 4], &[4]));
    assert!(bytes_contain(&[1, 2, 3, 4], &[]));
    assert!(bytes_contain(&[], &[]));
    assert!(!bytes_contain(&[1, 2, 3, 4], &[3, 2]));
    assert!(!bytes_contain(&[1, 2, 3, 4], &[1, 2, 3, 4, 5]));
    assert!(!bytes_contain(&[], &[0]));
    assert!(bytes_contain(&[0, 0, 1], &[0, 1]));
}

#[test]
fn a_query_is_the_trimmed_term() {
    assert_eq!(SearchQuery::parse("  Catan ").unwrap().as_str(), "Catan");
    assert_eq!(SearchQuery::parse("\tTicket to Ride\n").unwrap().as_str(), "Ticket to Ride");
    assert_eq!(SearchQuery::parse("cat").unwrap().as_str(), "cat");
}

#[test]
fn a_query_of_fewer_than_three_bytes_is_turned_away() {
    assert_eq!(MIN_QUERY_BYTES, 3);
    assert!(SearchQuery::parse("").is_none());
    assert!(SearchQuery::parse("ab").is_none());
    assert!(SearchQuery::parse("  ab  ").is_none());
    assert!(SearchQuery::parse("\n \t ").is_none());
    assert!(SearchQuery::parse("é").is_none());
    assert!(SearchQuery::parse("éé").is_some());
    assert!(SearchQuery::parse("abc").is_some());
}

#[test]
fn from_trimmed_takes_the_term_as_it_is() {
    assert_eq!(SearchQuery::from_trimmed(" ab").unwrap().as_str(), " ab");
    assert!(SearchQuery::from_trimmed("ab").is_none());
    assert_eq!(SearchQuery::from_trimmed("CATAN").unwrap().as_str(), "CATAN");
}
