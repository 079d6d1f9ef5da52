use board_game_bot::board_games::{BoardGame, Location};
use board_game_bot::router::{
    answer_query, is_secret_command, present, search_reply, Command, OutcomeCode, Reply,
    Resolution, Router, MESSAGE_LIMIT,
};

fn catan() -> BoardGame {
    BoardGame {
        url: "https://example.com/catan".to_string(),
        name: "Catan".to_string(),
        locations: vec![Location { store: "Shelf A".to_string(), locale: "Room 1".to_string() }],
    }
}

fn filler(i: usize) -> BoardGame {
    BoardGame {
        url: "u".to_string(),
        name: format!("Game {:03} {}", i, "x".repeat(85)),
        locations: vec![],
    }
}

fn router(token: Option<&str>) -> Router {
    Router::new(token.map(|t| t.to_string()), "/help\n/search\n/s\n/start".to_string())
}

fn routed(resolution: Resolution) -> (Option<Reply>, OutcomeCode) {
    match resolution {
        Resolution::Routed { reply, outcome } => (reply, outcome),
        Resolution::Diagnostics => panic!("the message was taken for the administrator's"),
    }
}

#[test]
fn one_game_found_end_to_end() {
    let catalog = vec![catan()];
    let (reply, outcome) = search_reply(&catalog, "cat");
    assert_eq!(outcome, OutcomeCode::SearchResults(1));
    assert!(reply.markdown);
    assert_eq!(reply.text, "[Catan](https://example\\.com/catan) \nShelf A \\- Room 1");
}

#[test]
fn a_query_of_two_bytes_is_too_short() {
    let catalog = vec![catan(), BoardGame { name: "Abalone".to_string(), ..catan() }];
    let (reply, outcome) = search_reply(&catalog, "ab");
    assert_eq!(outcome, OutcomeCode::QueryTooShort);
    assert!(!reply.markdown);
    assert_eq!(reply.text, "Search term must be at least 3 characters long");
}

#[test]
fn nothing_found_says_so() {
    let catalog = vec![catan()];
    let (reply, outcome) = search_reply(&catalog, "zzz");
    assert_eq!(outcome, OutcomeCode::SearchResults(0));
    assert!(!reply.markdown);
    assert_eq!(reply.text, "No games found");
}

#[test]
fn without_a_token_there_is_no_admin_path() {
    assert!(!is_secret_command("/admin_", None));
    assert!(!is_secret_command("/admin_secret", None));
    assert!(!is_secret_command("", None));
    let r = router(None);
    assert!(!r.is_admin_command("/admin_"));
    let (_, outcome) = routed(r.resolve(&[catan()], Some("/admin_"), None));
    assert_eq!(outcome, OutcomeCode::SearchResults(0));
}

#[test]
fn an_empty_token_disables_the_admin_path_too() {
    assert!(!is_secret_command("/admin_", Some("")));
    assert!(!router(Some("")).is_admin_command("/admin_"));
}

#[test]
fn the_admin_text_is_the_prefix_and_the_token_exactly() {
    assert!(is_secret_command("/admin_s3cret", Some("s3cret")));
    assert!(!is_secret_command("/admin_s3cret ", Some("s3cret")));
    assert!(!is_secret_command(" /admin_s3cret", Some("s3cret")));
    assert!(!is_secret_command("/admin_S3CRET", Some("s3cret")));
    assert!(!is_secret_command("/admin_", Some("s3cret")));
    assert!(!is_secret_command("s3cret", Some("s3cret")));
}

#[test]
fn the_admin_text_goes_to_diagnostics_before_anything_else() {
    let r = router(Some("s3cret"));
    let catalog = vec![catan()];
    assert!(matches!(
        r.resolve(&catalog, Some("/admin_s3cret"), None),
        Resolution::Diagnostics
    ));
    assert!(matches!(
        r.resolve(&catalog, Some("/admin_s3cret"), Some(Command::Help)),
        Resolution::Diagnostics
    ));
}

#[test]
fn help_sends_the_command_list() {
    let (reply, outcome) = routed(router(None).resolve(&[], Some("/help"), Some(Command::Help)));
    let reply = reply.unwrap();
    assert_eq!(outcome, OutcomeCode::HelpShown);
    assert_eq!(reply.text, "/help\n/search\n/s\n/start");
    assert!(!reply.markdown);
}

#[test]
fn start_sends_the_welcome() {
    let (reply, outcome) = routed(router(None).resolve(&[], Some("/start"), Some(Command::Start)));
    let reply = reply.unwrap();
    assert_eq!(outcome, OutcomeCode::StartShown);
    assert_eq!(
        reply.text,
        "Welcome to the bastard's shelfs!\nPlease send me the name of the board game you're looking for."
    );
    assert!(!reply.markdown);
}

#[test]
fn a_message_without_text_is_not_answered() {
    let (reply, outcome) = routed(router(Some("s3cret")).resolve(&[catan()], None, None));
    assert!(reply.is_none());
    assert_eq!(outcome, OutcomeCode::NoIntentMatched);
    let (reply, outcome) =
        routed(router(None).resolve(&[catan()], None, Some(Command::Help)));
    assert!(reply.is_none());
    assert_eq!(outcome, OutcomeCode::NoIntentMatched);
}

#[test]
fn both_search_commands_search_for_their_argument() {
    let catalog = vec![catan()];
    let r = router(None);
    let (reply, outcome) = routed(r.resolve(
        &catalog,
        Some("/search cat"),
        Some(Command::Search("cat".to_string())),
    ));
    assert_eq!(outcome, OutcomeCode::SearchResults(1));
    assert!(reply.unwrap().markdown);
    let (reply, outcome) =
        routed(r.resolve(&catalog, Some("/s Cat"), Some(Command::S("Cat".to_string()))));
    assert_eq!(outcome, OutcomeCode::SearchResults(1));
    assert_eq!(
        reply.unwrap().text,
        "[Catan](https://example\\.com/catan) \nShelf A \\- Room 1"
    );
}

#[test]
fn free_text_is_a_search_term() {
    let catalog = vec![catan()];
    let (reply, outcome) = routed(router(None).resolve(&catalog, Some("catan"), None));
    assert_eq!(outcome, OutcomeCode::SearchResults(1));
    assert!(reply.unwrap().markdown);
    let (reply, outcome) = routed(router(None).resolve(&catalog, Some("hi"), None));
    assert_eq!(outcome, OutcomeCode::QueryTooShort);
    assert_eq!(reply.unwrap().text, "Search term must be at least 3 characters long");
}

#[test]
fn a_search_command_without_argument_is_too_short() {
    let (reply, outcome) = routed(router(None).resolve(
        &[catan()],
        Some("/search"),
        Some(Command::Search(String::new())),
    ));
    assert_eq!(outcome, OutcomeCode::QueryTooShort);
    assert!(!reply.unwrap().markdown);
}

#[test]
fn the_term_is_trimmed_before_it_is_measured_and_searched() {
    let catalog = vec![catan()];
    let (_, outcome) = search_reply(&catalog, "  cat \n");
    assert_eq!(outcome, OutcomeCode::SearchResults(1));
    let (_, outcome) = search_reply(&catalog, "   ab   ");
    assert_eq!(outcome, OutcomeCode::QueryTooShort);
    let (_, outcome) = search_reply(&catalog, "      ");
    assert_eq!(outcome, OutcomeCode::QueryTooShort);
}

#[test]
fn the_term_is_measured_in_bytes() {
    let catalog = vec![catan()];
    let (_, outcome) = search_reply(&catalog, "é");
    assert_eq!(outcome, OutcomeCode::QueryTooShort);
    let (_, outcome) = search_reply(&catalog, "éé");
    assert_eq!(outcome, OutcomeCode::SearchResults(0));
}

#[test]
fn answer_query_does_not_trim() {
    let catalog = vec![catan()];
    let (_, outcome) = answer_query(&catalog, " ab");
    assert_eq!(outcome, OutcomeCode::SearchResults(0));
    let (_, outcome) = answer_query(&catalog, "ab");
    assert_eq!(outcome, OutcomeCode::QueryTooShort);
    let (_, outcome) = answer_query(&catalog, "tan");
    assert_eq!(outcome, OutcomeCode::SearchResults(1));
}

#[test]
fn present_of_nothing_says_so() {
    let (reply, outcome) = present(&[]);
    assert_eq!(outcome, OutcomeCode::SearchResults(0));
    assert_eq!(reply.text, "No games found");
    assert!(!reply.markdown);
}

#[test]
fn present_joins_the_renderings_with_an_empty_line() {
    let a = catan();
    let b = BoardGame { name: "Azul".to_string(), url: "a.b".to_string(), locations: vec![] };
    let (reply, outcome) = present(&[&a, &b]);
    assert_eq!(outcome, OutcomeCode::SearchResults(2));
    assert_eq!(
        reply.text,
        "[Catan](https://example\\.com/catan) \nShelf A \\- Room 1\n\n[Azul](a\\.b) \n"
    );
    assert!(reply.markdown);
}

#[test]
fn a_long_result_is_cut_but_counted_in_full() {
    // Each rendering is "[Game NNN xxx…](u) \n": 94 + 7 = 101 bytes.
    let catalog: Vec<BoardGame> = (0..60).map(filler).collect();
    assert_eq!(catalog[0].markdown_v2().len(), 101);
    let (reply, outcome) = search_reply(&catalog, "game");
    assert_eq!(outcome, OutcomeCode::SearchResults(60));
    assert!(reply.text.len() <= MESSAGE_LIMIT);
    // 39 entries weigh 39 * 101 + 38 * 2 = 4015; a 40th would make 4118.
    assert_eq!(reply.text.len(), 4015);
    assert_eq!(reply.text.matches("[Game ").count(), 39);
    assert!(reply.text.starts_with("[Game 000 "));
    assert!(reply.text.ends_with("(u) \n"));
    assert!(reply.text.contains("[Game 038 "));
    assert!(!reply.text.contains("[Game 039 "));
}

#[test]
fn an_oversized_first_hit_is_sent_whole() {
    let huge = BoardGame { name: "y".repeat(5000), url: "u".to_string(), locations: vec![] };
    let catalog = vec![huge, catan()];
    let (reply, outcome) = search_reply(&catalog, "yyy");
    assert_eq!(outcome, OutcomeCode::SearchResults(1));
    assert_eq!(reply.text.len(), 5007);
    let catalog = vec![
        BoardGame { name: format!("cat{}", "y".repeat(5000)), url: "u".to_string(), locations: vec![] },
        catan(),
    ];
    let (reply, outcome) = search_reply(&catalog, "cat");
    assert_eq!(outcome, OutcomeCode::SearchResults(2));
    assert_eq!(reply.text, catalog[0].markdown_v2());
}
