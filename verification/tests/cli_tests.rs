use citadel::cli::session_listing;
use citadel::cli::starting_line;
use citadel::cli::usage_hint;
use citadel::cli::Cli;
use citadel::cli::Commands;
use citadel::cli::DEFAULT_SESSION;
use citadel::display::Color;
use citadel::display::Line;

fn text(l: &Line) -> String {
    l.segments.iter().map(|s| s.text.as_str()).collect()
}

#[test]
fn listing_of_sessions() {
    let none = session_listing(&Vec::new());
    assert_eq!(none.len(), 1);
    assert_eq!(text(&none[0]), "No saved sessions found.");
    let some = session_listing(&vec!["a".to_string(), "b".to_string()]);
    let texts: Vec<String> = some.iter().map(text).collect();
    assert_eq!(texts, vec!["Saved Sessions:", "  - a", "  - b"]);
    assert_eq!(some[0].segments[0].color, Some(Color::Yellow));
}

#[test]
fn starting_and_usage_lines() {
    let l = starting_line("work");
    assert_eq!(text(&l), "Starting Citadel session: work");
    assert_eq!(l.segments[2].color, Some(Color::Cyan));
    assert_eq!(text(&usage_hint()), "Use --help for usage instructions.");
    let cli = Cli { command: Some(Commands::Run { session: DEFAULT_SESSION.to_string() }) };
    assert!(matches!(cli.command, Some(Commands::Run { ref session }) if session == "default"));
}
