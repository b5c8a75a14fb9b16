use flashmd::errors::{FlashError, FlashErrorType};
use flashmd::parser::{parse, Card};
use flashmd::session::{Face, ReviewSession};

fn lines_of(doc: &str) -> Vec<String> {
    doc.lines().map(|l| l.to_string()).collect()
}

#[test]
fn two_sections() {
    let lines = lines_of("# A\nfoo\n# B\nbar\nbaz\n");
    let deck = parse(&lines);
    assert_eq!(deck.len(), 2);
    assert_eq!(deck[0].title, "A");
    assert_eq!(deck[0].body, "foo\n");
    assert!(deck[0].history.is_empty());
    assert_eq!(deck[1].title, "B");
    assert_eq!(deck[1].body, "bar\nbaz\n");
    assert!(deck[1].history.is_empty());
}

#[test]
fn pre_heading_content_discarded() {
    let lines = lines_of("intro\n# A\nx\n");
    let deck = parse(&lines);
    assert_eq!(deck.len(), 1);
    assert_eq!(deck[0].title, "A");
    assert_eq!(deck[0].body, "x\n");
}

#[test]
fn blank_titled_section_discarded() {
    let lines = lines_of("# \nfoo\n# B\nbar\n");
    let deck = parse(&lines);
    assert_eq!(deck.len(), 1);
    assert_eq!(deck[0].title, "B");
    assert_eq!(deck[0].body, "bar\n");
}

#[test]
fn no_headings_empty_deck() {
    let lines = lines_of("foo\nbar\nbaz\n");
    assert!(parse(&lines).is_empty());
}

#[test]
fn empty_document_empty_deck() {
    let lines: Vec<String> = Vec::new();
    assert!(parse(&lines).is_empty());
}

#[test]
fn consecutive_headings_empty_bodies() {
    let lines = lines_of("# A\n# B\n");
    let deck = parse(&lines);
    assert_eq!(deck.len(), 2);
    assert_eq!(deck[0].title, "A");
    assert_eq!(deck[0].body, "");
    assert_eq!(deck[1].title, "B");
    assert_eq!(deck[1].body, "");
}

#[test]
fn whitespace_only_title_merges_into_no_card() {
    let lines = lines_of("#   \nlost content\n# B\n");
    let deck = parse(&lines);
    assert_eq!(deck.len(), 1);
    assert_eq!(deck[0].title, "B");
    assert_eq!(deck[0].body, "");
}

#[test]
fn titles_are_trimmed() {
    let lines = lines_of("#   Spaced Title  \nbody\n");
    let deck = parse(&lines);
    assert_eq!(deck.len(), 1);
    assert_eq!(deck[0].title, "Spaced Title");
    assert_eq!(deck[0].body, "body\n");
}

#[test]
fn body_lines_kept_verbatim() {
    let lines = lines_of("# T\n  x  \n\n#not a heading\n");
    let deck = parse(&lines);
    assert_eq!(deck.len(), 1);
    assert_eq!(deck[0].body, "  x  \n\n#not a heading\n");
}

#[test]
fn hash_without_space_is_body() {
    let lines = lines_of("#A\n# B\n#C\n");
    let deck = parse(&lines);
    assert_eq!(deck.len(), 1);
    assert_eq!(deck[0].title, "B");
    assert_eq!(deck[0].body, "#C\n");
}

#[test]
fn unicode_titles_and_bodies() {
    let lines = lines_of("# K\u{e4}rtchen\n\u{dc}bung \u{2713}\n");
    let deck = parse(&lines);
    assert_eq!(deck.len(), 1);
    assert_eq!(deck[0].title, "K\u{e4}rtchen");
    assert_eq!(deck[0].body, "\u{dc}bung \u{2713}\n");
}

#[test]
fn missing_final_newline_still_terminates_line() {
    let lines = lines_of("# A\nfoo");
    let deck = parse(&lines);
    assert_eq!(deck.len(), 1);
    assert_eq!(deck[0].body, "foo\n");
}

#[test]
fn heading_as_last_line() {
    let lines = lines_of("# A\nx\n# B");
    let deck = parse(&lines);
    assert_eq!(deck.len(), 2);
    assert_eq!(deck[0].title, "A");
    assert_eq!(deck[0].body, "x\n");
    assert_eq!(deck[1].title, "B");
    assert_eq!(deck[1].body, "");
}

#[test]
fn record_outcome_appends_history() {
    let lines = lines_of("# A\nfoo\n");
    let mut deck = parse(&lines);
    assert!(deck[0].history.is_empty());
    deck[0].record_outcome(true);
    deck[0].record_outcome(false);
    assert_eq!(deck[0].history, vec![true, false]);
    assert_eq!(deck[0].title, "A");
    assert_eq!(deck[0].body, "foo\n");
}

#[test]
fn error_construction() {
    let e = FlashError::new(
        FlashErrorType::FileReadError("notes.md".to_string()),
        "no such file".to_string(),
    );
    assert!(matches!(e.error, FlashErrorType::FileReadError(ref p) if p == "notes.md"));
    assert_eq!(e.traceback, "no such file");
}

#[test]
fn empty_deck_session_refused() {
    let r = ReviewSession::new(Vec::new());
    match r {
        Ok(_) => panic!("a session over an empty deck must be refused"),
        Err(e) => assert!(matches!(e.error, FlashErrorType::EmptyDeck)),
    }
}

fn card(title: &str, body: &str) -> Card {
    Card { title: title.to_string(), body: body.to_string(), history: Vec::new() }
}

#[test]
fn session_over_three_cards() {
    let deck = vec![card("A", "a\n"), card("B", "b\n"), card("C", "c\n")];
    let titles = ["A", "B", "C"];
    let bodies = ["a\n", "b\n", "c\n"];
    let mut s = ReviewSession::new(deck).unwrap();
    assert_eq!(s.deck_len(), 3);
    assert!(!s.is_terminated());
    assert_eq!(s.current_face(), Face::Front);
    let i0 = s.current_index();
    assert!(i0 < 3);
    assert_eq!(s.current_title(), titles[i0]);
    assert_eq!(s.current_body(), "");

    s.on_primary_event();
    assert_eq!(s.current_face(), Face::Back);
    assert_eq!(s.current_index(), i0);
    assert_eq!(s.current_title(), titles[i0]);
    assert_eq!(s.current_body(), bodies[i0]);

    s.on_primary_event();
    assert_eq!(s.current_face(), Face::Front);
    let i1 = s.current_index();
    assert!(i1 < 3);
    assert_eq!(s.current_title(), titles[i1]);
    assert_eq!(s.current_body(), "");

    s.on_cancel_event();
    assert!(s.is_terminated());
    assert_eq!(s.current_face(), Face::Front);
    s.on_cancel_event();
    assert!(s.is_terminated());
    assert_eq!(s.current_face(), Face::Front);
}

#[test]
fn single_card_session_always_selects_it() {
    let deck = vec![card("only", "one\n")];
    let mut s = ReviewSession::new(deck).unwrap();
    for _ in 0..20 {
        assert_eq!(s.current_index(), 0);
        assert_eq!(s.current_title(), "only");
        s.on_primary_event();
        assert_eq!(s.current_index(), 0);
        assert_eq!(s.current_body(), "one\n");
        s.on_primary_event();
    }
}

#[test]
fn advance_stays_in_range() {
    let deck = vec![card("A", ""), card("B", ""), card("C", ""), card("D", "")];
    let mut s = ReviewSession::new(deck).unwrap();
    for _ in 0..50 {
        assert!(s.current_index() < 4);
        s.on_primary_event();
        s.on_primary_event();
    }
}

#[test]
fn parsed_deck_drives_a_session() {
    let lines = lines_of("# Q\nanswer\n");
    let deck = parse(&lines);
    let mut s = ReviewSession::new(deck).unwrap();
    assert_eq!(s.current_title(), "Q");
    assert_eq!(s.current_body(), "");
    s.on_primary_event();
    assert_eq!(s.current_body(), "answer\n");
}
