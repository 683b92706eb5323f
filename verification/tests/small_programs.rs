use sysdemo::file_display::{File as StateFile, FileState};
use sysdemo::file_doced::File as DocedFile;
use sysdemo::file_neat::File as NeatFile;
use sysdemo::greeting::greet_world;
use sysdemo::grep::{process_lines, GrepError, LinePattern};
use sysdemo::needles::{classify, find_needle, hits};
use sysdemo::not_quite_file::{close, open};
use sysdemo::satellites::by_id;
use sysdemo::satellites::by_value::{self, CubeSat};

#[test]
fn doced_file_is_empty_and_named() {
    let f = DocedFile::new("file.txt");
    assert_eq!(f.name(), "file.txt");
    assert_eq!(f.len(), 0);
}

#[test]
fn neat_file_is_empty_and_named() {
    let f = NeatFile::new("f3.txt");
    assert_eq!(f.name, "f3.txt");
    assert_eq!(f.data.len(), 0);
}

#[test]
fn file_with_state_shows_itself() {
    let f = StateFile::new("6.txt");
    assert_eq!(f.state, FileState::Closed);
    assert_eq!(f.to_string(), "<6.txt (CLOSED)>");
    assert_eq!(FileState::Open.to_string(), "OPEN");
    let open_file = StateFile { name: String::from("x"), data: vec![1], state: FileState::Open };
    assert_eq!(open_file.to_string(), "<x (OPEN)>");
}

#[test]
fn open_and_close_succeed() {
    let mut file = String::from("file.txt");
    assert!(open(&mut file));
    assert!(close(&mut file));
    assert_eq!(file, "file.txt");
}

#[test]
fn satellites_report_ok() {
    for id in [0, 1, 2] {
        assert_eq!(by_id::check_status(id), by_id::StatusMessage::Operational);
        assert_eq!(by_value::check_status(CubeSat { id }), by_value::StatusMessage::Operational);
    }
    assert_eq!(by_id::StatusMessage::Operational.to_string(), "Ok");
    assert_eq!(by_value::StatusMessage::Operational.to_string(), "Ok");
}

#[test]
fn greeting_lines() {
    assert_eq!(greet_world(), vec!["Hello, world!", "Grüß Gott!", "Привіт, світе!"]);
}

#[test]
fn needles_are_found() {
    let heystack = [1, 1, 2, 5, 14, 42, 132, 429, 1430, 4862];
    assert_eq!(hits(&heystack), vec![42, 132]);
    assert_eq!(classify(42), "hit!");
    assert_eq!(classify(43), "miss");
    let heystack = [1, 1, 2, 5, 15, 52, 203, 877, 4140, 21147];
    assert!(find_needle(&heystack, 0o204).is_empty());
    assert_eq!(find_needle(&[132, 7, 132], 0o204), vec![132, 132]);
}

#[test]
fn grep_keeps_matching_lines_in_order() {
    let pattern = LinePattern::new("pic+ture").unwrap();
    let lines: Vec<String> = ["a picture", "no match", "piccture here", "pitture"]
        .iter()
        .map(|s| s.to_string())
        .collect();
    assert_eq!(process_lines(&lines, &pattern), vec!["a picture", "piccture here"]);
    assert!(pattern.is_match("picture"));
    assert!(!pattern.is_match("pcture"));
}

#[test]
fn grep_refuses_invalid_pattern() {
    assert_eq!(LinePattern::new("foo(bar").err(), Some(GrepError::InvalidPattern));
    assert!(LinePattern::new(r"\w{1000}").is_err());
}
